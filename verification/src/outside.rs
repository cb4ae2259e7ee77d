//! Types of std and of outside crates that values of this library carry.
//!
//! They are opaque here: the library only moves them from where they are
//! made (I/O and parsing, outside this crate's verified code) to its callers.

use vstd::prelude::*;

verus! {

/// `std::io::Error`, carried by the error variants that report I/O failures.
#[verifier::external_type_specification]
#[verifier::external_body]
pub struct ExIoError(std::io::Error);

/// `serde_json::Error`, carried by the error variants that report JSON failures.
#[verifier::external_type_specification]
#[verifier::external_body]
pub struct ExJsonError(serde_json::Error);

/// `serde_json::Value`, the free-form session data of a worktree record.
#[verifier::external_type_specification]
#[verifier::external_body]
pub struct ExJsonValue(serde_json::Value);

/// `toml::de::Error`, carried by the error that reports invalid configuration.
#[verifier::external_type_specification]
#[verifier::external_body]
pub struct ExTomlError(toml::de::Error);

} // verus!
