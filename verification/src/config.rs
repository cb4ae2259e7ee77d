//! Configuration layers and where `hecate_root` comes from.
//!
//! User config: `{config_dir}/hecate/config.toml`; repo config:
//! `{repo_root}/.hecate/config.toml`. Precedence: `HECATE_ROOT` overrides
//! TOML; repo TOML overrides user TOML; missing files are ignored.

use vstd::prelude::*;

use crate::fspath::{
    is_absolute, is_plain_name, is_suffix_of, lemma_join_components, lemma_without_cur_dir_suffix,
    path_is_absolute, path_join,
    spec_components, spec_join, without_cur_dir,
};
use crate::text::{chars_of, string_of};

verus! {

/// Errors while resolving config paths or parsing TOML.
#[derive(Debug)]
pub enum ConfigError {
    /// No user config directory is known on this platform.
    NoUserConfigDir,
    /// A config file exists but could not be read.
    Read { path: String, source: std::io::Error },
    /// A config file is not valid TOML.
    Toml { path: String, source: toml::de::Error },
}

/// Fields accepted in `config.toml` (user or repo). Omitted keys use defaults.
pub struct FileConfig {
    /// Root directory for worktrees and `{hecate_root}/metadata.json`.
    pub hecate_root: Option<String>,
}

impl Default for FileConfig {
    fn default() -> (r: Self)
        ensures
            r.hecate_root is None,
    {
        FileConfig { hecate_root: None }
    }
}

impl FileConfig {
    /// A later layer's `hecate_root`, when set, replaces this one.
    pub fn merge(&mut self, other: FileConfig)
        ensures
            final(self).hecate_root == (if other.hecate_root is Some {
                other.hecate_root
            } else {
                old(self).hecate_root
            }),
    {
        if other.hecate_root.is_some() {
            self.hecate_root = other.hecate_root;
        }
    }
}

/// Fully merged configuration from all layers.
pub struct ResolvedConfig {
    pub hecate_root: Option<String>,
}

/// Where to look for config files.
pub struct LoadOptions {
    /// Git repo root; when set, `.hecate/config.toml` is merged after the user file.
    pub repo_root: Option<String>,
    /// When set, used instead of the platform config directory (e.g. tests).
    pub config_home_override: Option<String>,
}

impl Default for LoadOptions {
    fn default() -> (r: Self)
        ensures
            r.repo_root is None,
            r.config_home_override is None,
    {
        LoadOptions { repo_root: None, config_home_override: None }
    }
}

/// The `hecate_root` of a layer that may be missing.
pub open spec fn layer_root(layer: Option<FileConfig>) -> Option<String> {
    match layer {
        Some(c) => c.hecate_root,
        None => None,
    }
}

/// `a` when it is set, else `b`.
pub open spec fn or_else<T>(a: Option<T>, b: Option<T>) -> Option<T> {
    if a is Some {
        a
    } else {
        b
    }
}

/// Merges the parsed layers: the user file, then the repo file, then the
/// `HECATE_ROOT` value; a later value, when set, wins.
pub fn load_merged(
    user: Option<FileConfig>,
    repo: Option<FileConfig>,
    env_hecate_root: Option<String>,
) -> (r: ResolvedConfig)
    ensures
        r.hecate_root == or_else(env_hecate_root, or_else(layer_root(repo), layer_root(user))),
{
    let mut acc = FileConfig::default();
    if let Some(cfg) = user {
        acc.merge(cfg);
    }
    if let Some(cfg) = repo {
        acc.merge(cfg);
    }
    if let Some(v) = env_hecate_root {
        acc.hecate_root = Some(v);
    }
    ResolvedConfig { hecate_root: acc.hecate_root }
}

/// `base/hecate/config.toml`.
pub open spec fn spec_user_config_file(base: Seq<char>) -> Seq<char> {
    spec_join(spec_join(base, "hecate"@), "config.toml"@)
}

/// `repo_root/.hecate/config.toml`.
pub open spec fn spec_repo_config_file(repo_root: Seq<char>) -> Seq<char> {
    spec_join(spec_join(repo_root, ".hecate"@), "config.toml"@)
}

/// The user config file below the config directory `base`.
pub fn user_config_file(base: &str) -> (r: String)
    ensures
        r@ == spec_user_config_file(base@),
{
    let dir = path_join(base, "hecate");
    path_join(dir.as_str(), "config.toml")
}

/// The repo config file of the repository at `repo_root`.
pub fn repo_config_path(repo_root: &str) -> (r: String)
    ensures
        r@ == spec_repo_config_file(repo_root@),
{
    let dir = path_join(repo_root, ".hecate");
    path_join(dir.as_str(), "config.toml")
}

/// `dirs::config_dir`: the platform's user config directory, if it knows
/// one. It reads the environment (e.g. `XDG_CONFIG_HOME`, `HOME`), so nothing
/// is stated of the result.
#[verifier::external_body]
fn platform_config_dir() -> (r: Option<String>) {
    match dirs::config_dir() {
        Some(p) => Some(p.to_string_lossy().into_owned()),
        None => None,
    }
}

/// The user config file `base/hecate/config.toml` lies below `base`: its
/// components are those of `base`, then `hecate`, then `config.toml`.
pub proof fn lemma_user_config_file_below_base(base: Seq<char>)
    ensures
        spec_components(spec_user_config_file(base)) == spec_components(base) + seq![
            "hecate"@,
            "config.toml"@,
        ],
{
    reveal_strlit("hecate");
    reveal_strlit("config.toml");
    assert(is_plain_name("hecate"@)) by {
        assert(!"hecate"@.contains('/')) by {
            if "hecate"@.contains('/') {
                let i = choose|i: int| 0 <= i < 6 && "hecate"@[i] == '/';
            }
        }
    }
    assert(is_plain_name("config.toml"@)) by {
        assert(!"config.toml"@.contains('/')) by {
            if "config.toml"@.contains('/') {
                let i = choose|i: int| 0 <= i < 11 && "config.toml"@[i] == '/';
            }
        }
    }
    lemma_join_components(base, "hecate"@);
    lemma_join_components(spec_join(base, "hecate"@), "config.toml"@);
    assert(spec_components(base).push("hecate"@).push("config.toml"@) =~= spec_components(base)
        + seq!["hecate"@, "config.toml"@]);
}

/// The user config file, given the platform config directory `platform_dir`
/// (when the platform knows one): below `config_home_override` when set,
/// else below `platform_dir`.
pub fn user_config_path_in(options: &LoadOptions, platform_dir: Option<&str>) -> (res: Result<
    String,
    ConfigError,
>)
    ensures
        match options.config_home_override {
            Some(base) => res matches Ok(p) && p@ == spec_user_config_file(base@),
            None => match platform_dir {
                Some(d) => res matches Ok(p) && p@ == spec_user_config_file(d@),
                None => res matches Err(e) && e is NoUserConfigDir,
            },
        },
{
    match &options.config_home_override {
        Some(base) => Ok(user_config_file(base.as_str())),
        None => match platform_dir {
            Some(d) => Ok(user_config_file(d)),
            None => Err(ConfigError::NoUserConfigDir),
        },
    }
}

/// The user config file: below `config_home_override` when set, else below
/// the platform config directory.
pub fn user_config_path(options: &LoadOptions) -> (res: Result<String, ConfigError>)
    ensures
        match options.config_home_override {
            Some(base) => res matches Ok(p) && p@ == spec_user_config_file(base@),
            None => match res {
                Ok(p) => exists|base: Seq<char>| p@ == spec_user_config_file(base),
                Err(e) => e is NoUserConfigDir,
            },
        },
{
    match &options.config_home_override {
        Some(_) => user_config_path_in(options, None),
        None => {
            let platform = platform_config_dir();
            match &platform {
                Some(d) => user_config_path_in(options, Some(d.as_str())),
                None => user_config_path_in(options, None),
            }
        },
    }
}

/// Failed to resolve `hecate_root` from config and repo root.
#[derive(Debug)]
pub enum ResolveHecateRootError {
    /// `hecate_root` is not configured (absent or empty).
    NotConfigured,
    /// The absolute form of the path could not be computed.
    Absolute(std::io::Error),
}

/// `std::path::absolute`: the path made absolute without touching the file
/// system (a relative path is put below the current directory). Its
/// documentation promises an error for an empty path and an absolute path
/// on success; errors otherwise come only from reading the current
/// directory, which an absolute path does not need, and on POSIX the path is
/// resolved lexically, keeping `..` and trailing slashes. So an absolute path
/// is returned with the same components. A relative path is put below the
/// current directory after a leading `.` is dropped, so its remaining
/// components end the result (the documentation's example: the absolute
/// form of `foo/./bar` ends with `foo/bar`); what comes before them depends
/// on the current directory, and nothing more is stated of it.
#[verifier::external_body]
fn absolute_path(p: &str) -> (r: Result<String, std::io::Error>)
    ensures
        p@.len() == 0 ==> r is Err,
        r matches Ok(a) ==> is_absolute(a@),
        is_absolute(p@) ==> r is Ok,
        is_absolute(p@) ==> (r matches Ok(a) ==> spec_components(a@) == spec_components(p@)),
        r matches Ok(a) ==> is_suffix_of(without_cur_dir(spec_components(p@)), spec_components(a@)),
{
    match std::path::absolute(p) {
        Ok(a) => Ok(a.to_string_lossy().into_owned()),
        Err(e) => Err(e),
    }
}

/// The configured root as a path: kept when absolute, else below `repo_root`.
pub fn configured_root_path(raw: &str, repo_root: &str) -> (r: String)
    ensures
        r@ == spec_join(repo_root@, raw@),
{
    if path_is_absolute(raw) {
        string_of(&chars_of(raw))
    } else {
        path_join(repo_root, raw)
    }
}

/// Turn configured `hecate_root` into an absolute path.
///
/// Relative values are resolved against `repo_root` (repo `config.toml`
/// paths are relative to the repository root); the result is the absolute
/// form of `configured_root_path`.
pub fn resolve_hecate_root(configured: Option<&str>, repo_root: &str) -> (res: Result<
    String,
    ResolveHecateRootError,
>)
    ensures
        (res matches Err(ResolveHecateRootError::NotConfigured)) <==> (configured is None
            || configured.unwrap()@.len() == 0),
        res matches Ok(p) ==> is_absolute(p@),
        configured matches Some(c) ==> (c@.len() > 0 && is_absolute(spec_join(repo_root@, c@)) ==> (
        res matches Ok(p) && spec_components(p@) == spec_components(spec_join(repo_root@, c@)))),
        configured matches Some(c) ==> (res matches Ok(p) ==> is_suffix_of(
            without_cur_dir(spec_components(spec_join(repo_root@, c@))),
            spec_components(p@),
        )),
{
    let raw = match configured {
        None => return Err(ResolveHecateRootError::NotConfigured),
        Some(r) => r,
    };
    if raw.is_empty() {
        return Err(ResolveHecateRootError::NotConfigured);
    }
    let joined = configured_root_path(raw, repo_root);
    match absolute_path(joined.as_str()) {
        Ok(p) => Ok(p),
        Err(e) => Err(ResolveHecateRootError::Absolute(e)),
    }
}

/// `path` made absolute: kept when absolute, else below `cwd`; then its
/// absolute form, or the joined path itself when that cannot be computed.
pub fn absolute_norm(path: &str, cwd: &str) -> (r: String)
    ensures
        r@ == spec_join(cwd@, path@) || is_absolute(r@),
        is_absolute(spec_join(cwd@, path@)) ==> spec_components(r@) == spec_components(
            spec_join(cwd@, path@),
        ),
        is_suffix_of(without_cur_dir(spec_components(spec_join(cwd@, path@))), spec_components(r@)),
{
    let p = configured_root_path(path, cwd);
    match absolute_path(p.as_str()) {
        Ok(a) => a,
        Err(_) => {
            proof {
                lemma_without_cur_dir_suffix(spec_components(p@));
            }
            p
        },
    }
}

} // verus!
