use std::path::Path;

use hecate::config::{
    absolute_norm, configured_root_path, load_merged, repo_config_path, resolve_hecate_root,
    user_config_path, ConfigError, FileConfig, LoadOptions, ResolveHecateRootError,
};

fn layer(root: &str) -> Option<FileConfig> {
    Some(FileConfig {
        hecate_root: Some(root.to_string()),
    })
}

#[test]
fn none_errors() {
    assert!(matches!(
        resolve_hecate_root(None, "/repo").unwrap_err(),
        ResolveHecateRootError::NotConfigured
    ));
}

#[test]
fn absolute_passes_through() {
    let p = resolve_hecate_root(Some("/var/hecate"), "/repo").unwrap();
    assert!(Path::new(&p).is_absolute());
    assert!(Path::new(&p).ends_with("hecate"));
}

#[test]
fn relative_joins_repo() {
    let repo = std::path::absolute(Path::new("."))
        .unwrap()
        .to_string_lossy()
        .into_owned();
    let p = resolve_hecate_root(Some(".hecate-parking"), &repo).unwrap();
    assert!(Path::new(&p).is_absolute());
    assert!(Path::new(&p).ends_with(".hecate-parking"));
}

#[test]
fn empty_configured_root_is_not_configured() {
    assert!(matches!(
        resolve_hecate_root(Some(""), "/repo").unwrap_err(),
        ResolveHecateRootError::NotConfigured
    ));
}

#[test]
fn configured_root_joins_relative_only() {
    assert_eq!(configured_root_path("/abs", "/repo"), "/abs");
    assert_eq!(configured_root_path("rel/x", "/repo"), "/repo/rel/x");
    assert_eq!(absolute_norm("/x/y", "/cwd"), "/x/y");
    assert_eq!(absolute_norm("y", "/cwd"), "/cwd/y");
}

#[test]
fn empty_config_when_no_files() {
    let c = load_merged(None, None, None);
    assert!(c.hecate_root.is_none());
}

#[test]
fn user_layer_sets_hecate_root() {
    let c = load_merged(layer("/from/user"), None, None);
    assert_eq!(c.hecate_root.as_deref(), Some("/from/user"));
}

#[test]
fn repo_layer_overrides_user_layer() {
    let c = load_merged(layer("/from/user"), layer("/from/repo"), None);
    assert_eq!(c.hecate_root.as_deref(), Some("/from/repo"));
    let c = load_merged(layer("/from/user"), Some(FileConfig::default()), None);
    assert_eq!(c.hecate_root.as_deref(), Some("/from/user"));
}

#[test]
fn env_overrides_layers() {
    let c = load_merged(
        layer("/from/user"),
        layer("/from/repo"),
        Some("/from/env".to_string()),
    );
    assert_eq!(c.hecate_root.as_deref(), Some("/from/env"));
}

#[test]
fn merge_keeps_earlier_value_when_later_is_unset() {
    let mut a = FileConfig {
        hecate_root: Some("/a".into()),
    };
    a.merge(FileConfig::default());
    assert_eq!(a.hecate_root.as_deref(), Some("/a"));
    a.merge(FileConfig {
        hecate_root: Some("/b".into()),
    });
    assert_eq!(a.hecate_root.as_deref(), Some("/b"));
}

#[test]
fn config_file_locations() {
    let opts = LoadOptions {
        config_home_override: Some("/home/me/.config".into()),
        ..Default::default()
    };
    assert_eq!(
        user_config_path(&opts).unwrap(),
        "/home/me/.config/hecate/config.toml"
    );
    assert_eq!(repo_config_path("/src/repo"), "/src/repo/.hecate/config.toml");
    match user_config_path(&LoadOptions::default()) {
        Ok(p) => assert!(p.ends_with("hecate/config.toml")),
        Err(e) => assert!(matches!(e, ConfigError::NoUserConfigDir)),
    }
}

#[test]
fn absolute_root_is_kept_whatever_the_repo_root() {
    assert_eq!(resolve_hecate_root(Some("/var/hecate"), "/repo").unwrap(), "/var/hecate");
    assert_eq!(resolve_hecate_root(Some("/var/hecate"), "rel").unwrap(), "/var/hecate");
    assert_eq!(
        resolve_hecate_root(Some(".hecate-parking"), "/repo").unwrap(),
        "/repo/.hecate-parking"
    );
}

#[test]
fn relative_root_below_relative_repo_ends_with_joined_components() {
    let p = resolve_hecate_root(Some("./parking"), "rel/repo").unwrap();
    assert!(Path::new(&p).is_absolute());
    assert!(Path::new(&p).ends_with("rel/repo/parking"));
}

#[test]
fn absolute_norm_relative_ends_with_joined_components() {
    let p = absolute_norm("./y/z", "");
    assert!(Path::new(&p).is_absolute());
    assert!(Path::new(&p).ends_with("y/z"));
}
