use sha2::Digest;
use hecate::metadata::{
    default_version, metadata_path, MetadataError, MetadataFile, WorktreeRecord,
    METADATA_VERSION,
};
use hecate::repo_segment::{
    choose_repo_segment, clone_identity_key, identity_key_of, pick_repo_segment,
    segment_dir_used_by_other_clones,
};

fn record(name: &str, path: &str) -> WorktreeRecord {
    WorktreeRecord {
        name: name.into(),
        path: path.into(),
        branch: "b".into(),
        base_branch: "main".into(),
        task: None,
        created_at: "2026-01-01T00:00:00Z".into(),
        updated_at: None,
        session: None,
    }
}

#[test]
fn write_rejects_bad_version() {
    let bad = MetadataFile::new(2);
    let err = bad.check_version().unwrap_err();
    assert!(matches!(err, MetadataError::UnsupportedVersion { found: 2 }));
}

#[test]
fn default_metadata_is_current_and_empty() {
    let m = MetadataFile::default();
    assert_eq!(m.version(), METADATA_VERSION);
    assert_eq!(default_version(), 1);
    assert!(m.is_empty());
    assert!(m.check_version().is_ok());
    assert_eq!(metadata_path("/data/root"), "/data/root/metadata.json");
}

#[test]
fn add_then_remove_restores_registry() {
    let mut m = MetadataFile::default();
    m.add_record("/k".into(), record("a", "/r/a"));
    m.add_record("/k".into(), record("b", "/r/b"));
    assert_eq!(m.worktree_count("/k"), 2);
    assert_eq!(m.worktree_count("/other"), 0);
    let removed = m.remove_record("/k", 1);
    assert_eq!(removed.name, "b");
    assert_eq!(m.records_for("/k").unwrap()[0].name, "a");
    let removed = m.remove_record("/k", 0);
    assert_eq!(removed.name, "a");
    assert!(m.records_for("/k").is_none());
    assert!(m.is_empty());
}

#[test]
fn set_records_replaces() {
    let mut m = MetadataFile::default();
    m.set_records("/k".into(), vec![record("a", "/r/a")]);
    m.set_records("/k".into(), vec![]);
    assert_eq!(m.entries().len(), 1);
    assert_eq!(m.worktree_count("/k"), 0);
}

fn meta_with(key: &str, path: &str) -> MetadataFile {
    let mut m = MetadataFile::default();
    m.add_record(key.into(), record("w", path));
    m
}

#[test]
fn default_segment_when_no_collision() {
    let meta = MetadataFile::default();
    let id = clone_identity_key("/home/me/hecate", None);
    let seg =
        choose_repo_segment("/home/me/hecate", "/data/hroot", &meta, "/home/me/hecate", &id)
            .unwrap();
    assert_eq!(seg, "hecate");
}

#[test]
fn disambiguates_when_other_clone_uses_segment() {
    let hecate_root = "/data/hroot";
    let meta = meta_with("/other/clone/hecate", "/data/hroot/hecate/wt1");
    let my_key = "/home/me/hecate";
    let id = clone_identity_key(my_key, None);
    let seg = choose_repo_segment(my_key, hecate_root, &meta, my_key, &id).unwrap();
    assert!(seg.starts_with("hecate-"));
    assert!(seg.len() > "hecate".len());
}

#[test]
fn own_clone_does_not_force_disambiguation() {
    let hecate_root = "/data/hroot";
    let my_key = "/home/me/hecate";
    let meta = meta_with(my_key, "/data/hroot/hecate/wt1");
    let id = clone_identity_key(my_key, None);
    let seg = choose_repo_segment(my_key, hecate_root, &meta, my_key, &id).unwrap();
    assert_eq!(seg, "hecate");
}

#[test]
fn hashed_suffix_is_sha256_prefix() {
    let meta = meta_with("/other", "/data/hroot/hecate");
    let id = "/home/me/hecate";
    let seg = choose_repo_segment("/home/me/hecate", "/data/hroot", &meta, "/mine", id).unwrap();
    let hex = format!("{:x}", sha2::Sha256::digest(id.as_bytes()));
    assert_eq!(seg, format!("hecate-{}", &hex[..8]));
}

#[test]
fn hashed_suffix_grows_until_free() {
    let mut meta = MetadataFile::default();
    meta.add_record("/other".into(), record("w", "/root/x"));
    meta.add_record("/other".into(), record("w2", "/root/x-0123"));
    let seg = pick_repo_segment("x", "0123456789abcdef", "/root", &meta, "/mine").unwrap();
    assert_eq!(seg, "x-01234567");
    meta.add_record("/other".into(), record("w3", "/root/x-01234567/deep"));
    let seg = pick_repo_segment("x", "0123456789abcdef", "/root", &meta, "/mine").unwrap();
    assert_eq!(seg, "x-0123456789ab");
    meta.add_record("/other".into(), record("w4", "/root/x-0123456789ab"));
    let seg = pick_repo_segment("x", "0123456789abcdef", "/root", &meta, "/mine").unwrap();
    assert_eq!(seg, "x-0123456789abcdef");
    meta.add_record("/other".into(), record("w5", "/root/x-0123456789abcdef"));
    assert_eq!(
        pick_repo_segment("x", "0123456789abcdef", "/root", &meta, "/mine"),
        Err(hecate::paths::PathError::SegmentAllocationExhausted)
    );
}

#[test]
fn segment_use_is_by_components() {
    let meta = meta_with("/other", "/root//seg/./wt");
    assert!(segment_dir_used_by_other_clones(&meta, "/root", "seg", "/mine"));
    assert!(!segment_dir_used_by_other_clones(&meta, "/root", "se", "/mine"));
    assert!(!segment_dir_used_by_other_clones(&meta, "/root", "seg", "/other"));
}

#[test]
fn identity_key_uses_forward_slashes() {
    assert_eq!(identity_key_of("C:\\src\\repo"), "C:/src/repo");
    assert_eq!(
        clone_identity_key("/ignored", Some("D:\\x\\y")),
        "D:/x/y"
    );
    assert_eq!(clone_identity_key("/abs/path", None), "/abs/path");
}

#[test]
fn hashed_segment_has_lower_hex_suffix() {
    let meta = meta_with("/other", "/data/hroot/hecate");
    let seg = choose_repo_segment("/home/me/hecate", "/data/hroot", &meta, "/mine", "k").unwrap();
    let tail = seg.strip_prefix("hecate-").unwrap();
    assert!(tail.len() >= 8 && tail.len() <= 64);
    assert!(tail.chars().all(|c| c.is_ascii_digit() || ('a'..='f').contains(&c)));
}
