use mirin::classify::classify;
use mirin::classify::event_relevant;
use mirin::classify::seed_of_paths;
use mirin::classify::FsEventKind;
use mirin::ids::module_id;
use mirin::ids::normalize_name;

fn comps(parts: &[&str]) -> Vec<String> {
    parts.iter().map(|p| p.to_string()).collect()
}

#[test]
fn classifies_source_file_to_module_id() {
    let root = comps(&["home", "ws"]);
    let path = comps(&["home", "ws", "beacon_dao-foo", "src", "lib.rs"]);
    assert_eq!(classify(&path, &root), Some("foo".to_string()));
}

#[test]
fn classifies_nested_source_file() {
    let root = comps(&["home", "ws"]);
    let path = comps(&["home", "ws", "beacon_dao-foo", "src", "sub", "mod.rs"]);
    assert_eq!(classify(&path, &root), Some("foo".to_string()));
}

#[test]
fn rejects_build_output_path() {
    let root = comps(&["home", "ws"]);
    let path = comps(&["home", "ws", "beacon_dao-foo", "target", "out.wasm"]);
    assert_eq!(classify(&path, &root), None);
}

#[test]
fn rejects_path_outside_root() {
    let root = comps(&["home", "ws"]);
    let path = comps(&["tmp", "beacon_dao-foo", "src", "lib.rs"]);
    assert_eq!(classify(&path, &root), None);
}

#[test]
fn rejects_directory_without_workspace_prefix() {
    let root = comps(&["home", "ws"]);
    let path = comps(&["home", "ws", "plain", "src", "x.rs"]);
    assert_eq!(classify(&path, &root), None);
}

#[test]
fn rejects_src_directory_itself() {
    let root = comps(&["home", "ws"]);
    let path = comps(&["home", "ws", "beacon_dao-foo", "src"]);
    assert_eq!(classify(&path, &root), None);
}

#[test]
fn rejects_root_itself() {
    let root = comps(&["home", "ws"]);
    assert_eq!(classify(&root, &root), None);
}

#[test]
fn normalizes_names_to_suffix_after_last_separator() {
    assert_eq!(normalize_name(&"beacon_dao-foo".to_string()), "foo");
    assert_eq!(normalize_name(&"foo".to_string()), "foo");
    assert_eq!(normalize_name(&"a-b-c".to_string()), "c");
    assert_eq!(normalize_name(&"trailing-".to_string()), "");
}

#[test]
fn module_id_requires_workspace_prefix() {
    assert_eq!(module_id(&"beacon_dao-foo".to_string()), Some("foo".to_string()));
    assert_eq!(module_id(&"beacon_dao-a-b".to_string()), Some("b".to_string()));
    assert_eq!(module_id(&"other-foo".to_string()), None);
    assert_eq!(module_id(&"src".to_string()), None);
}

#[test]
fn metadata_only_modification_is_filtered_out() {
    assert!(!event_relevant(&FsEventKind::ModifyMetadata));
}

#[test]
fn creation_removal_and_data_changes_are_relevant() {
    assert!(event_relevant(&FsEventKind::Create));
    assert!(event_relevant(&FsEventKind::Remove));
    assert!(event_relevant(&FsEventKind::ModifyData));
    assert!(!event_relevant(&FsEventKind::ModifyName));
    assert!(!event_relevant(&FsEventKind::Other));
}

#[test]
fn batch_with_two_paths_of_one_module_seeds_it_once() {
    let root = comps(&["home", "ws"]);
    let paths = vec![
        comps(&["home", "ws", "beacon_dao-foo", "src", "lib.rs"]),
        comps(&["home", "ws", "beacon_dao-foo", "src", "util.rs"]),
    ];
    let seed = seed_of_paths(&paths, &root);
    assert_eq!(seed, vec!["foo".to_string()]);
}

#[test]
fn batch_mixes_classifiable_and_unclassifiable_paths() {
    let root = comps(&["home", "ws"]);
    let paths = vec![
        comps(&["home", "ws", "beacon_dao-foo", "target", "junk"]),
        comps(&["home", "ws", "beacon_dao-bar", "src", "lib.rs"]),
        comps(&["home", "ws", "README.md"]),
    ];
    let seed = seed_of_paths(&paths, &root);
    assert_eq!(seed, vec!["bar".to_string()]);
}

#[test]
fn batch_with_nothing_usable_yields_empty_seed() {
    let root = comps(&["home", "ws"]);
    let paths = vec![comps(&["home", "ws", "beacon_dao-foo", "target", "out.wasm"])];
    let seed = seed_of_paths(&paths, &root);
    assert!(seed.is_empty());
}
