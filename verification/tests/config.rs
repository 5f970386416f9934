use flint::config::{bin_dir, conversation_path, data_dir, join, models_dir, opencode_dir, snapshot_root, state_path};

#[test]
fn every_location_is_under_the_data_dir() {
    let home = Some("/Users/ana");
    assert_eq!(data_dir(home), "/Users/ana/.flint");
    assert_eq!(models_dir(home), "/Users/ana/.flint/models");
    assert_eq!(bin_dir(home), "/Users/ana/.flint/bin");
    assert_eq!(opencode_dir(home), "/Users/ana/.flint/opencode");
    assert_eq!(conversation_path(home), "/Users/ana/.flint/chat/current.jsonl");
    assert_eq!(state_path(home), "/Users/ana/.flint/state.json");
    assert_eq!(snapshot_root(home), "/Users/ana/.flint/snapshots");
}

#[test]
fn data_dir_without_home_is_relative_to_cwd() {
    assert_eq!(data_dir(None), "./.flint");
    assert_eq!(data_dir(Some("/")), "/.flint");
    assert_eq!(data_dir(Some("")), ".flint");
}

#[test]
fn join_follows_pathbuf_push() {
    for (base, rel) in [("/a", "b"), ("/a/", "b"), ("", "b"), ("a", ""), ("/", "x/y")] {
        let expected = std::path::Path::new(base).join(rel).to_string_lossy().into_owned();
        assert_eq!(join(base, rel), expected, "{base:?} + {rel:?}");
    }
}
