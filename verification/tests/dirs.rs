use phosyncra::dirs::{analysis_root, chip_tool_state_dir, join_path, token_file};

#[test]
fn analysis_cache_lives_under_xdg_cache_home() {
    assert_eq!(
        analysis_root(Some("/x/cache".into()), Some("/home/u".into())).as_deref(),
        Some("/x/cache/phosyncra/analysis")
    );
    assert_eq!(
        analysis_root(None, Some("/home/u".into())).as_deref(),
        Some("/home/u/.cache/phosyncra/analysis")
    );
    assert_eq!(analysis_root(None, None), None);
}

#[test]
fn state_files_live_under_xdg_state_home() {
    assert_eq!(
        token_file(Some("/x/state/".into()), None).as_deref(),
        Some("/x/state/phosyncra/spotify-token.json")
    );
    assert_eq!(
        token_file(None, Some("/home/u".into())).as_deref(),
        Some("/home/u/.local/state/phosyncra/spotify-token.json")
    );
    assert_eq!(
        chip_tool_state_dir(None, Some("/home/u".into())).as_deref(),
        Some("/home/u/.local/state/phosyncra/matter/chip-tool")
    );
    assert_eq!(chip_tool_state_dir(None, None), None);
}

#[test]
fn paths_join_with_one_separator() {
    assert_eq!(join_path("/a", "b"), "/a/b");
    assert_eq!(join_path("/a/", "b"), "/a/b");
    assert_eq!(join_path("", "b"), "b");
}
