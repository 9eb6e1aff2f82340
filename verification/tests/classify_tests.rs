use dx_forge::classify::{is_temp_path, is_trackable, should_track};

#[test]
fn ignores_git_directory_unix_style() {
    assert!(!is_trackable("/repo/.git/config"));
}

#[test]
fn ignores_git_directory_windows_style() {
    assert!(!is_trackable("C:\\repo\\.git\\config"));
}

#[test]
fn ignores_target_directory() {
    assert!(!is_trackable("/repo/target/debug/app"));
}

#[test]
fn ignores_dx_directory() {
    assert!(!is_trackable("/repo/.dx/forge/forge.db"));
}

#[test]
fn ignores_dx_client_directory() {
    assert!(!is_trackable("/repo/.dx_client/forge/forge.db"));
}

#[test]
fn tracks_regular_source_file() {
    assert!(is_trackable("/repo/src/main.rs"));
}

#[test]
fn tracks_nested_source_file() {
    assert!(is_trackable("C:\\repo\\src\\lib.rs"));
}

#[test]
fn ignore_compares_whole_components_only() {
    // a component merely containing a reserved name stays trackable
    assert!(is_trackable("/repo/src/target_api/lib.rs"));
    assert!(is_trackable("/repo/gitlab/readme.md"));
    // case-insensitive on all platforms
    assert!(!is_trackable("/repo/TARGET/debug/app"));
    assert!(!should_track("/repo/Node_Modules/pkg/index.js"));
}

#[test]
fn temp_patterns_match_known_editor_artifacts() {
    assert!(is_temp_path("a.txt.tmp"));
    assert!(is_temp_path("notes.TXT.TEMP"));
    assert!(is_temp_path("/dir/file.swp"));
    assert!(is_temp_path("/dir/file.swx"));
    assert!(is_temp_path("backup.bak"));
    assert!(is_temp_path("backup.bk"));
    assert!(is_temp_path("file~"));
    assert!(is_temp_path("~lock"));
    assert!(is_temp_path(".#emacs-lock"));
    assert!(is_temp_path(".~office-lock"));
    assert!(is_temp_path(".tmpXYZ"));
    assert!(is_temp_path("/x/.goutputstream-ABC"));
    assert!(!is_temp_path("/repo/src/main.rs"));
    assert!(!is_temp_path("template.rs"));
}
