use wadpunk::files::{
    add_exe_on_windows, game_id_for_entry, is_archive_path, source_port_id_from_file_name,
    strip_path_prefix,
};
use wadpunk::paths::{
    get_games_directory, get_meta_directory, get_source_ports_directory, join_path,
    meta_file_path, normalize_name_from_id, normalized_meta_file_path, play_sessions_path,
    source_port_file_path, DataSource,
};

#[test]
fn directory_layout_under_the_data_directory() {
    assert_eq!(get_games_directory("/data"), "/data/Games");
    assert_eq!(get_source_ports_directory("/data"), "/data/SourcePorts");
    assert_eq!(get_meta_directory("/data"), "/data/Meta");
}

#[test]
fn grouped_layout_matches_the_free_functions() {
    assert_eq!(DataSource::get_games_directory("/d"), "/d/Games");
    assert_eq!(DataSource::get_source_ports_directory("/d"), "/d/SourcePorts");
    assert_eq!(DataSource::get_meta_directory("/d"), "/d/Meta");
}

#[test]
fn normalization_strips_one_trailing_separator() {
    assert_eq!(normalize_name_from_id("mygame/"), "mygame");
    assert_eq!(normalize_name_from_id("mygame"), "mygame");
    assert_eq!(normalize_name_from_id("a/b/"), "a/b");
    assert_eq!(normalize_name_from_id(""), "");
}

#[test]
fn record_file_paths() {
    assert_eq!(join_path("/a", "b"), "/a/b");
    assert_eq!(join_path("/a/", "b"), "/a/b");
    assert_eq!(meta_file_path("/m", "g/"), "/m/g/meta.json");
    assert_eq!(normalized_meta_file_path("/m", "g/"), "/m/g/meta.json");
    assert_eq!(play_sessions_path("/m", "g"), "/m/g/playSessions.json");
    assert_eq!(source_port_file_path("/p", "gz"), "/p/gz.json");
}

#[test]
fn games_directory_entries() {
    assert_eq!(game_id_for_entry("doom2", false), Some("doom2".to_string()));
    assert_eq!(game_id_for_entry("mygame", true), Some("mygame/".to_string()));
    assert_eq!(game_id_for_entry(".DS_Store", false), None);
}

#[test]
fn source_port_directory_entries() {
    assert_eq!(source_port_id_from_file_name("gz.json"), Some("gz".to_string()));
    assert_eq!(source_port_id_from_file_name(".hidden.json"), None);
    assert_eq!(source_port_id_from_file_name("notes.txt"), None);
    assert_eq!(source_port_id_from_file_name("a.JSON"), None);
}

#[test]
fn relative_paths_under_the_games_directory() {
    assert_eq!(
        strip_path_prefix("/data/Games/doom2/doom2.wad", "/data/Games"),
        Some("doom2/doom2.wad".to_string())
    );
    assert_eq!(strip_path_prefix("/elsewhere/doom2.wad", "/data/Games"), None);
}

#[test]
fn archive_extensions_in_any_case() {
    assert!(is_archive_path("pack.zip"));
    assert!(is_archive_path("PACK.ZIP"));
    assert!(is_archive_path("a.7z"));
    assert!(is_archive_path("a.rar"));
    assert!(is_archive_path("a.tar.gz"));
    assert!(is_archive_path("a.bz2"));
    assert!(is_archive_path("a.xz"));
    assert!(is_archive_path("a.ZsT"));
    assert!(!is_archive_path("doom2.wad"));
    assert!(!is_archive_path("gzip"));
}

#[test]
fn helper_executable_name_per_platform() {
    assert_eq!(add_exe_on_windows("7za", true), "7za.exe");
    assert_eq!(add_exe_on_windows("7za", false), "7za");
}
