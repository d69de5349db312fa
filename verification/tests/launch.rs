use wadpunk::launch::{
    assemble_command, bundle_manifest_path, plan_launch, resolve_executable, select_source_port,
    LaunchError,
};
use wadpunk::records::{
    append_play_session, close_play_session, open_play_session, DbGameMeta, DbPlaySession,
    DbPreviousFileStateItem, DbSourcePort,
};

fn port(id: &str, command: Vec<&str>, known: Option<&str>, is_default: Option<bool>) -> DbSourcePort {
    DbSourcePort {
        id: Some(id.to_string()),
        command: Some(command.into_iter().map(|s| s.to_string()).collect()),
        known_source_port_id: known.map(|s| s.to_string()),
        is_default,
    }
}

fn file(relative: &str, absolute: &str, enabled: bool) -> DbPreviousFileStateItem {
    DbPreviousFileStateItem {
        is_enabled: enabled,
        relative: relative.to_string(),
        absolute: absolute.to_string(),
    }
}

fn bare_game(id: &str) -> DbGameMeta {
    DbGameMeta {
        id: Some(id.to_string()),
        name: Some(id.to_string()),
        rating: None,
        description: None,
        notes: None,
        tags: None,
        iwad_id: None,
        source_port: None,
        extra_mod_ids: None,
        previous_file_state: None,
        use_custom_config: None,
        installed_at: None,
    }
}

#[test]
fn default_sentinel_without_default_flag_picks_first() {
    let ports = vec![
        port("a", vec!["/bin/a"], None, None),
        port("b", vec!["/bin/b"], None, Some(false)),
    ];
    let picked = select_source_port(&Some("-1".to_string()), "g", &ports).unwrap();
    assert_eq!(picked.id, Some("a".to_string()));
    // The same input always selects the same entry.
    let again = select_source_port(&Some("-1".to_string()), "g", &ports).unwrap();
    assert_eq!(again.id, Some("a".to_string()));
}

#[test]
fn default_sentinel_prefers_flagged_default() {
    let ports = vec![
        port("a", vec!["/bin/a"], None, None),
        port("b", vec!["/bin/b"], None, Some(true)),
        port("c", vec!["/bin/c"], None, Some(true)),
    ];
    let picked = select_source_port(&Some("-1".to_string()), "g", &ports).unwrap();
    assert_eq!(picked.id, Some("b".to_string()));
}

#[test]
fn default_sentinel_with_no_ports_fails() {
    let ports: Vec<DbSourcePort> = vec![];
    let err = select_source_port(&Some("-1".to_string()), "g", &ports).unwrap_err();
    assert!(matches!(err, LaunchError::NoSourcePortsConfigured));
    assert_eq!(err.message(), "No source ports configured");
}

#[test]
fn named_port_is_looked_up() {
    let ports = vec![
        port("a", vec!["/bin/a"], None, None),
        port("b", vec!["/bin/b"], None, None),
    ];
    let picked = select_source_port(&Some("b".to_string()), "g", &ports).unwrap();
    assert_eq!(picked.id, Some("b".to_string()));
}

#[test]
fn missing_named_port_fails() {
    let ports = vec![port("a", vec!["/bin/a"], None, None)];
    let err = select_source_port(&Some("zzz".to_string()), "g", &ports).unwrap_err();
    assert!(matches!(err, LaunchError::SourcePortNotFound { .. }));
    assert_eq!(err.message(), "source port zzz not found");
}

#[test]
fn game_without_source_port_reference_fails() {
    let ports = vec![port("a", vec!["/bin/a"], None, None)];
    let err = select_source_port(&None, "mygame", &ports).unwrap_err();
    assert_eq!(err.message(), "game mygame has no source port configured");
}

#[test]
fn missing_game_fails_with_not_found() {
    let err = plan_launch("ghost", &None, &vec![]).unwrap_err();
    assert!(matches!(err, LaunchError::GameNotFound { .. }));
    assert_eq!(err.message(), "game ghost not found");
}

#[test]
fn iwad_tagged_game_with_no_enabled_files_fails() {
    let mut game = bare_game("doom");
    game.tags = Some(vec!["IWAD".to_string()]);
    game.source_port = Some("a".to_string());
    game.previous_file_state = Some(vec![
        file("doom.wad", "/abs/doom.wad", false),
        file("extra.wad", "/abs/extra.wad", false),
    ]);
    let ports = vec![port("a", vec!["/bin/a"], None, None)];
    let err = plan_launch("doom", &Some(game), &ports).unwrap_err();
    assert!(matches!(err, LaunchError::NoEnabledIwadFiles { .. }));
    assert_eq!(err.message(), "game doom has no enabled IWAD files");
}

#[test]
fn untagged_game_without_iwad_reference_fails() {
    let mut game = bare_game("pwad");
    game.source_port = Some("a".to_string());
    game.previous_file_state = Some(vec![file("pwad.wad", "/abs/pwad.wad", true)]);
    let ports = vec![port("a", vec!["/bin/a"], None, None)];
    let err = plan_launch("pwad", &Some(game), &ports).unwrap_err();
    assert!(matches!(err, LaunchError::NoIwadConfigured { .. }));
    assert_eq!(err.message(), "game pwad has no IWAD configured");
}

#[test]
fn port_without_command_fails() {
    let mut game = bare_game("doom");
    game.tags = Some(vec!["iwad".to_string()]);
    game.source_port = Some("a".to_string());
    game.previous_file_state = Some(vec![file("doom.wad", "/abs/doom.wad", true)]);
    let mut broken = port("a", vec![], None, None);
    broken.command = None;
    let err = plan_launch("doom", &Some(game), &vec![broken]).unwrap_err();
    assert!(matches!(err, LaunchError::SourcePortHasNoCommand { .. }));
    assert_eq!(err.message(), "source port a has no command configured");
}

#[test]
fn full_launch_of_custom_config_game() {
    let mut game = bare_game("doom2");
    game.use_custom_config = Some(true);
    game.tags = Some(vec!["iwad".to_string()]);
    game.source_port = Some("gz".to_string());
    game.previous_file_state = Some(vec![
        file("doom2.wad", "/abs/doom2.wad", true),
        file("brutal.deh", "/abs/brutal.deh", true),
    ]);
    let ports = vec![port("gz", vec!["/opt/gz", "-fullscreen"], Some("gzdoom"), None)];
    let plan = plan_launch("doom2", &Some(game), &ports).unwrap();
    assert_eq!(plan.executable, "/opt/gz");
    assert_eq!(plan.base_args, vec!["-fullscreen"]);
    assert_eq!(plan.iwad, "/abs/doom2.wad");
    // The enabled IWAD entry stays in the general file list too.
    assert_eq!(plan.files, vec!["/abs/doom2.wad", "/abs/brutal.deh"]);
    let cmd = assemble_command(&plan, "/opt/gz", "/meta");
    assert_eq!(
        cmd,
        vec![
            "/opt/gz",
            "-fullscreen",
            "-config",
            "/meta/doom2/config.ini",
            "-savedir",
            "/meta/doom2/saves",
            "-iwad",
            "/abs/doom2.wad",
            "-file",
            "/abs/doom2.wad",
            "-deh",
            "/abs/brutal.deh",
        ]
    );
}

#[test]
fn first_enabled_matching_file_is_the_iwad() {
    let mut game = bare_game("doom2");
    game.iwad_id = Some("doom2".to_string());
    game.source_port = Some("a".to_string());
    game.previous_file_state = Some(vec![
        file("doom2-old.wad", "/abs/old.wad", false),
        file("doom2.wad", "/abs/new.wad", true),
        file("doom2-extra.wad", "/abs/extra.wad", true),
    ]);
    let ports = vec![port("a", vec!["/bin/a"], None, None)];
    let plan = plan_launch("doom2", &Some(game), &ports).unwrap();
    assert_eq!(plan.iwad, "/abs/new.wad");
    assert_eq!(plan.files, vec!["/abs/new.wad", "/abs/extra.wad"]);
}

#[test]
fn unknown_engine_reference_builds_with_gzdoom_conventions() {
    let mut game = bare_game("doom");
    game.tags = Some(vec!["iwad".to_string()]);
    game.source_port = Some("p".to_string());
    game.previous_file_state = Some(vec![file("doom.wad", "/abs/doom.wad", true)]);
    let ports = vec![port("p", vec!["/bin/engine"], Some("unknown-engine"), None)];
    let plan = plan_launch("doom", &Some(game), &ports).unwrap();
    assert_eq!(plan.known_source_port_id, "unknown-engine");
    let cmd = assemble_command(&plan, "/bin/engine", "/meta");
    assert_eq!(
        cmd,
        vec![
            "/bin/engine",
            "-savedir",
            "/meta/doom/saves",
            "-iwad",
            "/abs/doom.wad",
            "-file",
            "/abs/doom.wad",
        ]
    );
}

#[test]
fn session_is_recorded_with_both_timestamps_even_after_failure() {
    // A child process that exits with a non-zero status still gets its
    // session recorded; the launch merely reports `false`.
    let exit_success = false;
    let mut entry = open_play_session("2024-05-01T10:00:00+00:00".to_string());
    assert_eq!(entry.started_at, Some("2024-05-01T10:00:00+00:00".to_string()));
    assert_eq!(entry.ended_at, None);
    close_play_session(&mut entry, "2024-05-01T11:30:00+00:00".to_string());
    assert_eq!(entry.ended_at, Some("2024-05-01T11:30:00+00:00".to_string()));
    let all = append_play_session(DbPlaySession { sessions: None }, entry);
    let sessions = all.sessions.unwrap();
    assert_eq!(sessions.len(), 1);
    assert!(sessions[0].started_at.is_some());
    assert!(sessions[0].ended_at.is_some());
    assert!(!exit_success);
}

#[test]
fn bundle_manifest_path_is_under_contents() {
    assert_eq!(
        bundle_manifest_path("/Applications/GZDoom.app"),
        "/Applications/GZDoom.app/Contents/Info.plist"
    );
}

#[test]
fn executable_without_manifest_is_unchanged() {
    let r = resolve_executable("/opt/gzdoom", &None).unwrap();
    assert_eq!(r, "/opt/gzdoom");
}

#[test]
fn bundle_manifest_rewrites_the_executable() {
    let manifest = b"<?xml version=\"1.0\" encoding=\"UTF-8\"?>\n\
<!DOCTYPE plist PUBLIC \"-//Apple//DTD PLIST 1.0//EN\" \"http://www.apple.com/DTDs/PropertyList-1.0.dtd\">\n\
<plist version=\"1.0\">\n\
<dict>\n\
    <key>CFBundleExecutable</key>\n\
    <string>gzdoom</string>\n\
</dict>\n\
</plist>\n"
        .to_vec();
    let r = resolve_executable("/Applications/GZDoom.app", &Some(manifest)).unwrap();
    assert_eq!(r, "/Applications/GZDoom.app/Contents/MacOS/gzdoom");
}

#[test]
fn unreadable_bundle_manifest_is_a_resolution_failure() {
    let garbage = b"not a property list at all".to_vec();
    let err = resolve_executable("/Applications/Bad.app", &Some(garbage)).unwrap_err();
    assert!(matches!(err, LaunchError::BundleResolutionFailed { .. }));
    assert_eq!(
        err.message(),
        "could not read the bundle manifest of /Applications/Bad.app"
    );
}
