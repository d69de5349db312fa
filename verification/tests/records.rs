use wadpunk::api::{CreateSourcePortInput, GameInput, PreviousFileStateItemInput, UpdateSourcePortInput};
use wadpunk::records::{
    default_game_meta, merge_game_input, previous_file_state_items, source_port_from_input,
    updated_source_port, DbGameMeta, DbPlaySession, DbPlaySessionEntry, DbPreviousFileStateItem,
    DbSourcePort,
};
use wadpunk::sessions::play_sessions_of;

fn stored_game() -> DbGameMeta {
    DbGameMeta {
        id: Some("doom2".to_string()),
        name: Some("Doom 2".to_string()),
        rating: Some(4),
        description: None,
        notes: Some("old notes".to_string()),
        tags: Some(vec!["iwad".to_string()]),
        iwad_id: None,
        source_port: Some("-1".to_string()),
        extra_mod_ids: None,
        previous_file_state: Some(vec![DbPreviousFileStateItem {
            is_enabled: true,
            relative: "doom2.wad".to_string(),
            absolute: "/abs/doom2.wad".to_string(),
        }]),
        use_custom_config: None,
        installed_at: Some("2024-01-01T00:00:00+00:00".to_string()),
    }
}

#[test]
fn presentation_game_resolves_every_missing_field() {
    let mut meta = stored_game();
    meta.rating = None;
    meta.notes = None;
    meta.tags = None;
    meta.installed_at = None;
    let game = meta.to_game();
    assert_eq!(game.id, "doom2");
    assert_eq!(game.name, "Doom 2");
    assert_eq!(game.rating, 0);
    assert_eq!(game.description, "");
    assert_eq!(game.notes, "");
    assert!(game.tags.is_empty());
    assert_eq!(game.iwad_id, Some("".to_string()));
    assert_eq!(game.source_port, Some("-1".to_string()));
    assert_eq!(game.extra_mod_ids, Some(vec![]));
    assert!(!game.use_custom_config);
    assert_eq!(game.installed_at, "1970-01-01T00:00:00+00:00");
}

#[test]
fn presentation_source_port_defaults_to_gzdoom() {
    let port = DbSourcePort {
        id: Some("p".to_string()),
        command: None,
        known_source_port_id: None,
        is_default: Some(true),
    };
    let presented = port.to_source_port();
    assert_eq!(presented.id, "p");
    assert!(presented.command.is_empty());
    assert_eq!(presented.known_source_port_id, "gzdoom");
    assert!(!presented.is_default);
}

#[test]
fn file_state_presentation_keeps_order() {
    let meta = stored_game();
    let items = previous_file_state_items(&meta);
    assert_eq!(items.len(), 1);
    assert_eq!(items[0].relative, "doom2.wad");
    assert_eq!(items[0].absolute, "/abs/doom2.wad");
    assert!(items[0].is_enabled);
}

#[test]
fn update_request_changes_only_what_it_names() {
    let meta = stored_game();
    let input = GameInput {
        id: "doom2".to_string(),
        rating: Some(1),
        description: None,
        notes: Some("new notes".to_string()),
        tags: None,
        source_port: None,
        iwad_id: Some("doom2".to_string()),
        extra_mod_ids: None,
        use_custom_config: Some(true),
        previous_file_state: Some(vec![
            PreviousFileStateItemInput {
                is_enabled: false,
                relative: "doom2.wad".to_string(),
                absolute: "/abs/doom2.wad".to_string(),
            },
            PreviousFileStateItemInput {
                is_enabled: true,
                relative: "new.wad".to_string(),
                absolute: "/abs/new.wad".to_string(),
            },
        ]),
    };
    let merged = merge_game_input(meta, input);
    assert_eq!(merged.id, Some("doom2".to_string()));
    assert_eq!(merged.rating, Some(1));
    assert_eq!(merged.notes, Some("new notes".to_string()));
    assert_eq!(merged.tags, Some(vec!["iwad".to_string()]));
    assert_eq!(merged.source_port, Some("-1".to_string()));
    assert_eq!(merged.iwad_id, Some("doom2".to_string()));
    assert_eq!(merged.use_custom_config, Some(true));
    assert_eq!(merged.installed_at, Some("2024-01-01T00:00:00+00:00".to_string()));
    let state = merged.previous_file_state.unwrap();
    assert_eq!(state.len(), 2);
    assert!(!state[0].is_enabled);
    assert_eq!(state[1].relative, "new.wad");
}

#[test]
fn created_and_updated_source_port_records() {
    let created = source_port_from_input(CreateSourcePortInput {
        id: "gz".to_string(),
        command: vec!["/opt/gz".to_string()],
        known_source_port_id: "gzdoom".to_string(),
        is_default: Some(true),
    });
    assert_eq!(created.id, Some("gz".to_string()));
    assert_eq!(created.command, Some(vec!["/opt/gz".to_string()]));
    assert_eq!(created.known_source_port_id, Some("gzdoom".to_string()));
    assert_eq!(created.is_default, Some(true));

    let updated = updated_source_port(created, UpdateSourcePortInput {
        id: "gz".to_string(),
        command: vec!["/opt/gz2".to_string(), "-w".to_string()],
        known_source_port_id: "woof".to_string(),
        is_default: None,
    });
    assert_eq!(updated.id, Some("gz".to_string()));
    assert_eq!(updated.command, Some(vec!["/opt/gz2".to_string(), "-w".to_string()]));
    assert_eq!(updated.known_source_port_id, Some("woof".to_string()));
    assert_eq!(updated.is_default, None);
}

#[test]
fn freshly_seen_game_record() {
    let meta = default_game_meta("mygame/", "2024-06-01T12:00:00+00:00".to_string());
    assert_eq!(meta.id, Some("mygame/".to_string()));
    assert_eq!(meta.name, Some("mygame".to_string()));
    assert_eq!(meta.installed_at, Some("2024-06-01T12:00:00+00:00".to_string()));
    assert!(meta.rating.is_none());
    assert!(meta.previous_file_state.is_none());
}

#[test]
fn play_session_durations_in_seconds() {
    let list = DbPlaySession {
        sessions: Some(vec![
            DbPlaySessionEntry {
                started_at: Some("2024-01-01T00:00:00+00:00".to_string()),
                ended_at: Some("2024-01-01T01:01:05+00:00".to_string()),
            },
            DbPlaySessionEntry {
                started_at: Some("2024-01-02T00:00:00+00:00".to_string()),
                ended_at: None,
            },
            DbPlaySessionEntry {
                started_at: Some("not a timestamp".to_string()),
                ended_at: Some("2024-01-03T00:00:00+00:00".to_string()),
            },
        ]),
    };
    let sessions = play_sessions_of(&list);
    assert_eq!(sessions.len(), 1);
    assert_eq!(sessions[0].duration, 3665);
    assert_eq!(sessions[0].started_at, "2024-01-01T00:00:00+00:00");
    assert_eq!(sessions[0].ended_at, "2024-01-01T01:01:05+00:00");
}

#[test]
fn empty_play_session_store_presents_nothing() {
    let sessions = play_sessions_of(&DbPlaySession { sessions: None });
    assert!(sessions.is_empty());
}
