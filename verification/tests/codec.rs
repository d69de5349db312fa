use wadpunk::codec::{
    encode_game_meta, encode_play_session, encode_source_port, find_game_by_id,
    load_game_meta_from_json, parse_game_meta, parse_play_session, parse_source_port,
};
use wadpunk::records::{
    DbGameMeta, DbPlaySession, DbPlaySessionEntry, DbPreviousFileStateItem, DbSourcePort,
};

fn sample_game() -> DbGameMeta {
    DbGameMeta {
        id: Some("doom2".to_string()),
        name: Some("Doom 2".to_string()),
        rating: Some(-3),
        description: Some("say \"hi\"".to_string()),
        notes: Some("back\\slash".to_string()),
        tags: Some(vec!["iwad".to_string(), "classic".to_string()]),
        iwad_id: None,
        source_port: Some("-1".to_string()),
        extra_mod_ids: Some(vec![]),
        previous_file_state: Some(vec![
            DbPreviousFileStateItem {
                is_enabled: true,
                relative: "doom2.wad".to_string(),
                absolute: "/abs/doom2.wad".to_string(),
            },
            DbPreviousFileStateItem {
                is_enabled: false,
                relative: "b.wad".to_string(),
                absolute: "/abs/b.wad".to_string(),
            },
            DbPreviousFileStateItem {
                is_enabled: true,
                relative: "a.deh".to_string(),
                absolute: "/abs/a.deh".to_string(),
            },
        ]),
        use_custom_config: Some(true),
        installed_at: Some("2024-01-01T00:00:00+00:00".to_string()),
    }
}

#[test]
fn game_record_round_trip_preserves_every_field() {
    let game = sample_game();
    let text = encode_game_meta(&game);
    let back = parse_game_meta(text.as_str()).unwrap();
    assert_eq!(back.id, game.id);
    assert_eq!(back.name, game.name);
    assert_eq!(back.rating, game.rating);
    assert_eq!(back.description, game.description);
    assert_eq!(back.notes, game.notes);
    assert_eq!(back.tags, game.tags);
    assert_eq!(back.iwad_id, game.iwad_id);
    assert_eq!(back.source_port, game.source_port);
    assert_eq!(back.extra_mod_ids, game.extra_mod_ids);
    assert_eq!(back.use_custom_config, game.use_custom_config);
    assert_eq!(back.installed_at, game.installed_at);
}

#[test]
fn round_trip_preserves_file_state_order_exactly() {
    let game = sample_game();
    let text = encode_game_meta(&game);
    let back = parse_game_meta(text.as_str()).unwrap();
    let state = back.previous_file_state.unwrap();
    let stored = game.previous_file_state.unwrap();
    assert_eq!(state.len(), stored.len());
    for i in 0..state.len() {
        assert_eq!(state[i].is_enabled, stored[i].is_enabled);
        assert_eq!(state[i].relative, stored[i].relative);
        assert_eq!(state[i].absolute, stored[i].absolute);
    }
    assert_eq!(state[0].relative, "doom2.wad");
    assert_eq!(state[1].relative, "b.wad");
    assert_eq!(state[2].relative, "a.deh");
}

#[test]
fn empty_object_reads_as_all_missing() {
    let back = parse_game_meta("{}").unwrap();
    assert!(back.id.is_none());
    assert!(back.name.is_none());
    assert!(back.rating.is_none());
    assert!(back.previous_file_state.is_none());
}

#[test]
fn empty_record_text_is_exact() {
    let game = DbGameMeta {
        id: None,
        name: None,
        rating: None,
        description: None,
        notes: None,
        tags: None,
        iwad_id: None,
        source_port: None,
        extra_mod_ids: None,
        previous_file_state: None,
        use_custom_config: None,
        installed_at: None,
    };
    assert_eq!(
        encode_game_meta(&game),
        "{\"id\":null,\"name\":null,\"rating\":null,\"description\":null,\"notes\":null,\
\"tags\":null,\"iwad_id\":null,\"source_port\":null,\"extra_mod_ids\":null,\
\"previous_file_state\":null,\"use_custom_config\":null,\"installed_at\":null}"
    );
}

#[test]
fn malformed_texts_are_rejected() {
    assert!(parse_game_meta("").is_none());
    assert!(parse_game_meta("{").is_none());
    assert!(parse_game_meta("{\"id\":42}").is_none());
    assert!(parse_game_meta("[]").is_none());
    let game = sample_game();
    let mut text = encode_game_meta(&game);
    text.push('x');
    assert!(parse_game_meta(text.as_str()).is_none());
}

#[test]
fn rating_out_of_range_is_rejected() {
    let text = "{\"id\":null,\"name\":null,\"rating\":99999999999999999999,\"description\":null,\
\"notes\":null,\"tags\":null,\"iwad_id\":null,\"source_port\":null,\"extra_mod_ids\":null,\
\"previous_file_state\":null,\"use_custom_config\":null,\"installed_at\":null}";
    assert!(parse_game_meta(text).is_none());
}

#[test]
fn extreme_ratings_round_trip() {
    let mut game = sample_game();
    game.rating = Some(i32::MAX);
    let back = parse_game_meta(encode_game_meta(&game).as_str()).unwrap();
    assert_eq!(back.rating, Some(i32::MAX));
    game.rating = Some(i32::MIN);
    let back = parse_game_meta(encode_game_meta(&game).as_str()).unwrap();
    assert_eq!(back.rating, Some(i32::MIN));
    game.rating = Some(0);
    let back = parse_game_meta(encode_game_meta(&game).as_str()).unwrap();
    assert_eq!(back.rating, Some(0));
}

#[test]
fn source_port_record_round_trip() {
    let port = DbSourcePort {
        id: Some("gz".to_string()),
        command: Some(vec!["/opt/gz".to_string(), "-fullscreen".to_string()]),
        known_source_port_id: Some("gzdoom".to_string()),
        is_default: Some(true),
    };
    let text = encode_source_port(&port);
    assert_eq!(
        text,
        "{\"id\":\"gz\",\"command\":[\"/opt/gz\",\"-fullscreen\"],\
\"known_source_port_id\":\"gzdoom\",\"is_default\":true}"
    );
    let back = parse_source_port(text.as_str()).unwrap();
    assert_eq!(back.id, port.id);
    assert_eq!(back.command, port.command);
    assert_eq!(back.known_source_port_id, port.known_source_port_id);
    assert_eq!(back.is_default, port.is_default);
}

#[test]
fn play_session_round_trip_keeps_entry_order() {
    let list = DbPlaySession {
        sessions: Some(vec![
            DbPlaySessionEntry {
                started_at: Some("2024-01-01T10:00:00+00:00".to_string()),
                ended_at: Some("2024-01-01T11:00:00+00:00".to_string()),
            },
            DbPlaySessionEntry {
                started_at: Some("2024-02-01T10:00:00+00:00".to_string()),
                ended_at: None,
            },
        ]),
    };
    let text = encode_play_session(&list);
    let back = parse_play_session(text.as_str()).unwrap();
    let sessions = back.sessions.unwrap();
    assert_eq!(sessions.len(), 2);
    assert_eq!(sessions[0].started_at, Some("2024-01-01T10:00:00+00:00".to_string()));
    assert_eq!(sessions[0].ended_at, Some("2024-01-01T11:00:00+00:00".to_string()));
    assert_eq!(sessions[1].started_at, Some("2024-02-01T10:00:00+00:00".to_string()));
    assert_eq!(sessions[1].ended_at, None);
}

#[test]
fn empty_play_session_file_reads_as_missing_list() {
    let back = parse_play_session("{}").unwrap();
    assert!(back.sessions.is_none());
    assert_eq!(encode_play_session(&DbPlaySession { sessions: None }), "{\"sessions\":null}");
}

#[test]
fn quotes_and_backslashes_survive_the_trip() {
    let mut game = sample_game();
    game.notes = Some("a\"b\\c\"\"d".to_string());
    let back = parse_game_meta(encode_game_meta(&game).as_str()).unwrap();
    assert_eq!(back.notes, Some("a\"b\\c\"\"d".to_string()));
}

#[test]
fn loading_forces_the_requested_id() {
    let mut game = sample_game();
    game.id = Some("other".to_string());
    let text = encode_game_meta(&game);
    let loaded = load_game_meta_from_json("doom2", text.as_str()).unwrap();
    assert_eq!(loaded.id, Some("doom2".to_string()));
    assert_eq!(loaded.name, Some("Doom 2".to_string()));
}

#[test]
fn loading_defaults_a_missing_name_to_the_normalized_id() {
    let loaded = load_game_meta_from_json("mygame/", "{}").unwrap();
    assert_eq!(loaded.id, Some("mygame/".to_string()));
    assert_eq!(loaded.name, Some("mygame".to_string()));
}

#[test]
fn find_game_by_id_reads_the_stored_text() {
    let game = sample_game();
    let text = encode_game_meta(&game);
    let found = find_game_by_id("doom2", &Some(text)).unwrap();
    assert_eq!(found.id, Some("doom2".to_string()));
    assert!(find_game_by_id("doom2", &None).is_none());
}
