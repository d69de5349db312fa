use wadpunk::ports::{
    find_known_source_port_from_id, get_all_known_source_ports, BuildCommandArgs,
    DbKnownSourcePort,
};

fn args(
    executable: &str,
    iwad: &str,
    files: Vec<String>,
    use_custom_config: bool,
    game_id: &str,
    meta_directory: &str,
) -> BuildCommandArgs {
    BuildCommandArgs {
        executable: executable.to_string(),
        iwad: iwad.to_string(),
        files,
        use_custom_config,
        game_id: game_id.to_string(),
        meta_directory: meta_directory.to_string(),
    }
}

#[test]
fn registry_is_fixed_and_ordered() {
    let all = get_all_known_source_ports();
    let ids: Vec<String> = all.iter().map(|p| p.id()).collect();
    assert_eq!(ids, vec!["gzdoom", "eternity", "chocolate-doom", "dsda", "woof"]);
    let names: Vec<String> = all.iter().map(|p| p.name()).collect();
    assert_eq!(
        names,
        vec!["GZDoom", "Eternity Engine", "Chocolate Doom", "DSDA", "Woof"]
    );
}

#[test]
fn every_profile_supports_config_and_save_dir() {
    for port in get_all_known_source_ports() {
        assert!(port.supports_custom_config());
        assert!(port.supports_save_dir());
        assert!(!port.home_page_url().is_empty());
        assert!(!port.download_page_url().is_empty());
    }
}

#[test]
fn unknown_id_falls_back_to_gzdoom() {
    assert_eq!(
        find_known_source_port_from_id("nonexistent-id"),
        DbKnownSourcePort::GZDoom
    );
}

#[test]
fn known_ids_resolve_to_their_profile() {
    assert_eq!(find_known_source_port_from_id("gzdoom"), DbKnownSourcePort::GZDoom);
    assert_eq!(find_known_source_port_from_id("eternity"), DbKnownSourcePort::EternityEngine);
    assert_eq!(
        find_known_source_port_from_id("chocolate-doom"),
        DbKnownSourcePort::ChocolateDoom
    );
    assert_eq!(find_known_source_port_from_id("dsda"), DbKnownSourcePort::DSDA);
    assert_eq!(find_known_source_port_from_id("woof"), DbKnownSourcePort::Woof);
}

#[test]
fn build_command_keeps_fixed_order_for_every_variant() {
    for port in get_all_known_source_ports() {
        let cmd = port.build_command(&args(
            "/bin/engine",
            "/abs/doom.wad",
            vec!["/abs/mod.wad".to_string(), "/abs/fix.deh".to_string()],
            true,
            "doom",
            "/meta",
        ));
        assert_eq!(cmd[0], "/bin/engine");
        let config_at = cmd.iter().position(|a| a == "-config").unwrap();
        let save_flag = if matches!(
            port,
            DbKnownSourcePort::GZDoom | DbKnownSourcePort::ChocolateDoom
        ) {
            "-savedir"
        } else {
            "-save"
        };
        let save_at = cmd.iter().position(|a| a == save_flag).unwrap();
        let iwad_at = cmd.iter().position(|a| a == "-iwad").unwrap();
        let first_file_at = cmd.iter().position(|a| a == "/abs/mod.wad").unwrap();
        assert!(config_at < save_at);
        assert!(save_at < iwad_at);
        assert!(iwad_at < first_file_at);
    }
}

#[test]
fn gzdoom_command_exact() {
    let port = DbKnownSourcePort::GZDoom;
    let cmd = port.build_command(&args(
        "/opt/gzdoom",
        "/abs/doom2.wad",
        vec!["/abs/brutal.deh".to_string(), "/abs/more.wad".to_string()],
        true,
        "doom2",
        "/meta",
    ));
    assert_eq!(
        cmd,
        vec![
            "/opt/gzdoom",
            "-config",
            "/meta/doom2/config.ini",
            "-savedir",
            "/meta/doom2/saves",
            "-iwad",
            "/abs/doom2.wad",
            "-deh",
            "/abs/brutal.deh",
            "-file",
            "/abs/more.wad",
        ]
    );
}

#[test]
fn no_custom_config_omits_config_flag() {
    let port = DbKnownSourcePort::Woof;
    let cmd = port.build_command(&args("w", "i.wad", vec![], false, "g", "/m"));
    assert_eq!(cmd, vec!["w", "-save", "/m/g/saves", "-iwad", "i.wad"]);
}

#[test]
fn directory_backed_game_id_is_normalized_in_paths() {
    let port = DbKnownSourcePort::GZDoom;
    let cmd = port.build_command(&args("g", "i.wad", vec![], true, "mygame/", "/m"));
    assert_eq!(cmd[2], "/m/mygame/config.ini");
    assert_eq!(cmd[4], "/m/mygame/saves");
}

#[test]
fn dehacked_extensions_use_dehacked_flag_in_any_case() {
    for port in get_all_known_source_ports() {
        assert_eq!(port.file_flag_for_extension("a.deh"), "-deh");
        assert_eq!(port.file_flag_for_extension("a.DEH"), "-deh");
        assert_eq!(port.file_flag_for_extension("a.bex"), "-deh");
        assert_eq!(port.file_flag_for_extension("a.BeX"), "-deh");
    }
}

#[test]
fn default_file_flag_varies_by_family() {
    assert_eq!(DbKnownSourcePort::GZDoom.file_flag_for_extension("a.wad"), "-file");
    assert_eq!(DbKnownSourcePort::EternityEngine.file_flag_for_extension("a.wad"), "-file");
    assert_eq!(DbKnownSourcePort::ChocolateDoom.file_flag_for_extension("a.wad"), "-merge");
    assert_eq!(DbKnownSourcePort::DSDA.file_flag_for_extension("noextension"), "-file");
    assert_eq!(DbKnownSourcePort::Woof.file_flag_for_extension("a.wad"), "-file");
}

#[test]
fn chocolate_doom_merges_ordinary_files() {
    let port = DbKnownSourcePort::ChocolateDoom;
    let cmd = port.build_command(&args(
        "c",
        "i.wad",
        vec!["/abs/x.wad".to_string()],
        false,
        "g",
        "/m",
    ));
    assert_eq!(cmd, vec!["c", "-savedir", "/m/g/saves", "-iwad", "i.wad", "-merge", "/abs/x.wad"]);
}

#[test]
fn example_command_in_presentation_record() {
    let known = DbKnownSourcePort::GZDoom.to_known_source_port("/meta");
    assert_eq!(known.id, "gzdoom");
    assert_eq!(known.name, "GZDoom");
    assert!(known.supports_custom_config);
    assert!(known.supports_save_dir);
    assert_eq!(
        known.example_command,
        vec![
            "gzdoom",
            "-config",
            "/meta/doom2/config.ini",
            "-savedir",
            "/meta/doom2/saves",
            "-iwad",
            "doom2.iwad",
            "-file",
            "example.wad",
        ]
    );
}
