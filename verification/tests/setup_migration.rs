use nexus_mod_manager::migration::{
    is_db_file_name, migrated_config, migration_plan, normalize_optional_string,
    slay_the_spire_2_profile,
};
use nexus_mod_manager::paths::{AppPath, PathBase};
use nexus_mod_manager::setup::{detect_gui_running, game_for_command, require_write_access, write_access_for};

fn cur(parts: &[&str]) -> AppPath {
    AppPath { base: PathBase::Current, parts: parts.iter().map(|s| s.to_string()).collect() }
}

#[test]
fn write_commands_allowed_without_gui() {
    assert!(!detect_gui_running());
    assert_eq!(require_write_access(), Ok(()));
    assert_eq!(
        write_access_for(true),
        Err("Nexus Mod Manager GUI 正在运行，写命令被拒绝以避免 SQLite 并发冲突。\n请先关闭 GUI，或通过 GUI 完成此操作。".to_string())
    );
}

#[test]
fn game_override_must_be_configured() {
    let known = vec!["slaythespire2".to_string(), "eldenring".to_string()];
    assert_eq!(game_for_command(&known, Some("x".to_string()), None), Ok(Some("x".to_string())));
    assert_eq!(game_for_command(&known, None, Some("eldenring".to_string())), Ok(Some("eldenring".to_string())));
    assert_eq!(
        game_for_command(&known, None, Some("nope".to_string())),
        Err("未知游戏 domain: nope\n请先用 `nmm games add <domain> <path>` 配置该游戏".to_string())
    );
}

#[test]
fn optional_strings_are_trimmed() {
    assert_eq!(normalize_optional_string(Some("  C:\\Game ".to_string())).as_deref(), Some("C:\\Game"));
    assert_eq!(normalize_optional_string(Some("   ".to_string())), None);
    assert_eq!(normalize_optional_string(None), None);
}

#[test]
fn legacy_game_profile_exists() {
    let p = slay_the_spire_2_profile().unwrap();
    assert_eq!(p.nexus_domain, "slaythespire2");
    assert_eq!(p.steam_app_id, Some(2868840));
}

#[test]
fn legacy_configuration_is_carried_over() {
    let c = migrated_config(Some(" D:\\STS2 ".to_string()), Some("".to_string())).unwrap();
    assert_eq!(c.current_game, "slaythespire2");
    assert_eq!(c.nexus_api_key, None);
    assert_eq!(c.games.len(), 1);
    assert_eq!(c.games[0].0, "slaythespire2");
    assert_eq!(c.games[0].1.game_path.as_deref(), Some("D:\\STS2"));
    assert_eq!(c.games[0].1.profile.display_name, "Slay the Spire 2");
}

#[test]
fn database_files() {
    assert!(is_db_file_name("cache.db"));
    assert!(is_db_file_name("CACHE.DB"));
    assert!(!is_db_file_name("cache.db-wal"));
    assert!(!is_db_file_name("db"));
    assert!(!is_db_file_name(".db"));
}

#[test]
fn nothing_to_migrate_without_legacy_directories() {
    let plan = migration_plan(Some(cur(&["STS2ModManager"])), None, false, false, cur(&["NexusModManager"]), cur(&["NexusModManager"]));
    assert!(plan.is_empty());
}

#[test]
fn legacy_config_and_data_are_both_migrated() {
    let plan = migration_plan(
        Some(cur(&["cfg", "STS2ModManager"])),
        Some(cur(&["data", "STS2ModManager"])),
        true,
        false,
        cur(&["cfg", "NexusModManager"]),
        cur(&["data", "NexusModManager"]),
    );
    assert_eq!(plan.len(), 2);
    assert!(plan[0].include_config_files);
    assert_eq!(plan[0].destination.parts, vec!["cfg", "NexusModManager"]);
    assert!(!plan[1].include_config_files);
    assert_eq!(plan[1].source.as_ref().unwrap().parts, vec!["data", "STS2ModManager"]);
    assert_eq!(plan[1].destination.parts, vec!["data", "NexusModManager"]);
}

#[test]
fn shared_legacy_directory_is_migrated_once() {
    let plan = migration_plan(
        Some(cur(&["STS2ModManager"])),
        Some(cur(&["STS2ModManager"])),
        true,
        true,
        cur(&["NexusModManager"]),
        cur(&["NexusModManager"]),
    );
    assert_eq!(plan.len(), 1);
}

#[test]
fn same_current_directories_share_the_destination() {
    let plan = migration_plan(
        None,
        Some(cur(&["data", "STS2ModManager"])),
        false,
        true,
        cur(&["NexusModManager"]),
        cur(&["NexusModManager"]),
    );
    assert_eq!(plan.len(), 2);
    assert!(plan[0].source.is_none());
    assert_eq!(plan[1].destination.parts, vec!["NexusModManager"]);
}
