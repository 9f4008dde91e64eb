use nexus_mod_manager::cli_text::deleted_backup_message;
use nexus_mod_manager::game_profile::GameProfile;
use nexus_mod_manager::paths::{AppPath, PathBase};
use nexus_mod_manager::saves::{
    save_backup_dir, scan_saves, slot_access_failure, BackupEntry, SaveSlot,
};
use nexus_mod_manager::setup::headless_game_domain;
use nexus_mod_manager::shell::{is_openable_url, logs_dir_to_open, saves_dir_to_open};
use nexus_mod_manager::translate::{compat_cache_writes, saved_translation_entry};

fn cur(parts: &[&str]) -> AppPath {
    AppPath { base: PathBase::Current, parts: parts.iter().map(|s| s.to_string()).collect() }
}

#[test]
fn only_web_links_open_in_the_browser() {
    assert!(is_openable_url("https://www.nexusmods.com"));
    assert!(is_openable_url("http://example.com"));
    assert!(!is_openable_url("file:///etc/passwd"));
    assert!(!is_openable_url("javascript:alert(1)"));
}

#[test]
fn directories_to_open() {
    let appdata = cur(&["AppData"]);
    let sts = GameProfile::default_for("slaythespire2").unwrap();
    assert_eq!(logs_dir_to_open(&appdata, &sts).unwrap().parts, vec!["AppData", "SlayTheSpire2", "logs"]);
    assert_eq!(saves_dir_to_open(&appdata, &sts).unwrap().parts, vec!["AppData", "SlayTheSpire2"]);
    let sky = GameProfile::default_for("skyrimspecialedition").unwrap();
    assert!(logs_dir_to_open(&appdata, &sky).is_none());
}

#[test]
fn headless_game_choice() {
    let known = vec!["slaythespire2".to_string()];
    assert_eq!(headless_game_domain(&known, None, Some("slaythespire2".to_string())), Ok("slaythespire2".to_string()));
    assert_eq!(
        headless_game_domain(&known, None, Some("x".to_string())),
        Err("--game-domain `x` 不在 config.json 的 games 列表里；请先 `nmm games add` 或检查 CLI 端 --game flag".to_string())
    );
    assert_eq!(headless_game_domain(&known, Some("slaythespire2".to_string()), None), Ok("slaythespire2".to_string()));
    assert_eq!(
        headless_game_domain(&known, Some("gone".to_string()), None),
        Err("config.json 没有 current_game，且 --game-domain 也未指定".to_string())
    );
    assert!(headless_game_domain(&known, None, None).is_err());
}

#[test]
fn saved_translation_compat() {
    assert_eq!(saved_translation_entry(None, None), None);
    assert_eq!(
        saved_translation_entry(Some("名".to_string()), None),
        Some((Some("名".to_string()), None))
    );
    let writes = compat_cache_writes(
        Some("名".to_string()),
        Some("述".to_string()),
        Some("Name".to_string()),
        None,
    );
    assert_eq!(writes, vec![("Name".to_string(), "名".to_string())]);
}

#[test]
fn slot_access() {
    assert_eq!(slot_access_failure(false, true).unwrap().error.as_deref(), Some("未找到游戏存档目录"));
    assert_eq!(slot_access_failure(true, false).unwrap().error.as_deref(), Some("该存档槽位为空"));
    assert!(slot_access_failure(true, true).is_none());
    assert_eq!(deleted_backup_message("a.zip"), "已删除备份: a.zip");
}

#[test]
fn backups_live_per_game() {
    let d = save_backup_dir("eldenring");
    assert_eq!(d.parts, vec!["NexusModManager", "save_backups", "eldenring"]);
    assert_ne!(save_backup_dir("a").parts, save_backup_dir("b").parts);
}

#[test]
fn scanning_without_a_user_directory_finds_nothing() {
    let b = BackupEntry { name: "a.zip".to_string(), path: "/a".to_string(), size: 1, time: String::new() };
    let r = scan_saves(false, vec![], vec![b.clone()]);
    assert!(r.slots.is_empty() && r.backups.is_empty());
    let s = SaveSlot {
        slot: "profile1".to_string(),
        modded: false,
        path: String::new(),
        has_progress: false,
        has_prefs: false,
        empty: true,
        last_modified: None,
        size: 0,
        summary: None,
    };
    let r2 = scan_saves(true, vec![None, Some(s)], vec![b, BackupEntry { name: "z.txt".to_string(), path: "/z".to_string(), size: 1, time: String::new() }]);
    assert_eq!(r2.slots.len(), 1);
    assert_eq!(r2.backups.len(), 1);
}
