use nexus_mod_manager::cli_text::{
    api_key_line, find_backup, format_mod_detail, format_mod_list, game_entry, games_listing,
    mods_listing, mods_to_list, new_api_key, outcome_to_result, saves_disabled_message,
    saves_listing, search_text, transfer_message, visible_api_key, InstalledMod, ModRow,
    NexusModInfo,
};
use nexus_mod_manager::saves::{BackupEntry, SaveSlot, SavesResult, SimpleResult};

fn info(id: u64, name: &str) -> NexusModInfo {
    NexusModInfo {
        mod_id: id,
        name: name.to_string(),
        summary: String::new(),
        endorsement_count: 5,
        mod_downloads: 100,
        mod_unique_downloads: 80,
        version: "1.0".to_string(),
        author: "Ann".to_string(),
        status: "published".to_string(),
        available: true,
        ..Default::default()
    }
}

fn rule() -> String {
    "-".repeat(80)
}

#[test]
fn empty_mod_list() {
    assert_eq!(format_mod_list("Trending mods", &vec![]), "Trending mods: (空)");
}

#[test]
fn mod_list_table() {
    let text = format_mod_list("Trending mods", &vec![info(7, "Alpha"), info(12345, "Beta")]);
    let expected = format!(
        "Trending mods（共 2 个）\n{:<10} {:<12} {:<12} {}\n{}\n{:<10} {:<12} {:<12} {}\n{:<10} {:<12} {:<12} {}",
        "modId", "endorsements", "downloads", "name", rule(), 7, 5, 100, "Alpha", 12345, 5, 100, "Beta"
    );
    assert_eq!(text, expected);
}

#[test]
fn mod_detail_text() {
    let m = info(7, "Alpha");
    assert_eq!(
        format_mod_detail(&m),
        "Mod #7: Alpha\n作者: Ann\n版本: 1.0\n赞同: 5\n下载: 100（独立 80）\n状态: published (available: true)"
    );
    let mut s = info(8, "Beta");
    s.summary = "Nice mod".to_string();
    s.available = false;
    assert_eq!(
        format_mod_detail(&s),
        "Mod #8: Beta\n作者: Ann\n版本: 1.0\n赞同: 5\n下载: 100（独立 80）\n状态: published (available: false)\n\n摘要:\nNice mod"
    );
}

#[test]
fn search_reports() {
    let m = info(7, "Alpha");
    assert_eq!(
        search_text("alp", &Some(m.clone())),
        format!("查询 `alp` 命中 mod_id=7 Alpha\n{}", format_mod_detail(&m))
    );
    assert_eq!(search_text("zzz", &None), "未找到与 `zzz` 匹配的 mod");
}

#[test]
fn games_table() {
    let current = Some("slaythespire2".to_string());
    let games = vec![
        game_entry("slaythespire2".to_string(), "Slay the Spire 2".to_string(), Some("D:\\STS2".to_string()), &current),
        game_entry("eldenring".to_string(), "Elden Ring".to_string(), None, &current),
    ];
    assert!(games[0].current);
    assert!(!games[1].current);
    let text = games_listing(&current, &games);
    let expected = format!(
        "当前游戏: slaythespire2\n{:<20} {:<24} {}\n{}\n* {:<18} {:<24} {}\n  {:<18} {:<24} {}",
        "domain", "name", "gamePath", rule(), "slaythespire2", "Slay the Spire 2", "D:\\STS2",
        "eldenring", "Elden Ring", "(未设置)"
    );
    assert_eq!(text, expected);
    assert!(games_listing(&None, &vec![]).starts_with("当前游戏: (未设置)\n"));
}

#[test]
fn mods_filter_and_table() {
    let mods = vec![
        InstalledMod { name: Some("Nice".to_string()), folder_name: "nice".to_string(), enabled: true, size: 10, is_folder: true },
        InstalledMod { name: None, folder_name: "raw.pck".to_string(), enabled: false, size: 20, is_folder: false },
    ];
    let all = mods_to_list(&mods, false, false);
    assert_eq!(all.len(), 2);
    assert_eq!(all[1].name, "raw.pck");
    let on = mods_to_list(&mods, true, false);
    assert_eq!(on.len(), 1);
    assert_eq!(on[0].name, "Nice");
    let off = mods_to_list(&mods, false, true);
    assert_eq!(off.len(), 1);
    assert!(!off[0].enabled);
    let rows = vec![
        ModRow { name: "Nice".to_string(), enabled: true, size_text: "10 B".to_string() },
        ModRow { name: "raw.pck".to_string(), enabled: false, size_text: "1.5 KB".to_string() },
    ];
    let expected = format!(
        "mods 目录: /g/mods\n共 2 个 mod\n{:<8} {:<12} {}\n{}\n{:<8} {:<12} {}\n{:<8} {:<12} {}",
        "enabled", "size", "name", rule(), "✓", "10 B", "Nice", "✗", "1.5 KB", "raw.pck"
    );
    assert_eq!(mods_listing("/g/mods", &rows), expected);
}

fn slot(name: &str, modded: bool, empty: bool, lm: Option<&str>) -> SaveSlot {
    SaveSlot {
        slot: name.to_string(),
        modded,
        path: String::new(),
        has_progress: !empty,
        has_prefs: false,
        empty,
        last_modified: lm.map(|s| s.to_string()),
        size: 2048,
        summary: None,
    }
}

fn backup(name: &str) -> BackupEntry {
    BackupEntry { name: name.to_string(), path: format!("/b/{}", name), size: 99, time: "T".to_string() }
}

#[test]
fn saves_table() {
    let r = SavesResult {
        slots: vec![slot("profile1", false, false, Some("2024")), slot("profile1", true, true, None)],
        backups: vec![backup("a.zip")],
    };
    let expected = format!(
        "存档槽位（共 2 个）\n{:<22} {:<8} {:<10} {}\n{}\n{:<22} {:<8} {:<10} {}\n{:<22} {:<8} {:<10} {}\n\n备份（共 1 个）\n  a.zip (99 bytes, T)",
        "saveId", "empty", "size", "lastModified", rule(), "profile1", "✗", 2048, "2024",
        "modded:profile1", "✓", 2048, "-"
    );
    assert_eq!(saves_listing(&r), expected);
}

#[test]
fn backup_lookup() {
    let backups = vec![backup("a.zip"), backup("b.zip")];
    assert_eq!(find_backup(&backups, "b.zip"), Ok(1));
    assert_eq!(
        find_backup(&backups, "c.zip"),
        Err("未找到 backup id `c.zip`\n可用 backup id：\n  a.zip\n  b.zip".to_string())
    );
    assert_eq!(find_backup(&vec![], "c.zip"), Err("未找到 backup id `c.zip`".to_string()));
}

#[test]
fn command_reports() {
    assert_eq!(outcome_to_result(SimpleResult::ok(), "x"), Ok(()));
    assert_eq!(outcome_to_result(SimpleResult::failed("disk".to_string()), "x"), Err("disk".to_string()));
    assert_eq!(
        outcome_to_result(SimpleResult::cancelled(), "export 失败但未返回原因"),
        Err("export 失败但未返回原因".to_string())
    );
    assert_eq!(saves_disabled_message("eldenring"), "当前游戏 eldenring 未启用存档管理（saves_enabled = false）");
    assert_eq!(transfer_message("已导出", "profile1", "/tmp/a.zip"), "已导出 profile1 → /tmp/a.zip");
}

#[test]
fn api_key_handling() {
    assert_eq!(visible_api_key(Some(" key ".to_string())).as_deref(), Some(" key "));
    assert_eq!(visible_api_key(Some("   ".to_string())), None);
    assert_eq!(api_key_line(&Some("abc".to_string())), "Nexus API Key: abc");
    assert_eq!(api_key_line(&None), "Nexus API Key: (未设置)");
    assert_eq!(new_api_key("  abc "), Ok("abc".to_string()));
    assert_eq!(new_api_key("   "), Err("API key 不能为空".to_string()));
}
