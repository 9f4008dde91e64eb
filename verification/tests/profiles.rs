use nexus_mod_manager::profiles::{
    applied_message, legacy_profiles_candidates, profile_candidates_in, profile_name_for_save,
    profile_not_found_message, profiles_listing, profiles_path, saved_message, selected_domain,
    snapshot_of, toggle_failed_message, toggles_needed, ModState, ProfileSummary,
};
use nexus_mod_manager::paths::{AppPath, PathBase};

fn m(id: Option<&str>, folder: &str, enabled: bool) -> ModState {
    ModState { id: id.map(|s| s.to_string()), folder_name: folder.to_string(), enabled }
}

#[test]
fn profiles_file_per_game() {
    let p = profiles_path("eldenring");
    assert_eq!(p.parts, vec!["NexusModManager", "profiles_eldenring.json"]);
}

#[test]
fn legacy_profiles_only_for_the_first_game() {
    assert!(legacy_profiles_candidates("eldenring").is_empty());
    for c in legacy_profiles_candidates("slaythespire2") {
        assert_eq!(c.parts[1], "profiles.json");
    }
    let cur = AppPath { base: PathBase::Current, parts: vec!["NexusModManager".to_string()] };
    let old = AppPath { base: PathBase::Current, parts: vec!["STS2ModManager".to_string()] };
    let both = profile_candidates_in(Some(cur), Some(old));
    assert_eq!(both.len(), 2);
    assert_eq!(both[0].parts, vec!["NexusModManager", "profiles.json"]);
    assert_eq!(both[1].parts, vec!["STS2ModManager", "profiles.json"]);
    assert!(profile_candidates_in(None, None).is_empty());
}

#[test]
fn snapshot_records_each_key_once() {
    let mods = vec![m(Some("a"), "A", true), m(None, "B", false), m(Some("a"), "A2", false)];
    let snap = snapshot_of(&mods);
    assert_eq!(snap, vec![("a".to_string(), false), ("B".to_string(), false)]);
}

#[test]
fn applying_toggles_only_differing_mods() {
    let mods = vec![m(Some("a"), "A", true), m(None, "B", false), m(Some("c"), "C", true)];
    let snapshot = vec![("a".to_string(), false), ("B".to_string(), false), ("zzz".to_string(), true)];
    assert_eq!(toggles_needed(&mods, &snapshot), vec![0]);
}

#[test]
fn fresh_snapshot_needs_no_toggles() {
    let mods = vec![m(Some("a"), "A", true), m(None, "B", false), m(Some("c"), "C", true)];
    let snap = snapshot_of(&mods);
    assert!(toggles_needed(&mods, &snap).is_empty());
}

#[test]
fn applying_then_rechecking_needs_nothing() {
    let mut mods = vec![m(Some("a"), "A", true), m(None, "B", true), m(Some("c"), "C", false)];
    let snapshot = vec![("a".to_string(), false), ("B".to_string(), false), ("c".to_string(), true)];
    let t = toggles_needed(&mods, &snapshot);
    assert_eq!(t, vec![0, 1, 2]);
    for i in t {
        mods[i].enabled = !mods[i].enabled;
    }
    assert!(toggles_needed(&mods, &snapshot).is_empty());
}

#[test]
fn profile_messages() {
    assert_eq!(profile_name_for_save("  mine "), Ok("mine".to_string()));
    assert_eq!(profile_name_for_save("   "), Err("profile 名称不能为空".to_string()));
    assert_eq!(saved_message(3, "mine"), "已保存 3 个 mod 状态到档案 `mine`");
    assert_eq!(applied_message("mine", 2), "已应用档案 `mine`：切换了 2 个 mod 的状态");
    assert_eq!(toggle_failed_message("A", None), "toggle A 失败: 未知");
    assert_eq!(toggle_failed_message("A", Some("locked".to_string())), "toggle A 失败: locked");
    assert_eq!(
        profile_not_found_message("x", &vec!["a".to_string(), "b".to_string()]),
        "未找到档案 `x`\n可用档案：\n  a\n  b"
    );
    assert_eq!(profile_not_found_message("x", &vec![]), "未找到档案 `x`");
    assert_eq!(selected_domain(Some("d".to_string())), Ok("d".to_string()));
    assert_eq!(
        selected_domain(None),
        Err("尚未选择游戏，请用 `nmm games switch <domain>` 设置".to_string())
    );
}

#[test]
fn profiles_table() {
    assert_eq!(profiles_listing(&vec![]), "无配置档案。`nmm profiles save <name>` 保存当前 mod 状态为档案");
    let ps = vec![
        ProfileSummary { name: "coop".to_string(), mod_count: 3, saved_at: Some("2024-01-01T00:00:00Z".to_string()) },
        ProfileSummary { name: "solo".to_string(), mod_count: 0, saved_at: None },
    ];
    let expected = format!(
        "共 2 个配置档案\n{:<28} {:<10} {}\n{}\n{:<28} {:<10} {}\n{:<28} {:<10} {}",
        "name", "modCount", "savedAt", "-".repeat(80), "coop", 3, "2024-01-01T00:00:00Z", "solo", 0, "-"
    );
    assert_eq!(profiles_listing(&ps), expected);
}
