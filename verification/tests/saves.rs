use nexus_mod_manager::paths::{AppPath, PathBase};
use nexus_mod_manager::saves::{
    auto_backup_name, backup_time_text, char_name, character_stat, collect_slots,
    export_file_name, first_user_dir, import_target, make_save_slot, no_saves,
    numbered_file_name, order_backups, parse_save_id, save_id_of, slot_dir, slot_modified_text,
    slots_to_scan, source_slot, strip_bom, summarize_progress, top_folders, unique_backup_path,
    BackupEntry, CharacterFields, ProgressFields, SaveExportOpts, SimpleResult,
};

fn opts(slot: &str, modded: bool) -> SaveExportOpts {
    SaveExportOpts { slot: slot.to_string(), modded }
}

fn backup(name: &str) -> BackupEntry {
    BackupEntry { name: name.to_string(), path: format!("/b/{}", name), size: 1, time: String::new() }
}

#[test]
fn save_ids_round_trip() {
    let p = parse_save_id("modded:profile2");
    assert!(p.modded);
    assert_eq!(p.slot, "profile2");
    assert_eq!(save_id_of(&p), "modded:profile2");
    let q = parse_save_id("profile1");
    assert!(!q.modded);
    assert_eq!(q.slot, "profile1");
    assert_eq!(save_id_of(&q), "profile1");
}

#[test]
fn character_names() {
    assert_eq!(char_name("CHARACTER.IRONCLAD"), "铁甲战士");
    assert_eq!(char_name("CHARACTER.WATCHER"), "观察者");
    assert_eq!(char_name("CHARACTER.NEWHERO"), "NEWHERO");
    assert_eq!(char_name("plain"), "plain");
}

#[test]
fn idle_characters_are_dropped() {
    assert!(character_stat("CHARACTER.SILENT".to_string(), 0, 0, 1, 2, 3).is_none());
    let c = character_stat("CHARACTER.SILENT".to_string(), 2, 0, 1, 50, 3).unwrap();
    assert_eq!(c.name, "沉默猎手");
    assert_eq!(c.wins, 2);
    assert_eq!(c.best_streak, 3);
}

#[test]
fn byte_order_mark_is_removed() {
    assert_eq!(strip_bom("\u{feff}{}"), "{}");
    assert_eq!(strip_bom("{}"), "{}");
}

#[test]
fn progress_summary_from_fields() {
    let ch = |id: Option<&str>, w: u64, l: u64| CharacterFields {
        id: id.map(|s| s.to_string()),
        total_wins: Some(w),
        total_losses: Some(l),
        max_ascension: Some(4),
        playtime: None,
        best_win_streak: Some(2),
    };
    let fields = ProgressFields {
        total_playtime: Some(3600),
        floors_climbed: None,
        current_score: Some(99),
        total_unlocks: Some(7),
        discovered_cards: Some(12),
        discovered_relics: None,
        epochs: Some(3),
        character_stats: Some(vec![
            ch(Some("CHARACTER.IRONCLAD"), 1, 2),
            ch(Some("CHARACTER.DEFECT"), 0, 0),
            ch(None, 5, 5),
        ]),
        unique_id: Some("abc".to_string()),
    };
    let s = summarize_progress(&fields);
    assert_eq!(s.total_playtime, 3600);
    assert_eq!(s.floors_climbed, 0);
    assert_eq!(s.current_score, 99);
    assert_eq!(s.total_unlocks, 7);
    assert_eq!(s.discovered_cards, 12);
    assert_eq!(s.discovered_relics, 0);
    assert_eq!(s.epochs, 3);
    assert_eq!(s.unique_id, "abc");
    assert_eq!(s.characters.len(), 1);
    assert_eq!(s.characters[0].name, "铁甲战士");
    assert_eq!(s.characters[0].losses, 2);
    assert_eq!(s.characters[0].playtime, 0);
    assert_eq!(s.characters[0].max_ascension, 4);
}

#[test]
fn empty_progress_fields_give_zeros() {
    let fields = ProgressFields {
        total_playtime: None,
        floors_climbed: None,
        current_score: None,
        total_unlocks: None,
        discovered_cards: None,
        discovered_relics: None,
        epochs: None,
        character_stats: None,
        unique_id: None,
    };
    let s = summarize_progress(&fields);
    assert_eq!(s.total_playtime, 0);
    assert!(s.characters.is_empty());
    assert_eq!(s.unique_id, "");
}

#[test]
fn slots_are_scanned_in_order() {
    let v: Vec<(String, bool)> = slots_to_scan().into_iter().map(|o| (o.slot, o.modded)).collect();
    assert_eq!(
        v,
        vec![
            ("profile1".to_string(), false),
            ("profile1".to_string(), true),
            ("profile2".to_string(), false),
            ("profile2".to_string(), true),
            ("profile3".to_string(), false),
            ("profile3".to_string(), true),
        ]
    );
}

#[test]
fn modded_slots_live_under_modded() {
    let user = AppPath { base: PathBase::Current, parts: vec!["steam".to_string(), "123".to_string()] };
    assert_eq!(slot_dir(&user, &opts("profile1", true)).parts, vec!["steam", "123", "modded", "profile1"]);
    assert_eq!(slot_dir(&user, &opts("profile2", false)).parts, vec!["steam", "123", "profile2"]);
}

#[test]
fn slot_records() {
    let s = make_save_slot(opts("profile1", false), "/p".to_string(), false, false, 0, "t".to_string(), 10, None);
    assert!(s.empty);
    assert!(s.last_modified.is_none());
    let t = make_save_slot(opts("profile1", true), "/p".to_string(), true, false, 5, "t".to_string(), 10, None);
    assert!(!t.empty);
    assert_eq!(t.last_modified.as_deref(), Some("t"));
    let all = collect_slots(vec![None, Some(t.clone()), None, Some(s)]);
    assert_eq!(all.len(), 2);
    assert!(all[0].modded);
    assert!(no_saves().slots.is_empty());
}

#[test]
fn modification_texts() {
    assert!(slot_modified_text(0).is_none());
    assert!(slot_modified_text(1_700_000_000_000).is_some());
    assert_eq!(backup_time_text(None), "");
    assert!(!backup_time_text(Some(1_700_000_000)).is_empty());
}

#[test]
fn steam_user_dir_is_all_digits() {
    let names = vec!["config".to_string(), "7656119".to_string(), "42".to_string()];
    assert_eq!(first_user_dir(&names), Some(1));
    assert_eq!(first_user_dir(&vec!["abc".to_string()]), None);
}

#[test]
fn backup_file_names() {
    assert_eq!(auto_backup_name(&opts("profile1", true), "2024"), "auto_backup_profile1_modded_2024.zip");
    assert_eq!(export_file_name(&opts("profile2", false), "T1"), "Save_profile2_T1.zip");
    assert_eq!(numbered_file_name("save", "zip", 3), "save_3.zip");
    assert_eq!(numbered_file_name("save", "", 3), "save_3");
}

#[test]
fn backups_are_zip_files_newest_name_first() {
    let ordered = order_backups(vec![backup("a.zip"), backup("notes.txt"), backup("c.zip"), backup("b.zip")]);
    let names: Vec<&str> = ordered.iter().map(|b| b.name.as_str()).collect();
    assert_eq!(names, vec!["c.zip", "b.zip", "a.zip"]);
}

#[test]
fn archive_layout() {
    let names = vec![
        "_meta.json".to_string(),
        "profile2/".to_string(),
        "profile2/saves/progress.save".to_string(),
        "profile2/replays/r1".to_string(),
    ];
    let folders = top_folders(&names);
    assert_eq!(folders, vec!["_meta.json", "profile2"]);
    assert_eq!(source_slot(&folders), "profile2");
    assert_eq!(source_slot(&vec!["x".to_string()]), "x");
    assert_eq!(import_target("profile2/saves/progress.save", false, "profile2").as_deref(), Some("saves/progress.save"));
    assert_eq!(import_target("_meta.json", false, "profile2"), None);
    assert_eq!(import_target("profile2/", true, "profile2"), None);
    assert_eq!(import_target("loose.txt", false, "profile2").as_deref(), Some("loose.txt"));
}

#[test]
fn unique_backup_path_in_a_fresh_directory() {
    let dir = AppPath { base: PathBase::Current, parts: vec!["no-such-dir-for-tests-7f3a".to_string()] };
    let p = unique_backup_path(&dir, "auto.zip").unwrap();
    assert_eq!(p.parts, vec!["no-such-dir-for-tests-7f3a", "auto.zip"]);
}

#[test]
fn simple_results() {
    assert!(SimpleResult::ok().success);
    let f = SimpleResult::failed("bad".to_string());
    assert!(!f.success);
    assert_eq!(f.error.as_deref(), Some("bad"));
    assert!(SimpleResult::cancelled().error.is_none());
}
