use nexus_mod_manager::calendar::now_iso8601;
use nexus_mod_manager::download::{download_finished, FinishedStep};
use nexus_mod_manager::game::crash_log_to_read;
use nexus_mod_manager::headless::{child_args, child_outcome, parse_args, HeadlessResult};
use nexus_mod_manager::game_profile::GameProfile;
use nexus_mod_manager::paths::{search_step, AppPath, PathBase, SearchStep};
use nexus_mod_manager::profiles::{choose_profiles_source, profile_summaries, ProfilesSource};
use nexus_mod_manager::saves::{
    import_target, parse_progress_text, read_progress_fields, source_slot, steam_dir_under, top_folders,
    zip_entry_name,
};
use nexus_mod_manager::child_output::{classify_line, on_child_line, parse_event_line, JsonLine, ParsedLine};
use nexus_mod_manager::setup::switch_game_target;
use nexus_mod_manager::translate::{after_engine, read_mymemory_reply};

#[test]
fn search_takes_a_free_candidate() {
    assert!(matches!(search_step(0, false, 10), SearchStep::Take(0)));
    assert!(matches!(search_step(3, false, 10), SearchStep::Take(3)));
}

#[test]
fn search_moves_past_an_occupied_candidate() {
    assert!(matches!(search_step(0, true, 10), SearchStep::Next(1)));
    assert!(matches!(search_step(9, true, 10), SearchStep::Next(10)));
}

#[test]
fn search_gives_up_after_the_last_candidate() {
    assert!(matches!(search_step(10, true, 10), SearchStep::GiveUp));
}

#[test]
fn own_profiles_file_wins_when_it_is_json() {
    let own = Some("{\"a\":{}}".to_string());
    let legacy = vec![Some("{}".to_string())];
    assert!(matches!(choose_profiles_source(&own, &legacy), ProfilesSource::Own));
}

#[test]
fn first_json_legacy_file_is_carried_over() {
    let own = Some("not json".to_string());
    let legacy = vec![None, Some("{oops".to_string()), Some("{\"x\":1}".to_string()), Some("{}".to_string())];
    assert!(matches!(choose_profiles_source(&own, &legacy), ProfilesSource::Legacy(2)));
}

#[test]
fn no_profiles_anywhere_is_empty() {
    let legacy = vec![None, Some("[1,".to_string())];
    assert!(matches!(choose_profiles_source(&None, &legacy), ProfilesSource::Empty));
    assert!(matches!(choose_profiles_source(&None, &Vec::new()), ProfilesSource::Empty));
}

#[test]
fn progress_file_is_summarised() {
    let text = "\u{feff}{\"total_playtime\": 3600, \"floors_climbed\": 12, \"current_score\": 7, \
        \"discovered_cards\": [1, 2, 3], \"discovered_relics\": [], \"epochs\": [1], \
        \"unique_id\": \"abc\", \"character_stats\": [\
        {\"id\": \"CHARACTER.IRONCLAD\", \"total_wins\": 2, \"total_losses\": 1, \"max_ascension\": 4, \"playtime\": 100, \"best_win_streak\": 2},\
        {\"id\": \"CHARACTER.SILENT\", \"total_wins\": 0, \"total_losses\": 0},\
        {\"total_wins\": 5}]}";
    let s = parse_progress_text(text).expect("valid JSON gives a summary");
    assert_eq!(s.total_playtime, 3600);
    assert_eq!(s.floors_climbed, 12);
    assert_eq!(s.current_score, 7);
    assert_eq!(s.total_unlocks, 0);
    assert_eq!(s.discovered_cards, 3);
    assert_eq!(s.discovered_relics, 0);
    assert_eq!(s.epochs, 1);
    assert_eq!(s.unique_id, "abc");
    assert_eq!(s.characters.len(), 1);
    assert_eq!(s.characters[0].id, "CHARACTER.IRONCLAD");
    assert_eq!(s.characters[0].wins, 2);
    assert_eq!(s.characters[0].losses, 1);
    assert_eq!(s.characters[0].max_ascension, 4);
}

#[test]
fn progress_fields_of_other_kinds_are_absent() {
    let f = read_progress_fields("{\"total_playtime\": \"x\", \"epochs\": 3, \"unique_id\": 5}").unwrap();
    assert_eq!(f.total_playtime, None);
    assert_eq!(f.epochs, None);
    assert_eq!(f.unique_id, None);
    assert!(f.character_stats.is_none());
}

#[test]
fn progress_that_is_not_json_has_no_summary() {
    assert!(parse_progress_text("{broken").is_none());
    assert!(parse_progress_text("").is_none());
}

#[test]
fn child_arguments_read_back_as_the_download() {
    let mut args = vec!["nexus-mod-manager.exe".to_string()];
    args.extend(child_args(12345, Some(67890), "stalker2"));
    let o = parse_args(&args).unwrap();
    assert_eq!(o.mod_id, 12345);
    assert_eq!(o.file_id, Some(67890));
    assert_eq!(o.game_domain.as_deref(), Some("stalker2"));
    assert_eq!(
        child_args(7, None, "slaythespire2"),
        vec!["--headless-download", "7", "--game-domain", "slaythespire2"]
    );
}

#[test]
fn failed_child_reports_its_exit_code() {
    let e = child_outcome(false, Some(-3), None).unwrap_err();
    assert_eq!(e, "GUI 子进程下载失败，退出码 -3（stderr 见上方 GUI 内部日志）");
    let e = child_outcome(false, None, Some(HeadlessResult { mod_id: 1, file_id: None })).unwrap_err();
    assert_eq!(e, "GUI 子进程下载失败，退出码 <no exit code>（stderr 见上方 GUI 内部日志）");
}

#[test]
fn child_without_result_line_is_a_protocol_error() {
    let e = child_outcome(true, Some(0), None).unwrap_err();
    assert_eq!(e, "GUI 子进程退出码 0，但未输出 `type:\"result\"` 终结行（内部协议异常）");
    let r = child_outcome(true, Some(0), Some(HeadlessResult { mod_id: 4, file_id: Some(5) })).unwrap();
    assert_eq!((r.mod_id, r.file_id), (4, Some(5)));
}

#[test]
fn crash_report_reads_the_newest_godot_log() {
    let entries = vec![
        ("godot2a.log".to_string(), 10),
        ("godot2b.log".to_string(), 30),
        ("other.log".to_string(), 99),
    ];
    assert_eq!(crash_log_to_read(true, true, entries.clone()), Some("godot2b.log".to_string()));
    assert_eq!(crash_log_to_read(false, true, entries.clone()), None);
    assert_eq!(crash_log_to_read(true, false, entries), None);
    assert_eq!(crash_log_to_read(true, true, vec![("x.txt".to_string(), 1)]), None);
}

#[test]
fn zip_entries_use_forward_slashes() {
    assert_eq!(zip_entry_name("profile1\\saves\\progress.save", false), "profile1/saves/progress.save");
    assert_eq!(zip_entry_name("profile1\\saves", true), "profile1/saves/");
    assert_eq!(zip_entry_name("a/b", false), "a/b");
}

#[test]
fn engine_answers_end_or_continue_the_request() {
    let mut errors = Vec::new();
    assert!(after_engine("mymemory", Err("timeout".to_string()), &mut errors).is_none());
    assert_eq!(errors, vec!["mymemory: timeout"]);
    let r = after_engine("llm", Ok("你好".to_string()), &mut errors).unwrap();
    assert!(r.success);
    assert_eq!(r.translated.as_deref(), Some("你好"));
    assert_eq!(r.provider.as_deref(), Some("llm"));
    assert_eq!(errors.len(), 1);
}

#[test]
fn finished_browser_downloads() {
    match download_finished(None, "mod.zip".to_string(), false, true) {
        FinishedStep::Failed { state, message } => {
            assert_eq!(message, "下载失败: mod.zip");
            assert_eq!(state.phase, "error");
            assert_eq!(state.file_name.as_deref(), Some("mod.zip"));
        }
        _ => panic!("expected a failure"),
    }
    match download_finished(None, "mod.zip".to_string(), true, false) {
        FinishedStep::NoLocalFile { message, .. } => {
            assert_eq!(message, "下载已完成，但没有返回本地文件路径，无法自动安装")
        }
        _ => panic!("expected a missing file"),
    }
    match download_finished(Some("real (1).zip".to_string()), "mod.zip".to_string(), true, true) {
        FinishedStep::Install { file_name } => assert_eq!(file_name, "real (1).zip"),
        _ => panic!("expected an install"),
    }
}

#[test]
fn current_time_is_iso_with_zone() {
    let t = now_iso8601();
    assert!(t.ends_with('Z'));
    assert_eq!(t.len(), 20);
}

#[test]
fn steam_directory_ignores_whether_saves_are_enabled() {
    let base = || Some(AppPath { base: PathBase::Current, parts: vec!["cfg".to_string()] });
    let mut p = GameProfile::default_for("slaythespire2").unwrap();
    let a = steam_dir_under(base(), &p).unwrap();
    p.saves_enabled = !p.saves_enabled;
    let b = steam_dir_under(base(), &p).unwrap();
    assert_eq!(a.parts, b.parts);
    assert_eq!(a.parts, vec!["cfg".to_string(), "SlayTheSpire2".to_string(), "steam".to_string()]);
    assert!(steam_dir_under(None, &p).is_none());
}

#[test]
fn profile_listing_reads_each_profile() {
    let text = "{\"a/b\": {\"snapshot\": {\"m1\": true, \"m2\": false}, \"savedAt\": \"2024-01-01\"}, \"z\": {}}";
    let s = profile_summaries(text);
    assert_eq!(s.len(), 2);
    assert_eq!(s[0].name, "a/b");
    assert_eq!(s[0].mod_count, 2);
    assert_eq!(s[0].saved_at.as_deref(), Some("2024-01-01"));
    assert_eq!(s[1].name, "z");
    assert_eq!(s[1].mod_count, 0);
    assert_eq!(s[1].saved_at, None);
    assert!(profile_summaries("[1]").is_empty());
    assert!(profile_summaries("nope").is_empty());
}

#[test]
fn mymemory_bodies_are_read() {
    assert_eq!(
        read_mymemory_reply("{\"responseStatus\":200,\"responseData\":{\"translatedText\":\" 你好 \"}}"),
        Ok("你好".to_string())
    );
    assert_eq!(
        read_mymemory_reply("{\"responseStatus\":403,\"responseDetails\":\"quota\"}"),
        Err("quota".to_string())
    );
    assert!(read_mymemory_reply("<html>").is_err());
}

#[test]
fn exported_slot_imports_back_into_place() {
    let names = vec![
        "_meta.json".to_string(),
        zip_entry_name("profile2\\saves", true),
        zip_entry_name("profile2\\saves\\progress.save", false),
        zip_entry_name("profile2\\replays\\a.run", false),
    ];
    let source = source_slot(&top_folders(&names));
    assert_eq!(source, "profile2");
    assert_eq!(import_target("_meta.json", false, &source), None);
    assert_eq!(import_target(&names[1], true, &source), None);
    assert_eq!(import_target(&names[2], false, &source), Some("saves/progress.save".to_string()));
    assert_eq!(import_target(&names[3], false, &source), Some("replays/a.run".to_string()));
}

#[test]
fn malformed_lines_keep_the_parser_message() {
    match classify_line(JsonLine::Malformed("bad thing".to_string())) {
        ParsedLine::Malformed(m) => assert_eq!(m, "bad thing"),
        _ => panic!("expected malformed"),
    }
    match parse_event_line("{oops") {
        ParsedLine::Malformed(m) => assert!(!m.is_empty()),
        _ => panic!("expected malformed"),
    }
}

#[test]
fn child_lines_are_reported_kept_or_skipped() {
    let kept = Some(HeadlessResult { mod_id: 1, file_id: None });
    let step = on_child_line("{\"type\":\"result\",\"modId\":9}", parse_event_line("{\"type\":\"result\",\"modId\":9}"), kept.clone());
    assert!(step.event.is_none());
    assert_eq!(step.last.map(|h| h.mod_id), Some(9));
    assert!(step.note.is_none());
    let line = "{\"type\":\"progress\",\"phase\":\"downloading\",\"message\":\"m\",\"fileName\":\"foo.zip\"}";
    let step = on_child_line(line, parse_event_line(line), kept.clone());
    assert!(step.event.is_some());
    assert_eq!(step.last.map(|h| h.mod_id), Some(1));
    let step = on_child_line("hello", ParsedLine::Unknown, kept.clone());
    assert_eq!(step.note.as_deref(), Some("[subprocess] 跳过非 JSON 行: hello"));
    assert_eq!(step.last.map(|h| h.mod_id), Some(1));
    let step = on_child_line("{x", ParsedLine::Malformed("err".to_string()), None);
    assert_eq!(step.note.as_deref(), Some("[subprocess] JSON 解析失败: err (line: {x)"));
    assert!(step.last.is_none());
}

#[test]
fn switching_games_checks_the_domain() {
    let configured = vec!["slaythespire2".to_string(), "mygame".to_string()];
    assert_eq!(switch_game_target(&configured, "   ").unwrap_err(), "game domain cannot be empty");
    let (d, p) = switch_game_target(&configured, " mygame ").unwrap();
    assert_eq!(d, "mygame");
    assert!(p.is_none());
    let (d, p) = switch_game_target(&configured, "skyrimspecialedition").unwrap();
    assert_eq!(d, "skyrimspecialedition");
    assert_eq!(p.unwrap().nexus_domain, "skyrimspecialedition");
    assert_eq!(switch_game_target(&configured, "nosuch").unwrap_err(), "unknown game domain: nosuch");
}
