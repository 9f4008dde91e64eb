use nexus_mod_manager::game::{
    any_process_named, begin_launch, finish_launch, godot_logs_by_recency, has_process_detection, latest_log_names,
    launch_busy, launch_missing_exe, launch_started, launch_unavailable, launch_without_game,
    parse_version_info, plan_launch, poll_game_state, state_after_launch, steam_url,
    truncate_log_tail, version_log_candidates, GameState, LaunchMethod,
};
use nexus_mod_manager::game_profile::GameProfile;

fn entries() -> Vec<(String, u64)> {
    vec![
        ("a.log".to_string(), 1),
        ("godot2x.log".to_string(), 5),
        ("b.txt".to_string(), 9),
        ("godot2y.log".to_string(), 5),
        ("c.log".to_string(), 3),
    ]
}

#[test]
fn steam_url_has_the_app_id() {
    assert_eq!(steam_url(2868840), "steam://rungameid/2868840");
}

#[test]
fn launch_prefers_steam_for_steam_libraries() {
    match plan_launch(
        Some(10),
        Some("D:\\SteamApps\\common\\Game".to_string()),
        Some("game.exe".to_string()),
    ) {
        LaunchMethod::Steam(id) => assert_eq!(id, 10),
        _ => panic!("expected Steam"),
    }
    match plan_launch(Some(10), None, None) {
        LaunchMethod::Steam(id) => assert_eq!(id, 10),
        _ => panic!("expected Steam"),
    }
}

#[test]
fn launch_runs_the_executable_outside_steam() {
    match plan_launch(Some(10), Some("C:\\Games\\X".to_string()), Some("x.exe".to_string())) {
        LaunchMethod::Direct { game_path, exe_name } => {
            assert_eq!(game_path, "C:\\Games\\X");
            assert_eq!(exe_name, "x.exe");
        }
        _ => panic!("expected Direct"),
    }
    match plan_launch(Some(10), Some("C:\\Games\\X".to_string()), None) {
        LaunchMethod::Steam(id) => assert_eq!(id, 10),
        _ => panic!("expected Steam"),
    }
    assert!(matches!(plan_launch(None, Some("C:\\G".to_string()), None), LaunchMethod::Unavailable));
}

#[test]
fn launch_answers() {
    assert_eq!(launch_busy().error.as_deref(), Some("game is already running"));
    assert_eq!(launch_without_game().error.as_deref(), Some("no game selected"));
    assert_eq!(
        launch_unavailable().error.as_deref(),
        Some("this game does not have a configured launch method")
    );
    let r = launch_missing_exe("C:\\x.exe");
    assert!(!r.success);
    assert_eq!(r.error.as_deref(), Some("game executable not found: C:\\x.exe"));
    let s = launch_started(true);
    assert!(s.success);
    assert_eq!(s.method.as_deref(), Some("steam"));
    assert_eq!(launch_started(false).method.as_deref(), Some("direct"));
}

#[test]
fn game_state_follows_the_process() {
    assert_eq!(state_after_launch(true), GameState::Launching);
    assert_eq!(state_after_launch(false), GameState::Idle);
    assert_eq!(poll_game_state(GameState::Launching, true, true), GameState::Running);
    assert_eq!(poll_game_state(GameState::Launching, true, false), GameState::Launching);
    assert_eq!(poll_game_state(GameState::Running, true, false), GameState::Idle);
    assert_eq!(poll_game_state(GameState::Running, false, true), GameState::Idle);
    assert_eq!(GameState::Running.as_str(), "running");
    assert_eq!(GameState::Idle.as_str(), "idle");
    assert_eq!(GameState::Launching.as_str(), "launching");
}

#[test]
fn process_detection_needs_a_process_name() {
    let p = GameProfile::default_for("slaythespire2").unwrap();
    assert!(has_process_detection(Some(&p)));
    assert!(!has_process_detection(None));
    let names = vec!["explorer".to_string(), "SlayTheSpire2".to_string()];
    assert!(any_process_named(&names, "SlayTheSpire2"));
    assert!(!any_process_named(&names, "Other"));
}

#[test]
fn log_lists_are_newest_first() {
    assert_eq!(latest_log_names(entries()), vec!["godot2x.log", "godot2y.log", "c.log", "a.log"]);
    assert_eq!(godot_logs_by_recency(entries()), vec!["godot2x.log", "godot2y.log"]);
    assert_eq!(
        version_log_candidates(entries()),
        vec!["godot2x.log", "godot2y.log", "godot.log"]
    );
}

#[test]
fn log_list_is_capped_at_fifty() {
    let many: Vec<(String, u64)> = (0..60).map(|i| (format!("f{}.log", i), i as u64)).collect();
    let names = latest_log_names(many);
    assert_eq!(names.len(), 50);
    assert_eq!(names[0], "f59.log");
}

#[test]
fn version_lines_are_read() {
    let v = parse_version_info("boot\nRelease Version: 1.2.3 \nEngine Version: Godot 4.3\n");
    assert_eq!(v.version.as_deref(), Some("1.2.3"));
    assert_eq!(v.engine.as_deref(), Some("Godot 4.3"));
    let none = parse_version_info("nothing here");
    assert!(none.version.is_none());
    assert!(none.engine.is_none());
}

#[test]
fn later_version_lines_win() {
    let v = parse_version_info("Release Version: 1\nRelease Version: 2\n");
    assert_eq!(v.version.as_deref(), Some("2"));
}

#[test]
fn truncated_tail_starts_after_first_line() {
    assert_eq!(
        truncate_log_tail("partial line\nwhole line\n"),
        "[... log truncated, showing tail only ...]\nwhole line\n"
    );
    assert_eq!(truncate_log_tail("no newline"), "no newline");
}

#[test]
fn launch_decisions() {
    let p = GameProfile::default_for("slaythespire2").unwrap();
    assert_eq!(
        begin_launch(GameState::Running, Some(&p), None).unwrap_err().error.as_deref(),
        Some("game is already running")
    );
    assert_eq!(begin_launch(GameState::Idle, None, None).unwrap_err().error.as_deref(), Some("no game selected"));
    match begin_launch(GameState::Idle, Some(&p), Some("E:\\Games\\STS2".to_string())).unwrap() {
        LaunchMethod::Direct { exe_name, .. } => assert_eq!(exe_name, "SlayTheSpire2.exe"),
        _ => panic!("expected Direct"),
    }
    let mut bare = p.clone();
    bare.steam_app_id = None;
    assert_eq!(
        begin_launch(GameState::Idle, Some(&bare), None).unwrap_err().error.as_deref(),
        Some("this game does not have a configured launch method")
    );
    let (r, s) = finish_launch(true, &p);
    assert!(r.success);
    assert_eq!(r.method.as_deref(), Some("steam"));
    assert_eq!(s, GameState::Launching);
    bare.process_name = None;
    assert_eq!(finish_launch(false, &bare).1, GameState::Idle);
}
