use nexus_mod_manager::game_profile::{default_game_domain, preset_games, GameProfile};
use nexus_mod_manager::paths::{
    choose_existing, current_config_file, join, push_unique_path, same_path, with_app_name,
    writable_dir_from, AppPath, PathBase,
};

fn cur(parts: &[&str]) -> AppPath {
    AppPath { base: PathBase::Current, parts: parts.iter().map(|s| s.to_string()).collect() }
}

#[test]
fn preset_games_in_order() {
    let games = preset_games();
    assert_eq!(games.len(), 10);
    assert_eq!(games[0].nexus_domain, "slaythespire2");
    assert_eq!(games[9].nexus_domain, "starfield");
    let domains: Vec<&str> = games.iter().map(|g| g.nexus_domain.as_str()).collect();
    assert_eq!(
        domains,
        vec!["slaythespire2", "skyrimspecialedition", "baldursgate3", "stardewvalley", "cyberpunk2077",
            "monsterhunterworld", "fallout4", "witcher3", "eldenring", "starfield"]
    );
}

#[test]
fn preset_lookup() {
    let sk = GameProfile::default_for("skyrimspecialedition").unwrap();
    assert_eq!(sk.display_name, "Skyrim Special Edition");
    assert_eq!(sk.steam_app_id, Some(489830));
    assert_eq!(sk.mods_subdir, "Data");
    assert!(!sk.saves_enabled);
    assert!(GameProfile::default_for("unknown").is_none());
    assert_eq!(default_game_domain().as_deref(), Some("slaythespire2"));
    let cp = GameProfile::default_for("cyberpunk2077").unwrap();
    assert_eq!(cp.mods_subdir, "archive\\pc\\mod");
}

#[test]
fn app_directories() {
    assert!(with_app_name(None, "X").is_none());
    let w = writable_dir_from(None);
    assert!(matches!(w.base, PathBase::Current));
    assert_eq!(w.parts, vec!["NexusModManager"]);
    let f = current_config_file("config.json");
    assert_eq!(f.parts, vec!["NexusModManager", "config.json"]);
    let j = join(&cur(&["a"]), "b");
    assert_eq!(j.parts, vec!["a", "b"]);
}

#[test]
fn existing_file_choice() {
    let c = cur(&["NexusModManager", "x"]);
    let l = Some(cur(&["STS2ModManager", "x"]));
    assert_eq!(choose_existing(c.clone(), true, l.clone(), true).unwrap().parts, vec!["NexusModManager", "x"]);
    assert_eq!(choose_existing(c.clone(), false, l.clone(), true).unwrap().parts, vec!["STS2ModManager", "x"]);
    assert!(choose_existing(c, false, l, false).is_none());
}

#[test]
fn unique_paths() {
    let mut v: Vec<AppPath> = Vec::new();
    push_unique_path(&mut v, Some(cur(&["a"])));
    push_unique_path(&mut v, Some(cur(&["a"])));
    push_unique_path(&mut v, None);
    push_unique_path(&mut v, Some(cur(&["b"])));
    assert_eq!(v.len(), 2);
    assert!(same_path(&cur(&["x", "y"]), &cur(&["x", "y"])));
    assert!(!same_path(&cur(&["x"]), &cur(&["x", "y"])));
}

#[test]
fn platform_directories_compare_by_path() {
    let a = AppPath { base: PathBase::Dir(std::path::PathBuf::from("/home/u/.config")), parts: vec!["X".to_string()] };
    let b = AppPath { base: PathBase::Dir(std::path::PathBuf::from("/home/u/.config")), parts: vec!["X".to_string()] };
    let c = AppPath { base: PathBase::Dir(std::path::PathBuf::from("/home/v/.config")), parts: vec!["X".to_string()] };
    assert!(same_path(&a, &b));
    assert!(!same_path(&a, &c));
    assert!(!same_path(&a, &cur(&["X"])));
}
