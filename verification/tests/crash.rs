use nexus_mod_manager::crash::analyze_crash_log;

const LOG: &str = "[INFO] Finished mod initialization for 'Cool Mod' (coolmod)\n\
[ERROR] Mod manifest mods/coolmod/config.json is missing the 'id' field\n\
[ERROR] Mod manifest mods/BrokenMod/mod.json is missing the 'id' field\n\
[ERROR] Failed to load mods/BadMod/BadMod.dll\n\
[ERROR] Exception in mods/BadMod/x.dll\n\
[WARN] something odd\n\
NullReferenceException at foo\n";

#[test]
fn crash_log_analysis() {
    let r = analyze_crash_log(LOG, "godot2024.log".to_string());
    assert_eq!(r.log_file.as_deref(), Some("godot2024.log"));
    assert_eq!(r.error_count, 4);
    assert_eq!(r.warn_count, 1);
    assert_eq!(r.loaded_mods, vec!["Cool Mod".to_string()]);
    assert_eq!(
        r.notices,
        vec!["coolmod/config.json is missing the 'id' field looks like a config file, not a mod manifest; the mod still loaded.".to_string()]
    );
    let reasons: Vec<&str> = r.issues.iter().map(|i| i.reason.as_str()).collect();
    assert_eq!(reasons, vec!["Null reference", "Invalid manifest"]);
    assert_eq!(
        r.issues[1].detail,
        "The following mod manifests are missing the id field: BrokenMod"
    );
    assert_eq!(r.issues[1].mods, vec!["BrokenMod".to_string()]);
    assert_eq!(r.involved_mods.len(), 2);
    assert_eq!(r.involved_mods[0].name, "BadMod");
    assert_eq!(r.involved_mods[0].error_count, 2);
    assert_eq!(r.involved_mods[0].sample, "Failed to load mods/BadMod/BadMod.dll");
    assert_eq!(r.involved_mods[1].name, "BrokenMod");
    assert_eq!(r.involved_mods[1].error_count, 1);
    assert_eq!(r.involved_mods[1].sample, "manifest is invalid and the mod did not load");
}

#[test]
fn empty_log_reports_nothing() {
    let r = analyze_crash_log("", "a.log".to_string());
    assert!(r.issues.is_empty());
    assert_eq!(r.error_count, 0);
    assert_eq!(r.warn_count, 0);
    assert!(r.involved_mods.is_empty());
}

#[test]
fn patterns_match_in_any_case_once_per_reason() {
    let r = analyze_crash_log("OUT OF MEMORY\nOutOfMemoryException\nfatal crash\n", "l".to_string());
    let reasons: Vec<&str> = r.issues.iter().map(|i| i.reason.as_str()).collect();
    assert_eq!(reasons, vec!["Out of memory", "Fatal error"]);
}

#[test]
fn invalid_manifest_needs_a_failed_mod() {
    let r = analyze_crash_log("x is missing the 'id' field\n", "l".to_string());
    assert!(r.issues.is_empty());
}

#[test]
fn error_lines_name_their_mod() {
    let long = format!("[ERROR] mods/Big/{}", "a".repeat(200));
    let log = format!("[ERROR] bad mods\\Fancy.dll.json\n{}\n", long);
    let r = analyze_crash_log(&log, "l".to_string());
    assert_eq!(r.error_count, 2);
    let fancy = r.involved_mods.iter().find(|m| m.name == "Fancy").unwrap();
    assert_eq!(fancy.sample, "bad mods\\Fancy.dll.json");
    let big = r.involved_mods.iter().find(|m| m.name == "Big").unwrap();
    assert_eq!(big.sample.chars().count(), 120);
    assert!(big.sample.starts_with("mods/Big/aaa"));
}
