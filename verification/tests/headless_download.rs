use nexus_mod_manager::headless::parse_args;

fn av(args: &[&str]) -> Vec<String> {
    args.iter().map(|s| s.to_string()).collect()
}

#[test]
fn parse_minimal() {
    let opts =
        parse_args(&av(&["nexus-mod-manager.exe", "--headless-download", "12345"])).unwrap();
    assert_eq!(opts.mod_id, 12345);
    assert!(opts.file_id.is_none());
    assert!(opts.game_domain.is_none());
}

#[test]
fn parse_all_flags() {
    let opts = parse_args(&av(&[
        "nexus-mod-manager.exe",
        "--headless-download",
        "12345",
        "--file-id",
        "67890",
        "--game-domain",
        "stalker2",
    ]))
    .unwrap();
    assert_eq!(opts.mod_id, 12345);
    assert_eq!(opts.file_id, Some(67890));
    assert_eq!(opts.game_domain.as_deref(), Some("stalker2"));
}

#[test]
fn parse_missing_mod_id() {
    let err = parse_args(&av(&["nexus-mod-manager.exe", "--headless-download"])).unwrap_err();
    assert!(err.contains("mod-id"));
}

#[test]
fn parse_non_numeric_mod_id() {
    let err = parse_args(&av(&[
        "nexus-mod-manager.exe",
        "--headless-download",
        "abc",
    ]))
    .unwrap_err();
    assert!(err.contains("无符号整数"));
}

#[test]
fn parse_ignores_unknown_flag() {
    let opts = parse_args(&av(&[
        "nexus-mod-manager.exe",
        "--headless-download",
        "12345",
        "--some-future-flag",
        "value",
    ]))
    .unwrap();
    assert_eq!(opts.mod_id, 12345);
}

#[test]
fn parse_without_flag_is_refused() {
    let err = parse_args(&av(&["nexus-mod-manager.exe", "12345"])).unwrap_err();
    assert_eq!(err, "未识别到 --headless-download flag（内部错误）");
}

#[test]
fn parse_file_id_missing_value() {
    let err = parse_args(&av(&[
        "nexus-mod-manager.exe",
        "--headless-download",
        "1",
        "--file-id",
    ]))
    .unwrap_err();
    assert_eq!(err, "--file-id 需要一个无符号整数参数");
}

#[test]
fn parse_bad_file_id_names_the_value() {
    let err = parse_args(&av(&[
        "nexus-mod-manager.exe",
        "--headless-download",
        "1",
        "--file-id",
        "x9",
    ]))
    .unwrap_err();
    assert_eq!(err, "--file-id 必须是无符号整数，实际收到 `x9`");
}

#[test]
fn parse_game_domain_missing_value() {
    let err = parse_args(&av(&["nexus-mod-manager.exe", "--headless-download", "1", "--game-domain"]))
        .unwrap_err();
    assert_eq!(err, "--game-domain 需要一个 domain 参数（如 `stalker2`）");
}

#[test]
fn parse_mod_id_accepts_plus_sign_and_rejects_overflow() {
    let opts = parse_args(&av(&["x", "--headless-download", "+18446744073709551615"])).unwrap();
    assert_eq!(opts.mod_id, u64::MAX);
    let err = parse_args(&av(&["x", "--headless-download", "18446744073709551616"])).unwrap_err();
    assert_eq!(err, "mod-id 参数必须是无符号整数，实际收到 `18446744073709551616`");
}

#[test]
fn parse_flag_consumes_next_argument_even_if_it_is_a_flag() {
    let opts = parse_args(&av(&[
        "x",
        "--headless-download",
        "5",
        "--game-domain",
        "--file-id",
        "7",
    ]))
    .unwrap();
    assert_eq!(opts.game_domain.as_deref(), Some("--file-id"));
    assert_eq!(opts.file_id, None);
    assert_eq!(opts.mod_id, 5);
}

#[test]
fn parse_last_mod_id_wins() {
    let opts = parse_args(&av(&["x", "--headless-download", "5", "--headless-download", "6"])).unwrap();
    assert_eq!(opts.mod_id, 6);
}
