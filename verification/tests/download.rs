use nexus_mod_manager::download::{
    download_page_url, fallback_state, file_name_from_segment, install_first_step,
    install_outcome, make_unique_destination, mods_dir_error_message, navigation_notice,
    next_download_action, preferred_file_id, DownloadAction, DownloadEvent, InstallNotice,
    InstallStep, ModFile,
};
use nexus_mod_manager::paths::{AppPath, PathBase};

fn file(id: u64, cat: &str) -> ModFile {
    ModFile { file_id: id, category_name: cat.to_string() }
}

#[test]
fn download_names_are_decoded() {
    assert_eq!(file_name_from_segment(Some("My%20Mod%20v1.zip".to_string())), "My Mod v1.zip");
    assert_eq!(file_name_from_segment(Some("plain.zip".to_string())), "plain.zip");
    assert_eq!(file_name_from_segment(Some("%E4%B8%AD.7z".to_string())), "中.7z");
    assert_eq!(file_name_from_segment(Some("bad%FF.zip".to_string())), "bad%FF.zip");
    assert_eq!(file_name_from_segment(Some("  ".to_string())), "mod-download");
    assert_eq!(file_name_from_segment(None), "mod-download");
}

#[test]
fn unique_destination_in_a_fresh_directory() {
    let dir = AppPath { base: PathBase::Current, parts: vec!["no-such-download-dir-4b1e".to_string()] };
    let p = make_unique_destination(&dir, "mod.zip").unwrap();
    assert_eq!(p.parts, vec!["no-such-download-dir-4b1e", "mod.zip"]);
}

#[test]
fn files_page_urls() {
    assert_eq!(
        download_page_url("slaythespire2", 42, None),
        "https://www.nexusmods.com/slaythespire2/mods/42?tab=files"
    );
    assert_eq!(
        download_page_url("slaythespire2", 42, Some(7)),
        "https://www.nexusmods.com/slaythespire2/mods/42?tab=files&file_id=7"
    );
}

#[test]
fn preferred_file_is_main_else_first() {
    assert_eq!(preferred_file_id(&vec![file(1, "OPTIONAL"), file(2, "main"), file(3, "MAIN")]), Ok(2));
    assert_eq!(preferred_file_id(&vec![file(5, "OPTIONAL"), file(6, "UPDATE")]), Ok(5));
    assert_eq!(preferred_file_id(&vec![]), Err("该 Mod 没有可下载的文件".to_string()));
}

#[test]
fn navigation_notices() {
    let login = navigation_notice("users.nexusmods.com", "/auth").unwrap();
    assert_eq!(login.state.phase, "login-required");
    assert_eq!(login.state.message, "请在弹窗中登录 Nexus 账号，登录后将自动继续下载");
    assert!(login.show_window);
    let mod_page = navigation_notice("www.nexusmods.com", "/slaythespire2/mods/42").unwrap();
    assert_eq!(mod_page.state.phase, "auto-downloading");
    assert_eq!(mod_page.state.message, "正在自动下载 Mod，请稍候...");
    assert!(!mod_page.show_window);
    assert!(navigation_notice("www.nexusmods.com", "/games").is_none());
    assert!(navigation_notice("example.com", "/mods/1").is_none());
}

#[test]
fn install_of_a_missing_file_stops() {
    match install_first_step("a.zip", false, true, Ok(Some("/g".to_string()))) {
        InstallStep::Finish { states, notice } => {
            assert_eq!(states.len(), 1);
            assert_eq!(states[0].phase, "error");
            assert_eq!(states[0].message, "下载完成后未找到文件: a.zip");
            assert_eq!(states[0].file_name.as_deref(), Some("a.zip"));
            assert!(matches!(notice, InstallNotice::InstallError(m) if m == "下载完成后未找到文件: a.zip"));
        }
        _ => panic!("expected Finish"),
    }
}

#[test]
fn install_keeps_unsupported_files() {
    match install_first_step("a.txt", true, false, Ok(None)) {
        InstallStep::Finish { states, notice } => {
            assert_eq!(states[0].phase, "success");
            assert_eq!(states[0].message, "a.txt 已下载到临时目录，但不是支持自动安装的归档文件");
            assert!(matches!(notice, InstallNotice::DownloadSaved(_)));
        }
        _ => panic!("expected Finish"),
    }
}

#[test]
fn install_needs_a_game_directory() {
    match install_first_step("a.zip", true, true, Ok(None)) {
        InstallStep::Finish { states, notice } => {
            assert_eq!(states.len(), 2);
            assert_eq!(states[0].phase, "installing");
            assert_eq!(states[0].message, "正在安装 a.zip");
            assert_eq!(states[1].message, "尚未设置游戏目录，无法自动安装");
            assert!(matches!(notice, InstallNotice::InstallError(_)));
        }
        _ => panic!("expected Finish"),
    }
    match install_first_step("a.zip", true, true, Err("lock".to_string())) {
        InstallStep::Finish { states, .. } => assert_eq!(states[1].message, "lock"),
        _ => panic!("expected Finish"),
    }
    match install_first_step("a.zip", true, true, Ok(Some("/games/x".to_string()))) {
        InstallStep::Extract { states, game_path } => {
            assert_eq!(game_path, "/games/x");
            assert_eq!(states.len(), 1);
        }
        _ => panic!("expected Extract"),
    }
}

#[test]
fn install_outcomes() {
    let (s, n, close) = install_outcome("a.zip", Ok(()), true);
    assert_eq!(s.phase, "success");
    assert_eq!(s.message, "Mod 已安装: a.zip");
    assert!(matches!(n, InstallNotice::InstallSuccess(f) if f == "a.zip"));
    assert!(close);
    let (e, n2, close2) = install_outcome("a.zip", Err("broken".to_string()), true);
    assert_eq!(e.phase, "error");
    assert_eq!(e.message, "broken");
    assert!(matches!(n2, InstallNotice::InstallError(_)));
    assert!(!close2);
    assert_eq!(mods_dir_error_message("/g/mods", "denied"), "无法创建 Mod 安装目录 /g/mods: denied");
}

#[test]
fn download_routes() {
    assert_eq!(next_download_action(DownloadEvent::Start { premium: false, file_id: Some(1) }), DownloadAction::OpenBrowser);
    assert_eq!(next_download_action(DownloadEvent::Start { premium: true, file_id: Some(1) }), DownloadAction::FetchDirect(1));
    assert_eq!(next_download_action(DownloadEvent::Start { premium: true, file_id: None }), DownloadAction::ResolveFile);
    assert_eq!(next_download_action(DownloadEvent::Resolved(Some(9))), DownloadAction::FetchDirect(9));
    assert_eq!(next_download_action(DownloadEvent::Resolved(None)), DownloadAction::OpenBrowser);
    assert_eq!(next_download_action(DownloadEvent::Fetched(Ok(()))), DownloadAction::Done);
    assert_eq!(next_download_action(DownloadEvent::Fetched(Err("x".to_string()))), DownloadAction::FallBack);
    let f = fallback_state();
    assert_eq!(f.phase, "preparing");
    assert_eq!(f.message, "直链下载失败，切换为浏览器下载方式...");
}
