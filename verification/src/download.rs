//! The decisions of a Nexus download: where the file goes, what it is
//! called, which file of a mod to fetch, which route to take, and what the
//! user is told at each step of installing it.
//!
//! The windows, the network and the disk stay with the caller; these
//! functions take what the caller saw and say what to do or show next.

use vstd::prelude::*;
use crate::text::opt_chars;
use crate::paths::{
    extension_of, extension_text, file_stem_text, join, parts_of, path_exists,
    plain_file_name, probed_occupied, search_step, stem_of, AppPath, SearchStep,
};
use crate::text::{
    chars_of, contains, eq_ignore_ascii_case, eq_ignore_case_exec, decimal, decimal_chars, owned, push_all, string_of, trim, trimmed,
};

verus! {

// ---------------------------------------------------------------------------
// File names
// ---------------------------------------------------------------------------

/// What `urlencoding::decode` returns for the characters `s`: the text
/// with each `%XX` escape replaced by its byte, when those bytes are UTF-8.
pub uninterp spec fn url_decoded(s: Seq<char>) -> Option<Seq<char>>;

/// `urlencoding::decode`: percent-decodes `s` and reads the bytes as UTF-8,
/// `None` when they are not. Its result is named `url_decoded`; text
/// without `%` comes back unchanged, as the crate's source shows.
#[verifier::external_body]
fn decode_url_component(s: &str) -> (r: Option<String>)
    ensures
        opt_chars(r) == url_decoded(s@),
        !s@.contains('%') ==> opt_chars(r) == Some(s@),
{
    match urlencoding::decode(s) {
        Ok(d) => Some(d.into_owned()),
        Err(_) => None,
    }
}

/// The name a download is saved under, from the last segment of its URL:
/// the segment percent-decoded (as it stands when that fails), or
/// `mod-download` when there is no segment or it is blank.
pub open spec fn download_file_name(segment: Option<Seq<char>>) -> Seq<char> {
    match segment {
        Some(s) => if trim(s).len() > 0 {
            match url_decoded(s) {
                Some(d) => d,
                None => s,
            }
        } else {
            "mod-download"@
        },
        None => "mod-download"@,
    }
}

/// The name a download is saved under, from the last path segment of its
/// URL.
pub fn file_name_from_segment(segment: Option<String>) -> (r: String)
    ensures
        r@ == download_file_name(opt_chars(segment)),
{
    match segment {
        Some(s) => {
            if trimmed(s.as_str()).len() > 0 {
                match decode_url_component(s.as_str()) {
                    Some(d) => d,
                    None => s,
                }
            } else {
                owned("mod-download")
            }
        },
        None => owned("mod-download"),
    }
}

/// The `index`-th alternative name for a download.
pub open spec fn numbered_download(stem: Seq<char>, ext: Seq<char>, index: nat) -> Seq<char> {
    if ext.len() == 0 {
        stem + " ("@ + decimal(index) + ")"@
    } else {
        stem + " ("@ + decimal(index) + ")."@ + ext
    }
}

fn numbered_download_name(stem: &str, ext: &str, index: u64) -> (r: String)
    ensures
        r@ == numbered_download(stem@, ext@, index as nat),
{
    let mut v = chars_of(stem);
    push_all(&mut v, &chars_of(" ("));
    push_all(&mut v, &decimal_chars(index));
    let e = chars_of(ext);
    if e.len() > 0 {
        push_all(&mut v, &chars_of(")."));
        push_all(&mut v, &e);
    } else {
        push_all(&mut v, &chars_of(")"));
    }
    string_of(&v)
}

/// The stem alternative download names are built on: the file stem when
/// it is not empty, else `mod`.
pub open spec fn download_stem(file_name: Seq<char>) -> Seq<char> {
    if stem_of(file_name).len() > 0 {
        stem_of(file_name)
    } else {
        "mod"@
    }
}

/// The extension alternative download names keep.
pub open spec fn download_ext(file_name: Seq<char>) -> Seq<char> {
    match extension_of(file_name) {
        Some(e) => e,
        None => seq![],
    }
}

/// The candidate number `n` for `file_name` below the directory `dir`: the
/// name itself for 0, else `<stem> (<n>)[.<ext>]`.
pub open spec fn download_candidate(dir: Seq<Seq<char>>, file_name: Seq<char>, n: nat) -> Seq<
    Seq<char>,
> {
    dir.push(
        if n == 0 {
            file_name
        } else {
            numbered_download(download_stem(file_name), download_ext(file_name), n)
        },
    )
}

/// A path in `download_dir` for `file_name` that nothing occupies: the name
/// itself, else the first free `<stem> (<n>)[.<ext>]` for n = 1, 2, ...
/// Each candidate is probed with `path_exists`: the path returned is one the
/// probe reported free, and for a plain file name every candidate before it
/// was reported occupied. `None` when every candidate up to `u32::MAX` was
/// reported occupied. Each probe answer is turned into the next step by
/// `search_step`.
pub fn make_unique_destination(download_dir: &AppPath, file_name: &str) -> (r: Option<AppPath>)
    ensures
        r matches Some(p) ==> p.base == download_dir.base,
        r matches Some(p) ==> call_ensures(path_exists, (&p,), false),
        r matches Some(p) ==> plain_file_name(file_name@) ==> (parts_of(p) == parts_of(
            *download_dir,
        ).push(file_name@) || exists|n: nat|
            1 <= n && parts_of(p) == parts_of(*download_dir).push(
                numbered_download(download_stem(file_name@), download_ext(file_name@), n),
            )),
        r matches Some(p) ==> plain_file_name(file_name@) ==> exists|n: nat|
            n <= 4294967295 && parts_of(p) == download_candidate(parts_of(*download_dir), file_name@, n)
                && forall|m: nat|
                m < n ==> probed_occupied(
                    download_dir.base,
                    #[trigger] download_candidate(parts_of(*download_dir), file_name@, m),
                ),
        r is None ==> plain_file_name(file_name@) ==> forall|m: nat|
            m <= 4294967295 ==> probed_occupied(
                download_dir.base,
                #[trigger] download_candidate(parts_of(*download_dir), file_name@, m),
            ),
{
    let stem = match file_stem_text(file_name) {
        Some(s) => if chars_of(s.as_str()).len() > 0 {
            s
        } else {
            owned("mod")
        },
        None => owned("mod"),
    };
    let ext = match extension_text(file_name) {
        Some(e) => e,
        None => String::new(),
    };
    proof {
        if plain_file_name(file_name@) {
            assert(stem@ == download_stem(file_name@));
            assert(ext@ == download_ext(file_name@));
        }
    }
    let ghost dir = parts_of(*download_dir);
    let mut index: u64 = 0;
    loop
        invariant
            index <= 4294967295,
            dir == parts_of(*download_dir),
            plain_file_name(file_name@) ==> stem@ == download_stem(file_name@) && ext@
                == download_ext(file_name@),
            plain_file_name(file_name@) ==> forall|m: nat|
                m < index ==> probed_occupied(
                    download_dir.base,
                    #[trigger] download_candidate(dir, file_name@, m),
                ),
        decreases 4294967295 - index,
    {
        let candidate = if index == 0 {
            join(download_dir, file_name)
        } else {
            let name = numbered_download_name(stem.as_str(), ext.as_str(), index);
            join(download_dir, name.as_str())
        };
        proof {
            if plain_file_name(file_name@) {
                assert(parts_of(candidate) == download_candidate(dir, file_name@, index as nat));
            }
        }
        let occupied = path_exists(&candidate);
        match search_step(index, occupied, 4294967295) {
            SearchStep::Take(_) => {
                proof {
                    if plain_file_name(file_name@) {
                        assert(parts_of(candidate) == download_candidate(dir, file_name@, index as nat));
                    }
                }
                return Some(candidate);
            },
            SearchStep::Next(n) => {
                proof {
                    if plain_file_name(file_name@) {
                        assert(probed_occupied(
                            download_dir.base,
                            download_candidate(dir, file_name@, index as nat),
                        ));
                        assert forall|m: nat| m < n implies probed_occupied(
                            download_dir.base,
                            #[trigger] download_candidate(dir, file_name@, m),
                        ) by {
                            if m < index {
                            } else {
                                assert(m == index);
                            }
                        }
                    }
                }
                index = n;
            },
            SearchStep::GiveUp => {
                proof {
                    if plain_file_name(file_name@) {
                        assert(probed_occupied(
                            download_dir.base,
                            download_candidate(dir, file_name@, index as nat),
                        ));
                        assert forall|m: nat| m <= 4294967295 implies probed_occupied(
                            download_dir.base,
                            #[trigger] download_candidate(dir, file_name@, m),
                        ) by {
                            if m < index {
                            } else {
                                assert(m == index);
                            }
                        }
                    }
                }
                return None;
            },
        }
    }
}

/// A download never lands on a path that was found occupied: whatever
/// `make_unique_destination` returns, `path_exists` answered that it was
/// free, and for a plain file name every candidate before it (the name
/// itself, then `<stem> (1)`, `<stem> (2)`, ...) was answered occupied.
pub proof fn lemma_destination_was_found_free(dir: &AppPath, file_name: &str, r: Option<AppPath>)
    requires
        call_ensures(make_unique_destination, (dir, file_name), r),
    ensures
        r matches Some(p) ==> p.base == dir.base && call_ensures(path_exists, (&p,), false),
        r matches Some(p) ==> plain_file_name(file_name@) ==> exists|n: nat|
            n <= 4294967295 && parts_of(p) == download_candidate(parts_of(*dir), file_name@, n)
                && forall|m: nat|
                m < n ==> probed_occupied(
                    dir.base,
                    #[trigger] download_candidate(parts_of(*dir), file_name@, m),
                ),
{
}

// ---------------------------------------------------------------------------
// Which file, which page
// ---------------------------------------------------------------------------

/// The files page of a mod, scrolled to `file_id` when one is given.
pub open spec fn download_page_url_spec(game_domain: Seq<char>, mod_id: nat, file_id: Option<u64>) -> Seq<
    char,
> {
    "https://www.nexusmods.com/"@ + game_domain + "/mods/"@ + decimal(mod_id) + "?tab=files"@ + (
    match file_id {
        Some(f) => "&file_id="@ + decimal(f as nat),
        None => Seq::<char>::empty(),
    })
}

/// The page the browser route opens for a mod's files.
pub fn download_page_url(game_domain: &str, mod_id: u64, file_id: Option<u64>) -> (r: String)
    ensures
        r@ == download_page_url_spec(game_domain@, mod_id as nat, file_id),
{
    let mut v = chars_of("https://www.nexusmods.com/");
    push_all(&mut v, &chars_of(game_domain));
    push_all(&mut v, &chars_of("/mods/"));
    push_all(&mut v, &decimal_chars(mod_id));
    push_all(&mut v, &chars_of("?tab=files"));
    match file_id {
        Some(f) => {
            push_all(&mut v, &chars_of("&file_id="));
            push_all(&mut v, &decimal_chars(f));
        },
        None => {},
    }
    string_of(&v)
}

/// One downloadable file of a mod, as the file list reports it.
#[derive(Debug, Clone)]
pub struct ModFile {
    pub file_id: u64,
    pub category_name: String,
}

/// The file a premium download fetches when none was named: the first in
/// the `MAIN` category (any ASCII case), else the first file at all.
pub open spec fn preferred_file(files: Seq<ModFile>) -> Option<u64> {
    if exists|i: int| 0 <= i < files.len() && eq_ignore_ascii_case(#[trigger] files[i].category_name@, "MAIN"@) {
        let i = choose|i: int|
            0 <= i < files.len() && eq_ignore_ascii_case(files[i].category_name@, "MAIN"@) && forall|j: int|
                0 <= j < i ==> !eq_ignore_ascii_case(#[trigger] files[j].category_name@, "MAIN"@);
        Some(files[i].file_id)
    } else if files.len() > 0 {
        Some(files[0].file_id)
    } else {
        None
    }
}

/// The message when a mod has no file to download.
pub open spec fn no_files_message() -> Seq<char> {
    "该 Mod 没有可下载的文件"@
}

/// The id of the file to fetch when none was named: the first `MAIN` file,
/// else the first file; an error when the mod has none.
pub fn preferred_file_id(files: &Vec<ModFile>) -> (r: Result<u64, String>)
    ensures
        r is Ok <==> files.len() > 0,
        r matches Ok(id) ==> preferred_file(files@) == Some(id),
        r matches Err(e) ==> e@ == no_files_message(),
        forall|i: int|
            0 <= i < files.len() && eq_ignore_ascii_case(files@[i].category_name@, "MAIN"@) && (forall|j: int|
                0 <= j < i ==> !eq_ignore_ascii_case(#[trigger] files@[j].category_name@, "MAIN"@))
                ==> r == Ok::<u64, String>(files@[i].file_id),
{
    let main = chars_of("MAIN");
    let mut i: usize = 0;
    while i < files.len()
        invariant
            i <= files.len(),
            main@ == "MAIN"@,
            forall|j: int| 0 <= j < i ==> !eq_ignore_ascii_case(#[trigger] files@[j].category_name@, "MAIN"@),
        decreases files.len() - i,
    {
        if eq_ignore_case_exec(&chars_of(files[i].category_name.as_str()), &main) {
            proof {
                let w = choose|k: int|
                    0 <= k < files@.len() && eq_ignore_ascii_case(files@[k].category_name@, "MAIN"@)
                        && forall|j: int|
                        0 <= j < k ==> !eq_ignore_ascii_case(#[trigger] files@[j].category_name@, "MAIN"@);
                if w < i {
                } else if w > i {
                    assert(!eq_ignore_ascii_case(files@[i as int].category_name@, "MAIN"@));
                }
            }
            return Ok(files[i].file_id);
        }
        i = i + 1;
    }
    if files.len() > 0 {
        Ok(files[0].file_id)
    } else {
        Err(owned("该 Mod 没有可下载的文件"))
    }
}

// ---------------------------------------------------------------------------
// What the user is shown
// ---------------------------------------------------------------------------

/// A state of the download as the main window shows it.
#[derive(Debug, Clone)]
pub struct DownloadState {
    pub phase: String,
    pub message: String,
    pub file_name: Option<String>,
}

/// The view of a download state.
pub open spec fn state_view(s: DownloadState) -> (Seq<char>, Seq<char>, Option<Seq<char>>) {
    (s.phase@, s.message@, opt_chars(s.file_name))
}

fn state_of(phase: &str, message: String, file_name: Option<String>) -> (r: DownloadState)
    ensures
        state_view(r) == (phase@, message@, opt_chars(file_name)),
{
    DownloadState { phase: owned(phase), message, file_name }
}

/// The message of a browser download that failed.
pub open spec fn download_failed_message(file_name: Seq<char>) -> Seq<char> {
    "下载失败: "@ + file_name
}

/// The message of a browser download that left no local file.
pub open spec fn no_local_file_message() -> Seq<char> {
    "下载已完成，但没有返回本地文件路径，无法自动安装"@
}

/// What the browser route does when a download ends.
pub enum FinishedStep {
    /// The download failed: show the error state and send `message` as a
    /// failed-download notice.
    Failed { state: DownloadState, message: String },
    /// No local file came back: show the error state and send `message` as
    /// an install error.
    NoLocalFile { state: DownloadState, message: String },
    /// Install the downloaded archive under `file_name`, closing the
    /// download window once it is installed.
    Install { file_name: String },
}

/// What the browser route does when a download ends. The file is named by
/// the returned path's file name when there is one, else by the URL
/// (`url_file_name`); a failed download is reported, a finished one
/// without a local path is an install error, and any other is installed.
pub fn download_finished(path_file_name: Option<String>, url_file_name: String, success: bool, has_path: bool) -> (r:
    FinishedStep)
    ensures
        ({
            let name = match path_file_name {
                Some(n) => n@,
                None => url_file_name@,
            };
            &&& !success ==> (r matches FinishedStep::Failed { state, message } && message@
                == download_failed_message(name) && state_view(state) == ("error"@, message@, Some(name)))
            &&& success && !has_path ==> (r matches FinishedStep::NoLocalFile { state, message }
                && message@ == no_local_file_message() && state_view(state) == (
                "error"@,
                message@,
                Some(name),
            ))
            &&& success && has_path ==> (r matches FinishedStep::Install { file_name } && file_name@ == name)
        }),
{
    let name = match path_file_name {
        Some(n) => n,
        None => url_file_name,
    };
    if !success {
        let mut v = chars_of("下载失败: ");
        push_all(&mut v, &chars_of(name.as_str()));
        let message = string_of(&v);
        let state = state_of("error", string_of(&v), Some(name));
        return FinishedStep::Failed { state, message };
    }
    if !has_path {
        let message = owned("下载已完成，但没有返回本地文件路径，无法自动安装");
        let state = state_of("error", owned("下载已完成，但没有返回本地文件路径，无法自动安装"), Some(name));
        return FinishedStep::NoLocalFile { state, message };
    }
    FinishedStep::Install { file_name: name }
}

/// What the browser window's navigation tells the user: a login request
/// (with the window shown) on the Nexus login host, the automatic-download
/// notice on a mod page of the main site, nothing elsewhere.
pub open spec fn navigation_notice_spec(host: Seq<char>, path: Seq<char>) -> Option<(Seq<char>, Seq<char>, bool)> {
    if host == "users.nexusmods.com"@ {
        Some(("login-required"@, "请在弹窗中登录 Nexus 账号，登录后将自动继续下载"@, true))
    } else if host == "www.nexusmods.com"@ && crate::text::contains_seq(path, "/mods/"@) {
        Some(("auto-downloading"@, "正在自动下载 Mod，请稍候..."@, false))
    } else {
        None
    }
}

/// A notice for the main window, and whether the download window must be
/// brought to the front.
#[derive(Debug, Clone)]
pub struct NavigationNotice {
    pub state: DownloadState,
    pub show_window: bool,
}

/// What navigating the download window to `host` and `path` tells the
/// user.
pub fn navigation_notice(host: &str, path: &str) -> (r: Option<NavigationNotice>)
    ensures
        r is None <==> navigation_notice_spec(host@, path@) is None,
        r matches Some(n) ==> navigation_notice_spec(host@, path@) == Some(
            (n.state.phase@, n.state.message@, n.show_window),
        ) && n.state.file_name is None,
{
    let h = chars_of(host);
    if crate::text::chars_eq(&h, &chars_of("users.nexusmods.com")) {
        return Some(
            NavigationNotice {
                state: state_of(
                    "login-required",
                    owned("请在弹窗中登录 Nexus 账号，登录后将自动继续下载"),
                    None,
                ),
                show_window: true,
            },
        );
    }
    if crate::text::chars_eq(&h, &chars_of("www.nexusmods.com")) && contains(
        &chars_of(path),
        &chars_of("/mods/"),
    ) {
        return Some(
            NavigationNotice {
                state: state_of("auto-downloading", owned("正在自动下载 Mod，请稍候..."), None),
                show_window: false,
            },
        );
    }
    None
}

/// What the main window is told besides the state line.
#[derive(Debug, Clone)]
pub enum InstallNotice {
    /// Installing failed, with the message.
    InstallError(String),
    /// The file was kept but not installed, with the message.
    DownloadSaved(String),
    /// The mod was installed, with the file name.
    InstallSuccess(String),
}

/// The next step of installing a downloaded file.
#[derive(Debug, Clone)]
pub enum InstallStep {
    /// Show these states, send the notice, and stop.
    Finish { states: Vec<DownloadState>, notice: InstallNotice },
    /// Show these states, then extract the archive into `mods` under the
    /// game directory `game_path`.
    Extract { states: Vec<DownloadState>, game_path: String },
}

/// The kind and text of a notice: 0 for an error, 1 for a kept file, 2
/// for an installed mod.
pub open spec fn notice_view(n: InstallNotice) -> (int, Seq<char>) {
    match n {
        InstallNotice::InstallError(m) => (0, m@),
        InstallNotice::DownloadSaved(m) => (1, m@),
        InstallNotice::InstallSuccess(f) => (2, f@),
    }
}

/// The states of a list, as views.
pub open spec fn state_views(s: Seq<DownloadState>) -> Seq<(Seq<char>, Seq<char>, Option<Seq<char>>)> {
    s.map_values(|x: DownloadState| state_view(x))
}

/// `r` stops after showing `states` and sending `notice`.
pub open spec fn finishes_with(
    r: InstallStep,
    states: Seq<(Seq<char>, Seq<char>, Option<Seq<char>>)>,
    notice: (int, Seq<char>),
) -> bool {
    match r {
        InstallStep::Finish { states: s, notice: n } => state_views(s@) == states && notice_view(n)
            == notice,
        _ => false,
    }
}

/// `r` shows `states`, then extracts into the game directory `game_path`.
pub open spec fn extracts_with(
    r: InstallStep,
    states: Seq<(Seq<char>, Seq<char>, Option<Seq<char>>)>,
    game_path: Seq<char>,
) -> bool {
    match r {
        InstallStep::Extract { states: s, game_path: g } => state_views(s@) == states && g@
            == game_path,
        _ => false,
    }
}

/// The message when the downloaded file is gone.
pub open spec fn missing_file_message(file_name: Seq<char>) -> Seq<char> {
    "下载完成后未找到文件: "@ + file_name
}

/// The message when the downloaded file is not an archive the manager
/// installs.
pub open spec fn not_archive_message(file_name: Seq<char>) -> Seq<char> {
    file_name + " 已下载到临时目录，但不是支持自动安装的归档文件"@
}

/// The state shown while installing.
pub open spec fn installing_message(file_name: Seq<char>) -> Seq<char> {
    "正在安装 "@ + file_name
}

/// The message when no game directory is set.
pub open spec fn no_game_dir_message() -> Seq<char> {
    "尚未设置游戏目录，无法自动安装"@
}

/// The first step of installing the downloaded file `file_name`: stop with
/// an error when it is gone; keep it uninstalled when it is not a supported
/// archive; otherwise announce the installation and extract it into the
/// game directory, or stop with an error when that cannot be read or is
/// not set.
pub fn install_first_step(
    file_name: &str,
    archive_exists: bool,
    supported_archive: bool,
    game_path: Result<Option<String>, String>,
) -> (r: InstallStep)
    ensures
        !archive_exists ==> finishes_with(
            r,
            seq![("error"@, missing_file_message(file_name@), Some(file_name@))],
            (0, missing_file_message(file_name@)),
        ),
        archive_exists && !supported_archive ==> finishes_with(
            r,
            seq![("success"@, not_archive_message(file_name@), Some(file_name@))],
            (1, not_archive_message(file_name@)),
        ),
        archive_exists && supported_archive ==> match game_path {
            Ok(Some(g)) => extracts_with(
                r,
                seq![("installing"@, installing_message(file_name@), Some(file_name@))],
                g@,
            ),
            Ok(None) => finishes_with(
                r,
                seq![
                    ("installing"@, installing_message(file_name@), Some(file_name@)),
                    ("error"@, no_game_dir_message(), Some(file_name@)),
                ],
                (0, no_game_dir_message()),
            ),
            Err(e) => finishes_with(
                r,
                seq![
                    ("installing"@, installing_message(file_name@), Some(file_name@)),
                    ("error"@, e@, Some(file_name@)),
                ],
                (0, e@),
            ),
        },
{
    let f = owned(file_name);
    if !archive_exists {
        let mut m = chars_of("下载完成后未找到文件: ");
        push_all(&mut m, &chars_of(file_name));
        let message = string_of(&m);
        let mut states: Vec<DownloadState> = Vec::new();
        states.push(state_of("error", message.clone(), Some(f)));
        assert(state_views(states@) =~= seq![("error"@, missing_file_message(file_name@), Some(file_name@))]);
        return InstallStep::Finish { states, notice: InstallNotice::InstallError(message) };
    }
    if !supported_archive {
        let mut m = chars_of(file_name);
        push_all(&mut m, &chars_of(" 已下载到临时目录，但不是支持自动安装的归档文件"));
        let message = string_of(&m);
        let mut states: Vec<DownloadState> = Vec::new();
        states.push(state_of("success", message.clone(), Some(f)));
        assert(state_views(states@) =~= seq![("success"@, not_archive_message(file_name@), Some(file_name@))]);
        return InstallStep::Finish { states, notice: InstallNotice::DownloadSaved(message) };
    }
    let mut m = chars_of("正在安装 ");
    push_all(&mut m, &chars_of(file_name));
    let mut states: Vec<DownloadState> = Vec::new();
    states.push(state_of("installing", string_of(&m), Some(f.clone())));
    let ghost first = ("installing"@, installing_message(file_name@), Some(file_name@));
    assert(state_views(states@) =~= seq![first]);
    match game_path {
        Ok(Some(g)) => InstallStep::Extract { states, game_path: g },
        Ok(None) => {
            let message = owned("尚未设置游戏目录，无法自动安装");
            states.push(state_of("error", message.clone(), Some(f)));
            assert(state_views(states@) =~= seq![first, ("error"@, no_game_dir_message(), Some(file_name@))]);
            InstallStep::Finish { states, notice: InstallNotice::InstallError(message) }
        },
        Err(e) => {
            states.push(state_of("error", e.clone(), Some(f)));
            assert(state_views(states@) =~= seq![first, ("error"@, e@, Some(file_name@))]);
            InstallStep::Finish { states, notice: InstallNotice::InstallError(e) }
        },
    }
}

/// The message when the mods directory could not be created.
pub fn mods_dir_error_message(mods_dir: &str, error: &str) -> (r: String)
    ensures
        r@ == "无法创建 Mod 安装目录 "@ + mods_dir@ + ": "@ + error@,
{
    let mut m = chars_of("无法创建 Mod 安装目录 ");
    push_all(&mut m, &chars_of(mods_dir));
    push_all(&mut m, &chars_of(": "));
    push_all(&mut m, &chars_of(error));
    string_of(&m)
}

/// The outcome of installing the archive `file_name`: success with the file
/// name (and the download window closed when `close_window`), or the error.
pub fn install_outcome(file_name: &str, extracted: Result<(), String>, close_window: bool) -> (r: (
    DownloadState,
    InstallNotice,
    bool,
))
    ensures
        extracted is Ok ==> state_view(r.0) == ("success"@, "Mod 已安装: "@ + file_name@, Some(
            file_name@,
        )) && (r.1 matches InstallNotice::InstallSuccess(n) && n@ == file_name@) && r.2
            == close_window,
        extracted matches Err(e) ==> state_view(r.0) == ("error"@, e@, Some(file_name@)) && (
        r.1 matches InstallNotice::InstallError(m) && m@ == e@) && !r.2,
{
    match extracted {
        Ok(()) => {
            let mut m = chars_of("Mod 已安装: ");
            push_all(&mut m, &chars_of(file_name));
            (
                state_of("success", string_of(&m), Some(owned(file_name))),
                InstallNotice::InstallSuccess(owned(file_name)),
                close_window,
            )
        },
        Err(e) => (
            state_of("error", e.clone(), Some(owned(file_name))),
            InstallNotice::InstallError(e),
            false,
        ),
    }
}

// ---------------------------------------------------------------------------
// Which route
// ---------------------------------------------------------------------------

/// What the download driver does next.
#[derive(Debug, Clone, PartialEq, Eq)]
pub enum DownloadAction {
    /// Look up the mod's preferred file.
    ResolveFile,
    /// Fetch the file with this id through the premium API.
    FetchDirect(u64),
    /// Tell the user the direct route failed, forget the premium status,
    /// and open the browser route.
    FallBack,
    /// Open the browser route.
    OpenBrowser,
    /// Nothing is left to do.
    Done,
}

/// What the driver learned from its last action.
#[derive(Debug)]
pub enum DownloadEvent {
    /// The download was requested; `premium` says whether the account may
    /// use the direct route, `file_id` which file was named.
    Start { premium: bool, file_id: Option<u64> },
    /// The preferred-file lookup answered.
    Resolved(Option<u64>),
    /// The direct fetch ended.
    Fetched(Result<(), String>),
}

/// The next action of a download: premium accounts fetch directly (the
/// named file, else the preferred one when it can be found), everyone else
/// and every failed direct fetch goes through the browser.
pub open spec fn next_download_action_spec(event: DownloadEvent) -> DownloadAction {
    match event {
        DownloadEvent::Start { premium, file_id } => if !premium {
            DownloadAction::OpenBrowser
        } else {
            match file_id {
                Some(id) => DownloadAction::FetchDirect(id),
                None => DownloadAction::ResolveFile,
            }
        },
        DownloadEvent::Resolved(found) => match found {
            Some(id) => DownloadAction::FetchDirect(id),
            None => DownloadAction::OpenBrowser,
        },
        DownloadEvent::Fetched(result) => match result {
            Ok(()) => DownloadAction::Done,
            Err(_) => DownloadAction::FallBack,
        },
    }
}

/// The next action of a download after `event`.
pub fn next_download_action(event: DownloadEvent) -> (r: DownloadAction)
    ensures
        r == next_download_action_spec(event),
{
    match event {
        DownloadEvent::Start { premium, file_id } => if !premium {
            DownloadAction::OpenBrowser
        } else {
            match file_id {
                Some(id) => DownloadAction::FetchDirect(id),
                None => DownloadAction::ResolveFile,
            }
        },
        DownloadEvent::Resolved(found) => match found {
            Some(id) => DownloadAction::FetchDirect(id),
            None => DownloadAction::OpenBrowser,
        },
        DownloadEvent::Fetched(result) => match result {
            Ok(()) => DownloadAction::Done,
            Err(_) => DownloadAction::FallBack,
        },
    }
}

/// The state shown when the direct route failed and the browser takes over.
pub fn fallback_state() -> (r: DownloadState)
    ensures
        state_view(r) == ("preparing"@, "直链下载失败，切换为浏览器下载方式..."@, None::<Seq<char>>),
{
    state_of("preparing", owned("直链下载失败，切换为浏览器下载方式..."), None)
}

/// Every download ends in the browser route or is done: a run of the driver
/// from any start reaches `Done` or `OpenBrowser` within three events,
/// whatever the lookups and fetches answer.
pub proof fn lemma_download_route_ends(premium: bool, file_id: Option<u64>, resolved: Option<u64>, fetched: Result<(), String>)
    ensures
        ({
            let a0 = next_download_action_spec(DownloadEvent::Start { premium, file_id });
            let a1 = if a0 is ResolveFile {
                next_download_action_spec(DownloadEvent::Resolved(resolved))
            } else {
                a0
            };
            let a2 = if a1 is FetchDirect {
                next_download_action_spec(DownloadEvent::Fetched(fetched))
            } else {
                a1
            };
            a2 is Done || a2 is FallBack || a2 is OpenBrowser
        }),
        !premium ==> next_download_action_spec(DownloadEvent::Start { premium, file_id })
            is OpenBrowser,
{
}

} // verus!
