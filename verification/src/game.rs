//! Launching a game and following its state, reading its version from its
//! logs, and choosing which log files to show.

use vstd::prelude::*;
use crate::text::opt_chars;
use crate::game_profile::GameProfile;
use crate::paths::{appdata_dir, join, parts_of, AppPath};
use crate::text::{owned, 
    chars_of, concat_chars, contains, contains_seq, decimal, decimal_chars, ends_with, find,
    first_occurrence, lines, lowercase, occurs_at, push_all, slice_chars, split_lines,
    starts_with, string_of, to_lowercase, trim, trim_chars, views,
};

verus! {

// ---------------------------------------------------------------------------
// Launching
// ---------------------------------------------------------------------------

/// The answer to a launch request.
#[derive(Debug, Clone)]
pub struct LaunchResult {
    pub success: bool,
    pub error: Option<String>,
    pub method: Option<String>,
}

/// The state of the game as the manager follows it.
#[derive(Debug, Clone, Copy, PartialEq, Eq)]
pub enum GameState {
    Idle,
    Launching,
    Running,
}

impl GameState {
    /// The state's name: `idle`, `launching` or `running`.
    pub fn as_str(&self) -> (r: &'static str)
        ensures
            r@ == state_name(*self),
    {
        match self {
            GameState::Idle => "idle",
            GameState::Launching => "launching",
            GameState::Running => "running",
        }
    }
}

/// The name of a state.
pub open spec fn state_name(s: GameState) -> Seq<char> {
    match s {
        GameState::Idle => "idle"@,
        GameState::Launching => "launching"@,
        GameState::Running => "running"@,
    }
}

/// The profile names a process to look for.
pub fn has_process_detection(profile: Option<&GameProfile>) -> (r: bool)
    ensures
        r == (profile matches Some(p) && p.process_name is Some),
{
    match profile {
        Some(p) => p.process_name.is_some(),
        None => false,
    }
}

/// How a game is launched.
#[derive(Debug, Clone)]
pub enum LaunchMethod {
    /// Through Steam, with the game's app id.
    Steam(u64),
    /// By running the executable `exe_name` in the game directory.
    Direct { game_path: String, exe_name: String },
    /// No way is configured.
    Unavailable,
}

/// The launch method for a game: Steam when it has an app id and its
/// directory is unknown or lies under a `steamapps` folder (in any letter
/// case); else the executable when both directory and executable are known;
/// else Steam when there is an app id.
pub open spec fn launch_method_of(
    steam_app_id: Option<u64>,
    game_path: Option<Seq<char>>,
    exe_name: Option<Seq<char>>,
) -> LaunchMethodModel {
    if steam_app_id is Some && (game_path is None || contains_seq(
        lowercase(game_path->0),
        "steamapps"@,
    )) {
        LaunchMethodModel::Steam(steam_app_id->0)
    } else if game_path is Some && exe_name is Some {
        LaunchMethodModel::Direct(game_path->0, exe_name->0)
    } else if steam_app_id is Some {
        LaunchMethodModel::Steam(steam_app_id->0)
    } else {
        LaunchMethodModel::Unavailable
    }
}

/// The model of a launch method.
pub enum LaunchMethodModel {
    Steam(u64),
    Direct(Seq<char>, Seq<char>),
    Unavailable,
}

/// The model of a launch method.
pub open spec fn method_model(m: LaunchMethod) -> LaunchMethodModel {
    match m {
        LaunchMethod::Steam(id) => LaunchMethodModel::Steam(id),
        LaunchMethod::Direct { game_path, exe_name } => LaunchMethodModel::Direct(
            game_path@,
            exe_name@,
        ),
        LaunchMethod::Unavailable => LaunchMethodModel::Unavailable,
    }
}

/// Chooses how to launch a game.
pub fn plan_launch(
    steam_app_id: Option<u64>,
    game_path: Option<String>,
    exe_name: Option<String>,
) -> (r: LaunchMethod)
    ensures
        method_model(r) == launch_method_of(steam_app_id, opt_chars(game_path), opt_chars(exe_name)),
{
    let under_steam = match &game_path {
        Some(p) => {
            let lower = to_lowercase(p.as_str());
            contains(&chars_of(lower.as_str()), &chars_of("steamapps"))
        },
        None => true,
    };
    if steam_app_id.is_some() && under_steam {
        return LaunchMethod::Steam(steam_app_id.unwrap());
    }
    match (game_path, exe_name) {
        (Some(game_path), Some(exe_name)) => LaunchMethod::Direct { game_path, exe_name },
        _ => match steam_app_id {
            Some(id) => LaunchMethod::Steam(id),
            None => LaunchMethod::Unavailable,
        },
    }
}

/// The Steam URL that launches the game with app id `id`.
pub fn steam_url(id: u64) -> (r: String)
    ensures
        r@ == "steam://rungameid/"@ + decimal(id as nat),
{
    let mut out = chars_of("steam://rungameid/");
    push_all(&mut out, &decimal_chars(id));
    string_of(&out)
}


/// A refused launch with the message `error`.
pub fn launch_refused(error: String) -> (r: LaunchResult)
    ensures
        !r.success && r.error == Some(error) && r.method is None,
{
    LaunchResult { success: false, error: Some(error), method: None }
}

/// The answer to a request made while the game is not idle.
pub fn launch_busy() -> (r: LaunchResult)
    ensures
        !r.success,
        r.method is None,
        r.error matches Some(e) && e@ == "game is already running"@,
{
    launch_refused(owned("game is already running"))
}

/// The answer to a request made with no game selected.
pub fn launch_without_game() -> (r: LaunchResult)
    ensures
        !r.success,
        r.method is None,
        r.error matches Some(e) && e@ == "no game selected"@,
{
    launch_refused(owned("no game selected"))
}

/// The answer to a request for a game with no launch method.
pub fn launch_unavailable() -> (r: LaunchResult)
    ensures
        !r.success,
        r.method is None,
        r.error matches Some(e) && e@ == "this game does not have a configured launch method"@,
{
    launch_refused(owned("this game does not have a configured launch method"))
}

/// The answer when the executable at `exe_path` does not exist.
pub fn launch_missing_exe(exe_path: &str) -> (r: LaunchResult)
    ensures
        !r.success,
        r.method is None,
        r.error matches Some(e) && e@ == "game executable not found: "@ + exe_path@,
{
    let mut m = chars_of("game executable not found: ");
    push_all(&mut m, &chars_of(exe_path));
    launch_refused(string_of(&m))
}

/// The answer to a launch that started, by Steam or directly.
pub fn launch_started(by_steam: bool) -> (r: LaunchResult)
    ensures
        r.success,
        r.error is None,
        r.method matches Some(m) && m@ == (if by_steam {
            "steam"@
        } else {
            "direct"@
        }),
{
    let method = if by_steam {
        owned("steam")
    } else {
        owned("direct")
    };
    LaunchResult { success: true, error: None, method: Some(method) }
}

/// The launch the game gets, or the answer refusing it: refused while the
/// game is not idle, when no game is selected, and when the game has no way
/// to launch; otherwise the way `plan_launch` picks for its Steam id,
/// directory and executable.
pub fn begin_launch(state: GameState, profile: Option<&GameProfile>, game_path: Option<String>) -> (r:
    Result<LaunchMethod, LaunchResult>)
    ensures
        state != GameState::Idle ==> (r matches Err(a) && !a.success && a.method is None && (
        a.error matches Some(e) && e@ == "game is already running"@)),
        state == GameState::Idle && profile is None ==> (r matches Err(a) && !a.success
            && a.method is None && (a.error matches Some(e) && e@ == "no game selected"@)),
        state == GameState::Idle && profile is Some ==> match launch_method_of(
            profile->0.steam_app_id,
            opt_chars(game_path),
            opt_chars(profile->0.exe_name),
        ) {
            LaunchMethodModel::Unavailable => r matches Err(a) && !a.success && a.method is None
                && (a.error matches Some(e) && e@
                == "this game does not have a configured launch method"@),
            m => r matches Ok(method) && method_model(method) == m,
        },
{
    match state {
        GameState::Idle => {},
        _ => return Err(launch_busy()),
    }
    let p = match profile {
        Some(p) => p,
        None => return Err(launch_without_game()),
    };
    let method = plan_launch(p.steam_app_id, game_path, p.exe_name.clone());
    match method {
        LaunchMethod::Unavailable => Err(launch_unavailable()),
        _ => Ok(method),
    }
}

/// The answer to a launch that started and the state it leaves: by Steam
/// or directly, and `launching` when the game's process can be watched.
pub fn finish_launch(by_steam: bool, profile: &GameProfile) -> (r: (LaunchResult, GameState))
    ensures
        r.0.success && r.0.error is None,
        r.0.method matches Some(m) && m@ == (if by_steam {
            "steam"@
        } else {
            "direct"@
        }),
        r.1 == (if profile.process_name is Some {
            GameState::Launching
        } else {
            GameState::Idle
        }),
{
    let detection = has_process_detection(Some(profile));
    (launch_started(by_steam), state_after_launch(detection))
}

/// The state after a launch started: launching when the game's process can
/// be watched, idle otherwise.
pub fn state_after_launch(detection: bool) -> (r: GameState)
    ensures
        r == (if detection {
            GameState::Launching
        } else {
            GameState::Idle
        }),
{
    if detection {
        GameState::Launching
    } else {
        GameState::Idle
    }
}

/// The next state when the state is polled: with no process to watch it is
/// idle; a launching game becomes running once its process appears; a
/// running game becomes idle once its process is gone; an idle game whose
/// process appears is running.
pub open spec fn next_state(current: GameState, detection: bool, running: bool) -> GameState {
    if !detection {
        GameState::Idle
    } else {
        match current {
            GameState::Launching => if running {
                GameState::Running
            } else {
                GameState::Launching
            },
            GameState::Running => if running {
                GameState::Running
            } else {
                GameState::Idle
            },
            GameState::Idle => if running {
                GameState::Running
            } else {
                GameState::Idle
            },
        }
    }
}

/// Polls the state: the new state, which is also the state reported.
pub fn poll_game_state(current: GameState, detection: bool, running: bool) -> (r: GameState)
    ensures
        r == next_state(current, detection, running),
{
    if !detection {
        return GameState::Idle;
    }
    match current {
        GameState::Launching => if running {
            GameState::Running
        } else {
            GameState::Launching
        },
        GameState::Running => if running {
            GameState::Running
        } else {
            GameState::Idle
        },
        GameState::Idle => if running {
            GameState::Running
        } else {
            GameState::Idle
        },
    }
}

/// Polling settles at once: polling again with the same observation
/// changes nothing; without process detection the game is always idle, and
/// a running process always makes it running.
pub proof fn lemma_poll_settles(current: GameState, detection: bool, running: bool)
    ensures
        next_state(next_state(current, detection, running), detection, running) == next_state(
            current,
            detection,
            running,
        ),
        !detection ==> next_state(current, detection, running) == GameState::Idle,
        detection && running ==> next_state(current, detection, running) == GameState::Running,
{
}

/// Some process name contains `wanted`.
pub open spec fn any_contains(names: Seq<Seq<char>>, wanted: Seq<char>) -> bool {
    exists|i: int| 0 <= i < names.len() && contains_seq(names[i], wanted)
}

/// Whether a process whose name contains `wanted` is running, given the
/// names of the running processes.
pub fn any_process_named(names: &Vec<String>, wanted: &str) -> (r: bool)
    ensures
        r == any_contains(names@.map_values(|s: String| s@), wanted@),
{
    let ghost nv = names@.map_values(|s: String| s@);
    let w = chars_of(wanted);
    let mut i: usize = 0;
    while i < names.len()
        invariant
            i <= names.len(),
            nv == names@.map_values(|s: String| s@),
            w@ == wanted@,
            forall|t: int| 0 <= t < i ==> !contains_seq(nv[t], wanted@),
        decreases names.len() - i,
    {
        assert(nv[i as int] == names@[i as int]@);
        if contains(&chars_of(names[i].as_str()), &w) {
            return true;
        }
        i = i + 1;
    }
    false
}

// ---------------------------------------------------------------------------
// Log files
// ---------------------------------------------------------------------------

/// The logs directory of a profile under the platform configuration
/// directory `appdata`: `<appdata>/<appdata_dir_name>/<logs_subdir>`, when
/// log browsing is enabled and both names are known.
pub fn logs_dir_under(appdata: Option<AppPath>, profile: &GameProfile) -> (r: Option<AppPath>)
    ensures
        r is Some <==> (profile.logs_enabled && appdata is Some && profile.appdata_dir_name is Some
            && profile.logs_subdir is Some),
        r matches Some(p) ==> p.base == appdata->0.base && parts_of(p) == parts_of(appdata->0)
            + seq![profile.appdata_dir_name->0@, profile.logs_subdir->0@],
{
    if !profile.logs_enabled {
        return None;
    }
    let base = match appdata {
        Some(a) => a,
        None => return None,
    };
    match (&profile.appdata_dir_name, &profile.logs_subdir) {
        (Some(d), Some(l)) => {
            let p1 = join(&base, d.as_str());
            let p2 = join(&p1, l.as_str());
            assert(parts_of(p2) =~= parts_of(base) + seq![d@, l@]);
            Some(p2)
        },
        _ => None,
    }
}

/// The logs directory of a profile under the platform configuration
/// directory: none when log browsing is off or either name is unknown;
/// otherwise there is one exactly when the platform reports a
/// configuration directory.
pub fn profile_logs_dir(profile: &GameProfile) -> (r: Option<AppPath>)
    ensures
        !(profile.logs_enabled && profile.appdata_dir_name is Some && profile.logs_subdir is Some)
            ==> r is None,
        r matches Some(p) ==> profile.logs_enabled && p.base is Dir && parts_of(p) == seq![
            profile.appdata_dir_name->0@,
            profile.logs_subdir->0@,
        ],
{
    let a = appdata_dir();
    let r = logs_dir_under(a, profile);
    proof {
        if r is Some {
            assert(parts_of(r->0) =~= seq![profile.appdata_dir_name->0@, profile.logs_subdir->0@]);
        }
    }
    r
}

/// A file name and its modification time in milliseconds.
pub open spec fn entry_views(v: Seq<(String, u64)>) -> Seq<(Seq<char>, u64)> {
    v.map_values(|e: (String, u64)| (e.0@, e.1))
}

/// How many leading entries of `es` are at least as recent as `t`.
pub open spec fn recent_pos(es: Seq<(Seq<char>, u64)>, t: u64) -> nat
    decreases es.len(),
{
    if es.len() == 0 {
        0
    } else if es[0].1 >= t {
        1 + recent_pos(es.drop_first(), t)
    } else {
        0
    }
}

/// `es` sorted by modification time, most recent first, entries with equal
/// times kept in their order (a stable sort).
pub open spec fn sort_by_recency(es: Seq<(Seq<char>, u64)>) -> Seq<(Seq<char>, u64)>
    decreases es.len(),
{
    if es.len() == 0 {
        Seq::empty()
    } else {
        let sorted = sort_by_recency(es.drop_last());
        sorted.insert(recent_pos(sorted, es.last().1) as int, es.last())
    }
}

proof fn lemma_recent_pos(es: Seq<(Seq<char>, u64)>, t: u64, p: int)
    requires
        0 <= p <= es.len(),
        forall|k: int| 0 <= k < p ==> es[k].1 >= t,
        p == es.len() || es[p].1 < t,
    ensures
        recent_pos(es, t) == p,
    decreases p,
{
    if p > 0 {
        lemma_recent_pos(es.drop_first(), t, p - 1);
    }
}

proof fn lemma_recent_pos_splits(es: Seq<(Seq<char>, u64)>, t: u64)
    ensures
        recent_pos(es, t) <= es.len(),
        forall|k: int| 0 <= k < recent_pos(es, t) ==> (#[trigger] es[k]).1 >= t,
        recent_pos(es, t) < es.len() ==> es[recent_pos(es, t) as int].1 < t,
    decreases es.len(),
{
    if es.len() > 0 && es[0].1 >= t {
        lemma_recent_pos_splits(es.drop_first(), t);
        assert forall|k: int| 0 <= k < recent_pos(es, t) implies (#[trigger] es[k]).1 >= t by {
            if k > 0 {
                assert(es[k] == es.drop_first()[k - 1]);
            }
        }
        if recent_pos(es, t) < es.len() {
            assert(es[recent_pos(es, t) as int] == es.drop_first()[recent_pos(es.drop_first(), t) as int]);
        }
    }
}

/// Entries are in order of decreasing modification time.
pub open spec fn newest_first(es: Seq<(Seq<char>, u64)>) -> bool {
    forall|i: int, j: int| 0 <= i < j < es.len() ==> (#[trigger] es[i]).1 >= (#[trigger] es[j]).1
}

/// Listing logs by recency keeps every entry exactly once and puts them in
/// order of decreasing modification time.
pub proof fn lemma_recency_order(es: Seq<(Seq<char>, u64)>)
    ensures
        newest_first(sort_by_recency(es)),
        sort_by_recency(es).to_multiset() == es.to_multiset(),
    decreases es.len(),
{
    if es.len() > 0 {
        let prev = es.drop_last();
        lemma_recency_order(prev);
        let sorted = sort_by_recency(prev);
        let e = es.last();
        let p = recent_pos(sorted, e.1);
        lemma_recent_pos_splits(sorted, e.1);
        let out = sorted.insert(p as int, e);
        assert forall|i: int, j: int| 0 <= i < j < out.len() implies (#[trigger] out[i]).1 >= (
        #[trigger] out[j]).1 by {
            if j < p {
                assert(out[i] == sorted[i] && out[j] == sorted[j]);
            } else if j == p {
                assert(out[i] == sorted[i]);
            } else if i < p {
                assert(out[i] == sorted[i] && out[j] == sorted[j - 1]);
            } else if i == p {
                assert(out[j] == sorted[j - 1]);
                assert(sorted[p as int].1 < e.1);
                if j - 1 > p {
                    assert(sorted[p as int].1 >= sorted[j - 1].1);
                }
            } else {
                assert(out[i] == sorted[i - 1] && out[j] == sorted[j - 1]);
            }
        }
        vstd::seq_lib::to_multiset_insert(sorted, p as int, e);
        assert(es =~= prev.push(e));
        vstd::seq_lib::to_multiset_build(prev, e);
        assert(sort_by_recency(es) == out);
        assert(out.to_multiset() =~= es.to_multiset());
    } else {
        assert(sort_by_recency(es) =~= es);
    }
}

/// Sorts entries by modification time, most recent first, stably.
pub fn sort_recent_first(items: Vec<(String, u64)>) -> (r: Vec<(String, u64)>)
    ensures
        entry_views(r@) == sort_by_recency(entry_views(items@)),
{
    let ghost iv = entry_views(items@);
    let mut out: Vec<(String, u64)> = Vec::new();
    let mut rest = items;
    let n = rest.len();
    let mut i: usize = 0;
    assert(iv.take(0) =~= Seq::<(Seq<char>, u64)>::empty());
    assert(entry_views(out@) =~= Seq::<(Seq<char>, u64)>::empty());
    while i < n
        invariant
            i <= n,
            n == iv.len(),
            rest@.len() == n - i,
            forall|t: int| 0 <= t < n - i ==> (#[trigger] rest@[t].0@, rest@[t].1) == iv[i + t],
            entry_views(out@) == sort_by_recency(iv.take(i as int)),
        decreases n - i,
    {
        let item = rest.remove(0);
        assert((item.0@, item.1) == iv[i as int]);
        let t = item.1;
        let ghost ov = entry_views(out@);
        let mut p: usize = 0;
        while p < out.len() && out[p].1 >= t
            invariant
                p <= out.len(),
                ov == entry_views(out@),
                forall|k: int| 0 <= k < p ==> ov[k].1 >= t,
            decreases out.len() - p,
        {
            assert(ov[p as int] == (out@[p as int].0@, out@[p as int].1));
            p = p + 1;
        }
        proof {
            if p < out.len() {
                assert(ov[p as int] == (out@[p as int].0@, out@[p as int].1));
            }
            lemma_recent_pos(ov, t, p as int);
            assert(iv.take(i + 1).drop_last() =~= iv.take(i as int));
            assert(iv.take(i + 1).last() == iv[i as int]);
        }
        out.insert(p, item);
        assert(entry_views(out@) =~= ov.insert(p as int, (item.0@, item.1)));
        i = i + 1;
    }
    assert(iv.take(n as int) =~= iv);
    out
}

/// A game log file of the kind the version and crash readers use:
/// `godot2*.log`.
pub open spec fn is_godot_log(name: Seq<char>) -> bool {
    "godot2"@.is_prefix_of(name) && ".log"@.is_suffix_of(name)
}

/// Any `*.log` file.
pub open spec fn is_log(name: Seq<char>) -> bool {
    ".log"@.is_suffix_of(name)
}

/// The entries whose names pass `keep`, in order.
pub open spec fn keep_entries(es: Seq<(Seq<char>, u64)>, godot_only: bool) -> Seq<(Seq<char>, u64)> {
    es.filter(|e: (Seq<char>, u64)| if godot_only { is_godot_log(e.0) } else { is_log(e.0) })
}

fn filter_logs(entries: Vec<(String, u64)>, godot_only: bool) -> (r: Vec<(String, u64)>)
    ensures
        entry_views(r@) == keep_entries(entry_views(entries@), godot_only),
{
    let ghost ev = entry_views(entries@);
    let pre = chars_of("godot2");
    let suf = chars_of(".log");
    let mut out: Vec<(String, u64)> = Vec::new();
    let mut rest = entries;
    let n = rest.len();
    let mut i: usize = 0;
    assert(ev.take(0) =~= Seq::<(Seq<char>, u64)>::empty());
    assert(entry_views(out@) =~= Seq::<(Seq<char>, u64)>::empty());
    while i < n
        invariant
            i <= n,
            n == ev.len(),
            pre@ == "godot2"@,
            suf@ == ".log"@,
            rest@.len() == n - i,
            forall|t: int| 0 <= t < n - i ==> (#[trigger] rest@[t].0@, rest@[t].1) == ev[i + t],
            entry_views(out@) == keep_entries(ev.take(i as int), godot_only),
        decreases n - i,
    {
        let item = rest.remove(0);
        assert((item.0@, item.1) == ev[i as int]);
        let name = chars_of(item.0.as_str());
        let keep = if godot_only {
            starts_with(&name, &pre) && ends_with(&name, &suf)
        } else {
            ends_with(&name, &suf)
        };
        proof {
            let f = |e: (Seq<char>, u64)|
                if godot_only {
                    is_godot_log(e.0)
                } else {
                    is_log(e.0)
                };
            assert(ev.take(i + 1).drop_last() =~= ev.take(i as int));
            assert(ev.take(i + 1).last() == ev[i as int]);
            assert(ev.take(i + 1).filter(f) == if f(ev[i as int]) {
                ev.take(i as int).filter(f).push(ev[i as int])
            } else {
                ev.take(i as int).filter(f)
            }) by {
                reveal(Seq::filter);
            }
        }
        if keep {
            let ghost before = out@;
            out.push(item);
            assert(entry_views(out@) =~= entry_views(before).push((item.0@, item.1)));
        }
        i = i + 1;
    }
    assert(ev.take(n as int) =~= ev);
    out
}

/// The names of `es`.
pub open spec fn names_of(es: Seq<(Seq<char>, u64)>) -> Seq<Seq<char>> {
    es.map_values(|e: (Seq<char>, u64)| e.0)
}

fn names(entries: &Vec<(String, u64)>, limit: usize) -> (r: Vec<String>)
    ensures
        r@.map_values(|s: String| s@) == names_of(entry_views(entries@)).take(
            if entries@.len() < limit { entries@.len() as int } else { limit as int },
        ),
{
    let ghost nv = names_of(entry_views(entries@));
    let end = if entries.len() < limit {
        entries.len()
    } else {
        limit
    };
    let mut out: Vec<String> = Vec::new();
    let mut i: usize = 0;
    while i < end
        invariant
            i <= end <= entries.len(),
            nv == names_of(entry_views(entries@)),
            out@.map_values(|s: String| s@) == nv.take(i as int),
        decreases end - i,
    {
        let ghost before = out@;
        let name = entries[i].0.clone();
        out.push(name);
        assert(nv[i as int] == entries@[i as int].0@);
        assert(out@.map_values(|s: String| s@) =~= before.map_values(|s: String| s@).push(name@));
        assert(nv.take(i + 1) =~= nv.take(i as int).push(nv[i as int]));
        i = i + 1;
    }
    out
}

/// The `*.log` files of a logs directory, most recent first, at most 50.
pub fn latest_log_names(entries: Vec<(String, u64)>) -> (r: Vec<String>)
    ensures
        r@.map_values(|s: String| s@) == names_of(
            sort_by_recency(keep_entries(entry_views(entries@), false)),
        ).take(
            if sort_by_recency(keep_entries(entry_views(entries@), false)).len() < 50 {
                sort_by_recency(keep_entries(entry_views(entries@), false)).len() as int
            } else {
                50
            },
        ),
{
    let kept = filter_logs(entries, false);
    let sorted = sort_recent_first(kept);
    names(&sorted, 50)
}

/// The log a crash report reads, from the logs directory's entries (name
/// and modification time): none when crash analysis is off or no logs
/// directory was found; else the most recent Godot log, if there is one.
pub open spec fn crash_log_choice(enabled: bool, dir_found: bool, entries: Seq<(Seq<char>, u64)>) -> Option<
    Seq<char>,
> {
    let logs = names_of(sort_by_recency(keep_entries(entries, true)));
    if !enabled || !dir_found || logs.len() == 0 {
        None
    } else {
        Some(logs[0])
    }
}

/// The log a crash report reads (see `crash_log_choice`).
pub fn crash_log_to_read(crash_analysis_enabled: bool, logs_dir_found: bool, entries: Vec<(String, u64)>) -> (r:
    Option<String>)
    ensures
        opt_chars(r) == crash_log_choice(crash_analysis_enabled, logs_dir_found, entry_views(entries@)),
{
    if !crash_analysis_enabled || !logs_dir_found {
        return None;
    }
    let logs = godot_logs_by_recency(entries);
    if logs.len() == 0 {
        None
    } else {
        assert(logs@.map_values(|s: String| s@)[0] == logs@[0]@);
        Some(owned(logs[0].as_str()))
    }
}

/// The `godot2*.log` files of a logs directory, most recent first.
pub fn godot_logs_by_recency(entries: Vec<(String, u64)>) -> (r: Vec<String>)
    ensures
        r@.map_values(|s: String| s@) == names_of(
            sort_by_recency(keep_entries(entry_views(entries@), true)),
        ),
{
    let kept = filter_logs(entries, true);
    let sorted = sort_recent_first(kept);
    let r = names(&sorted, sorted.len());
    assert(names_of(entry_views(sorted@)).take(sorted@.len() as int) =~= names_of(
        entry_views(sorted@),
    ));
    r
}

/// The files the version reader tries, in order: the `godot2*.log` files,
/// most recent first, then `godot.log`.
pub fn version_log_candidates(entries: Vec<(String, u64)>) -> (r: Vec<String>)
    ensures
        r@.map_values(|s: String| s@) == names_of(
            sort_by_recency(keep_entries(entry_views(entries@), true)),
        ).push("godot.log"@),
{
    let mut r = godot_logs_by_recency(entries);
    let ghost before = r@;
    let g = owned("godot.log");
    r.push(g);
    assert(r@.map_values(|s: String| s@) =~= before.map_values(|s: String| s@).push(g@));
    r
}

// ---------------------------------------------------------------------------
// Log text
// ---------------------------------------------------------------------------

/// The version information in a log.
#[derive(Debug, Clone)]
pub struct GameVersion {
    pub version: Option<String>,
    pub engine: Option<String>,
}

/// The text after the first `marker` of a line, trimmed.
pub open spec fn value_after(l: Seq<char>, marker: Seq<char>) -> Option<Seq<char>> {
    match first_occurrence(l, marker) {
        Some(i) => Some(trim(l.skip(i + marker.len()))),
        None => None,
    }
}

/// The release and engine versions the lines give: for each, the value on
/// the last line that has its marker.
pub open spec fn versions_of(ls: Seq<Seq<char>>) -> (Option<Seq<char>>, Option<Seq<char>>)
    decreases ls.len(),
{
    if ls.len() == 0 {
        (None, None)
    } else {
        let (v, e) = versions_of(ls.drop_last());
        let l = ls.last();
        (
            match value_after(l, "Release Version:"@) {
                Some(x) => Some(x),
                None => v,
            },
            match value_after(l, "Engine Version:"@) {
                Some(x) => Some(x),
                None => e,
            },
        )
    }
}

fn value_after_exec(l: &Vec<char>, marker: &str) -> (r: Option<Vec<char>>)
    ensures
        match value_after(l@, marker@) {
            Some(x) => r matches Some(v) && v@ == x,
            None => r is None,
        },
{
    let m = chars_of(marker);
    match find(l, &m) {
        Some(i) => {
            assert(occurs_at(l@, m@, i as int));
            assert(i + m@.len() <= l@.len());
            let n = l.len();
            let k = m.len();
            let tail = slice_chars(l, i + k, n);
            assert(tail@ =~= l@.skip(i + m@.len()));
            Some(trim_chars(&tail))
        },
        None => None,
    }
}

/// Reads the release and engine versions from the text of a log tail.
pub fn parse_version_info(text: &str) -> (r: GameVersion)
    ensures
        (opt_chars(r.version), opt_chars(r.engine)) == versions_of(lines(text@)),
{
    let ls = split_lines(&chars_of(text));
    let ghost lv = views(ls@);
    let mut version: Option<String> = None;
    let mut engine: Option<String> = None;
    let mut i: usize = 0;
    assert(lv.take(0) =~= Seq::<Seq<char>>::empty());
    while i < ls.len()
        invariant
            i <= ls.len(),
            lv == views(ls@),
            (opt_chars(version), opt_chars(engine)) == versions_of(lv.take(i as int)),
        decreases ls.len() - i,
    {
        let l = &ls[i];
        assert(lv.take(i + 1).drop_last() =~= lv.take(i as int));
        assert(lv.take(i + 1).last() == l@);
        match value_after_exec(l, "Release Version:") {
            Some(v) => {
                version = Some(string_of(&v));
            },
            None => {},
        }
        match value_after_exec(l, "Engine Version:") {
            Some(v) => {
                engine = Some(string_of(&v));
            },
            None => {},
        }
        i = i + 1;
    }
    assert(lv.take(ls.len() as int) =~= lv);
    GameVersion { version, engine }
}

/// A log tail cut at an arbitrary byte: the part after its first newline,
/// with a note that the log was truncated; the whole text when it has no
/// newline.
pub open spec fn truncated_tail(text: Seq<char>) -> Seq<char> {
    match first_occurrence(text, "\n"@) {
        Some(i) => "[... log truncated, showing tail only ...]\n"@ + text.skip(i + 1),
        None => text,
    }
}

/// The text shown for the tail of a log too large to show whole.
pub fn truncate_log_tail(text: &str) -> (r: String)
    ensures
        r@ == truncated_tail(text@),
{
    let t = chars_of(text);
    let nl = chars_of("\n");
    proof {
        reveal_strlit("\n");
    }
    match find(&t, &nl) {
        Some(i) => {
            assert(occurs_at(t@, nl@, i as int));
            assert(nl@.len() == 1);
            assert(i + nl@.len() <= t@.len());
            let mut out = chars_of("[... log truncated, showing tail only ...]\n");
            let n = t.len();
            let tail = slice_chars(&t, i + 1, n);
            assert(tail@ =~= text@.skip(i + 1));
            push_all(&mut out, &tail);
            string_of(&out)
        },
        None => string_of(&t),
    }
}

/// The result of reading the latest log.
#[derive(Debug, Clone)]
pub struct LogsResult {
    pub files: Vec<String>,
    pub content: String,
}

} // verus!
