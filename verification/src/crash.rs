//! Crash analysis of a game log: which mods loaded, which manifests failed,
//! which mods logged errors, and which known crash causes the log mentions.

use vstd::prelude::*;
use crate::text::{
    chars_of, concat_chars, contains, occurs_at, contains_seq, find, first_occurrence, join, join_strings,
    lines, lowercase, push_all, remove_all, remove_occurrences, slice_chars, split_lines,
    split_on_separators, split_parts, string_of, strip_suffix_all, take_chars, to_lowercase, trim,
    trim_chars, trim_end_matches, views,
};

verus! {

/// A known crash cause found in the log.
#[derive(Debug, Clone)]
pub struct CrashIssue {
    pub reason: String,
    pub detail: String,
    pub mods: Vec<String>,
}

/// A mod that the log blames for errors.
#[derive(Debug, Clone)]
pub struct InvolvedMod {
    pub name: String,
    pub error_count: usize,
    pub sample: String,
}

/// What the analysis of the latest log found.
#[derive(Debug, Clone)]
pub struct CrashReport {
    pub issues: Vec<CrashIssue>,
    pub log_file: Option<String>,
    pub error_count: usize,
    pub warn_count: usize,
    pub involved_mods: Vec<InvolvedMod>,
    pub loaded_mods: Vec<String>,
    pub notices: Vec<String>,
}

/// The views of a vector of strings.
pub open spec fn strs(v: Seq<String>) -> Seq<Seq<char>> {
    v.map_values(|s: String| s@)
}

/// A crash issue with its strings as character sequences.
pub struct IssueModel {
    pub reason: Seq<char>,
    pub detail: Seq<char>,
    pub mods: Seq<Seq<char>>,
}

/// An involved mod with its strings as character sequences.
pub struct InvolvedModel {
    pub name: Seq<char>,
    pub error_count: nat,
    pub sample: Seq<char>,
}

/// The model of an issue.
pub open spec fn issue_view(i: CrashIssue) -> IssueModel {
    IssueModel { reason: i.reason@, detail: i.detail@, mods: strs(i.mods@) }
}

/// The model of an involved mod.
pub open spec fn involved_view(m: InvolvedMod) -> InvolvedModel {
    InvolvedModel { name: m.name@, error_count: m.error_count as nat, sample: m.sample@ }
}

impl CrashReport {
    /// The report of a log that could not be analysed: nothing found.
    pub fn empty() -> (r: CrashReport)
        ensures
            r.issues@.len() == 0,
            r.log_file is None,
            r.error_count == 0,
            r.warn_count == 0,
            r.involved_mods@.len() == 0,
            r.loaded_mods@.len() == 0,
            r.notices@.len() == 0,
    {
        CrashReport {
            issues: Vec::new(),
            log_file: None,
            error_count: 0,
            warn_count: 0,
            involved_mods: Vec::new(),
            loaded_mods: Vec::new(),
            notices: Vec::new(),
        }
    }
}

// ---------------------------------------------------------------------------
// What one line says
// ---------------------------------------------------------------------------

/// The kinds of log line the analysis looks at, in the order it tests them.
pub enum LineKind {
    /// `Finished mod initialization for '<name>' (<id>)`.
    Loaded,
    /// An `[ERROR]` about a mod manifest that is missing something.
    Manifest,
    /// Any other `[ERROR]` line.
    Error,
    Other,
}

/// What kind of log line `l` is.
pub open spec fn line_kind(l: Seq<char>) -> LineKind {
    if contains_seq(l, "Finished mod initialization for '"@) {
        LineKind::Loaded
    } else if contains_seq(l, "[ERROR]"@) && contains_seq(l, "Mod manifest"@) && contains_seq(
        l,
        "is missing"@,
    ) {
        LineKind::Manifest
    } else if contains_seq(l, "[ERROR]"@) && !contains_seq(l, "Mod manifest"@) && !contains_seq(
        l,
        "is missing the"@,
    ) {
        LineKind::Error
    } else {
        LineKind::Other
    }
}

/// The `(name, id)` of a loaded-mod line: the text between `for '` and the
/// following `' (`, and the text from there to the next `)`.
pub open spec fn loaded_entry(l: Seq<char>) -> Option<(Seq<char>, Seq<char>)> {
    match first_occurrence(l, "for '"@) {
        None => None,
        Some(s) => {
            let rest = l.skip(s + 5);
            match first_occurrence(rest, "' ("@) {
                None => None,
                Some(e) => {
                    let rest2 = rest.skip(e + 3);
                    match first_occurrence(rest2, ")"@) {
                        None => None,
                        Some(e2) => Some((rest.take(e), rest2.take(e2))),
                    }
                },
            }
        },
    }
}

/// The path pieces of a line from its first `mods` on.
pub open spec fn mods_parts(l: Seq<char>) -> Option<Seq<Seq<char>>> {
    match first_occurrence(l, "mods"@) {
        None => None,
        Some(m) => Some(split_parts(l.skip(m))),
    }
}

/// The `(directory, file)` a failed-manifest line names.
pub open spec fn manifest_entry(l: Seq<char>) -> Option<(Seq<char>, Seq<char>)> {
    match mods_parts(l) {
        Some(parts) => if parts.len() >= 3 {
            Some((parts[1], trim(parts[2])))
        } else {
            None
        },
        None => None,
    }
}

/// The mod an error line blames: the piece after `mods`, without trailing
/// `.json`, then `.dll`, then `.pck`.
pub open spec fn error_mod_name(piece: Seq<char>) -> Seq<char> {
    strip_suffix_all(strip_suffix_all(strip_suffix_all(piece, ".json"@), ".dll"@), ".pck"@)
}

/// The sample an error line leaves: the line without `[ERROR]`, trimmed, at
/// most 120 characters.
pub open spec fn error_sample(l: Seq<char>) -> Seq<char> {
    let t = trim(remove_all(l, "[ERROR]"@));
    t.take(if t.len() < 120 { t.len() as int } else { 120 })
}

/// The `(mod, sample)` of an error line.
pub open spec fn error_entry(l: Seq<char>) -> Option<(Seq<char>, Seq<char>)> {
    match mods_parts(l) {
        Some(parts) => if parts.len() >= 2 {
            Some((error_mod_name(parts[1]), error_sample(l)))
        } else {
            None
        },
        None => None,
    }
}

// ---------------------------------------------------------------------------
// What the whole log says
// ---------------------------------------------------------------------------

/// `prev` extended by what line `l` says of loaded mods.
pub open spec fn step_loaded(prev: Seq<(Seq<char>, Seq<char>)>, l: Seq<char>) -> Seq<
    (Seq<char>, Seq<char>),
> {
    if line_kind(l) is Loaded {
        match loaded_entry(l) {
            Some(e) => prev.push(e),
            None => prev,
        }
    } else {
        prev
    }
}

/// `prev` extended by what line `l` says of failed manifests.
pub open spec fn step_manifests(prev: Seq<(Seq<char>, Seq<char>)>, l: Seq<char>) -> Seq<
    (Seq<char>, Seq<char>),
> {
    if line_kind(l) is Manifest {
        match manifest_entry(l) {
            Some(e) => prev.push(e),
            None => prev,
        }
    } else {
        prev
    }
}

/// `prev` extended by what line `l` says of mod errors.
pub open spec fn step_errors(prev: Seq<(Seq<char>, Seq<char>)>, l: Seq<char>) -> Seq<
    (Seq<char>, Seq<char>),
> {
    if line_kind(l) is Error {
        match error_entry(l) {
            Some(e) => prev.push(e),
            None => prev,
        }
    } else {
        prev
    }
}

/// The loaded mods the lines name, in order.
pub open spec fn loaded_of(ls: Seq<Seq<char>>) -> Seq<(Seq<char>, Seq<char>)>
    decreases ls.len(),
{
    if ls.len() == 0 {
        Seq::empty()
    } else {
        step_loaded(loaded_of(ls.drop_last()), ls.last())
    }
}

/// The failed manifests the lines name, in order.
pub open spec fn manifests_of(ls: Seq<Seq<char>>) -> Seq<(Seq<char>, Seq<char>)>
    decreases ls.len(),
{
    if ls.len() == 0 {
        Seq::empty()
    } else {
        step_manifests(manifests_of(ls.drop_last()), ls.last())
    }
}

/// The `(mod, sample)` pairs of the error lines, in order.
pub open spec fn errors_of(ls: Seq<Seq<char>>) -> Seq<(Seq<char>, Seq<char>)>
    decreases ls.len(),
{
    if ls.len() == 0 {
        Seq::empty()
    } else {
        step_errors(errors_of(ls.drop_last()), ls.last())
    }
}

/// The number of lines that contain `p`.
pub open spec fn count_containing(ls: Seq<Seq<char>>, p: Seq<char>) -> nat
    decreases ls.len(),
{
    if ls.len() == 0 {
        0
    } else {
        count_containing(ls.drop_last(), p) + if contains_seq(ls.last(), p) {
            1nat
        } else {
            0nat
        }
    }
}

/// The position of the group for `name`, or -1.
pub open spec fn group_index(gs: Seq<InvolvedModel>, name: Seq<char>) -> int
    decreases gs.len(),
{
    if gs.len() == 0 {
        -1
    } else if gs.last().name == name {
        gs.len() - 1
    } else {
        group_index(gs.drop_last(), name)
    }
}

/// The error pairs grouped by mod, in order of each mod's first error: how
/// many errors each logged and the sample of its first one.
pub open spec fn groups_of(pairs: Seq<(Seq<char>, Seq<char>)>) -> Seq<InvolvedModel>
    decreases pairs.len(),
{
    if pairs.len() == 0 {
        Seq::empty()
    } else {
        let gs = groups_of(pairs.drop_last());
        let (name, sample) = pairs.last();
        let k = group_index(gs, name);
        if k >= 0 {
            gs.update(k, InvolvedModel { error_count: gs[k].error_count + 1, ..gs[k] })
        } else {
            gs.push(InvolvedModel { name, error_count: 1, sample })
        }
    }
}

/// Some loaded mod has the id `dir`.
pub open spec fn is_loaded_id(loaded: Seq<(Seq<char>, Seq<char>)>, dir: Seq<char>) -> bool {
    exists|i: int| 0 <= i < loaded.len() && loaded[i].1 == dir
}

/// The failed manifests of mods that did not load: their directories.
pub open spec fn really_failed_of(
    failed: Seq<(Seq<char>, Seq<char>)>,
    loaded: Seq<(Seq<char>, Seq<char>)>,
) -> Seq<Seq<char>>
    decreases failed.len(),
{
    if failed.len() == 0 {
        Seq::empty()
    } else {
        let prev = really_failed_of(failed.drop_last(), loaded);
        if is_loaded_id(loaded, failed.last().0) {
            prev
        } else {
            prev.push(failed.last().0)
        }
    }
}

/// The notice for a failed manifest of a mod that loaded anyway.
pub open spec fn config_notice(dir: Seq<char>, file: Seq<char>) -> Seq<char> {
    dir + "/"@ + file + " looks like a config file, not a mod manifest; the mod still loaded."@
}

/// The notices for failed manifests of mods that loaded anyway.
pub open spec fn notices_of(
    failed: Seq<(Seq<char>, Seq<char>)>,
    loaded: Seq<(Seq<char>, Seq<char>)>,
) -> Seq<Seq<char>>
    decreases failed.len(),
{
    if failed.len() == 0 {
        Seq::empty()
    } else {
        let prev = notices_of(failed.drop_last(), loaded);
        if is_loaded_id(loaded, failed.last().0) {
            prev.push(config_notice(failed.last().0, failed.last().1))
        } else {
            prev
        }
    }
}

/// The known crash causes: `(pattern, reason, detail)`, in the order they are
/// tested.
pub open spec fn crash_pattern(k: int) -> (Seq<char>, Seq<char>, Seq<char>) {
    if k == 0 {
        ("State divergence"@, "State divergence"@, "Client and host state diverged. Verify both players have the same mods enabled."@)
    } else if k == 1 {
        ("StateDivergence"@, "State divergence"@, "Client and host state diverged. Verify both players have the same mods enabled."@)
    } else if k == 2 {
        ("OutOfMemoryException"@, "Out of memory"@, "The game ran out of memory. Close other applications or reduce the active mod set."@)
    } else if k == 3 {
        ("out of memory"@, "Out of memory"@, "The game ran out of memory. Close other applications or reduce the active mod set."@)
    } else if k == 4 {
        ("StackOverflowException"@, "Stack overflow"@, "A mod may be triggering unbounded recursion. Disable mods one by one to isolate it."@)
    } else if k == 5 {
        ("NullReferenceException"@, "Null reference"@, "A mod or the game hit a null reference during execution."@)
    } else if k == 6 {
        ("is missing the 'id' field"@, "Invalid manifest"@, "One or more mod manifests are missing the required id field."@)
    } else if k == 7 {
        ("Connection timed out"@, "Connection timed out"@, "A multiplayer or remote service request timed out."@)
    } else if k == 8 {
        ("FATAL"@, "Fatal error"@, "The game reported a fatal error before shutting down."@)
    } else if k == 9 {
        ("Unhandled exception"@, "Unhandled exception"@, "The game encountered an unhandled exception before shutting down."@)
    } else if k == 10 {
        ("Application crashed"@, "Application crashed"@, "The game reported a crash in the current log."@)
    } else {
        ("rendering device lost"@, "Rendering device lost"@, "The GPU device was lost. Update drivers or lower graphics settings."@)
    }
}

/// The number of crash patterns.
pub open spec fn pattern_count() -> int {
    12
}

/// The issues the first `n` patterns give for a log whose lower-case text is
/// `lc`, with `rf` the mods whose manifests failed: each reason is reported
/// once, for the first of its patterns that matches; the invalid-manifest
/// reason only when some manifest really failed, and then it names them.
pub open spec fn issues_scan(n: int, lc: Seq<char>, rf: Seq<Seq<char>>) -> (
    Seq<Seq<char>>,
    Seq<IssueModel>,
)
    decreases n,
{
    if n <= 0 {
        (Seq::empty(), Seq::empty())
    } else {
        let (seen, issues) = issues_scan(n - 1, lc, rf);
        let (pat, reason, detail) = crash_pattern(n - 1);
        if contains_seq(lc, lowercase(pat)) && !seen.contains(reason) {
            let seen2 = seen.push(reason);
            if reason == "Invalid manifest"@ && rf.len() == 0 {
                (seen2, issues)
            } else if reason == "Invalid manifest"@ {
                (
                    seen2,
                    issues.push(
                        IssueModel {
                            reason,
                            detail: "The following mod manifests are missing the id field: "@
                                + join(rf, ", "@),
                            mods: rf,
                        },
                    ),
                )
            } else {
                (seen2, issues.push(IssueModel { reason, detail, mods: Seq::empty() }))
            }
        } else {
            (seen, issues)
        }
    }
}

/// The sample of a mod whose manifest failed and that logged no error.
pub open spec fn failed_sample() -> Seq<char> {
    "manifest is invalid and the mod did not load"@
}

/// Some involved mod is named `name`.
pub open spec fn has_name(ms: Seq<InvolvedModel>, name: Seq<char>) -> bool {
    exists|i: int| 0 <= i < ms.len() && ms[i].name == name
}

/// The mods whose manifests failed, each once, that are not among `base`.
pub open spec fn extra_involved(base: Seq<InvolvedModel>, rf: Seq<Seq<char>>) -> Seq<
    InvolvedModel,
>
    decreases rf.len(),
{
    if rf.len() == 0 {
        Seq::empty()
    } else {
        let prev = extra_involved(base, rf.drop_last());
        if has_name(base + prev, rf.last()) {
            prev
        } else {
            prev.push(InvolvedModel { name: rf.last(), error_count: 1, sample: failed_sample() })
        }
    }
}

/// How many leading mods of `ms` have at least `c` errors.
pub open spec fn insert_pos(ms: Seq<InvolvedModel>, c: nat) -> nat
    decreases ms.len(),
{
    if ms.len() == 0 {
        0
    } else if ms[0].error_count >= c {
        1 + insert_pos(ms.drop_first(), c)
    } else {
        0
    }
}

/// `ms` sorted by error count, most first, mods with equal counts kept in
/// their order (a stable sort).
pub open spec fn sort_by_errors(ms: Seq<InvolvedModel>) -> Seq<InvolvedModel>
    decreases ms.len(),
{
    if ms.len() == 0 {
        Seq::empty()
    } else {
        let sorted = sort_by_errors(ms.drop_last());
        sorted.insert(insert_pos(sorted, ms.last().error_count) as int, ms.last())
    }
}

/// Everything the analysis of `content` (from the log file `log_file`) says.
pub open spec fn crash_report_of(content: Seq<char>, log_file: Seq<char>, r: CrashReport) -> bool {
    let ls = lines(content);
    let loaded = loaded_of(ls);
    let failed = manifests_of(ls);
    let rf = really_failed_of(failed, loaded);
    let groups = groups_of(errors_of(ls));
    &&& r.issues@.map_values(|i: CrashIssue| issue_view(i)) == issues_scan(
        pattern_count(),
        lowercase(content),
        rf,
    ).1
    &&& r.log_file matches Some(f) && f@ == log_file
    &&& r.error_count == count_containing(ls, "[ERROR]"@)
    &&& r.warn_count == count_containing(ls, "[WARN]"@)
    &&& r.involved_mods@.map_values(|m: InvolvedMod| involved_view(m)) == sort_by_errors(
        groups + extra_involved(groups, rf),
    )
    &&& strs(r.loaded_mods@) == loaded.map_values(|e: (Seq<char>, Seq<char>)| e.0)
    &&& strs(r.notices@) == notices_of(failed, loaded)
}

// ---------------------------------------------------------------------------
// The analysis
// ---------------------------------------------------------------------------

/// The views of a vector of character-vector pairs.
pub open spec fn pair_views(v: Seq<(Vec<char>, Vec<char>)>) -> Seq<(Seq<char>, Seq<char>)> {
    v.map_values(|p: (Vec<char>, Vec<char>)| (p.0@, p.1@))
}

fn line_kind_exec(l: &Vec<char>) -> (r: LineKind)
    ensures
        r == line_kind(l@),
{
    if contains(l, &chars_of("Finished mod initialization for '")) {
        LineKind::Loaded
    } else {
        let err = contains(l, &chars_of("[ERROR]"));
        let manifest = contains(l, &chars_of("Mod manifest"));
        if err && manifest && contains(l, &chars_of("is missing")) {
            LineKind::Manifest
        } else if err && !manifest && !contains(l, &chars_of("is missing the")) {
            LineKind::Error
        } else {
            LineKind::Other
        }
    }
}

fn loaded_entry_exec(l: &Vec<char>) -> (r: Option<(Vec<char>, Vec<char>)>)
    ensures
        match loaded_entry(l@) {
            Some(e) => r matches Some(p) && (p.0@, p.1@) == e,
            None => r is None,
        },
{
    proof {
        reveal_strlit("for '");
        reveal_strlit("' (");
        reveal_strlit(")");
    }
    let needle = chars_of("for '");
    assert(needle@.len() == 5);
    let s = match find(l, &needle) {
        Some(s) => s,
        None => return None,
    };
    assert(occurs_at(l@, needle@, s as int));
    assert(s + needle@.len() <= l@.len());
    assert(s + 5 <= l.len());
    let rest = slice_chars(l, s + 5, l.len());
    assert(rest@ =~= l@.skip(s + 5));
    let e = match find(&rest, &chars_of("' (")) {
        Some(e) => e,
        None => return None,
    };
    let rest2 = slice_chars(&rest, e + 3, rest.len());
    assert(rest2@ =~= rest@.skip(e + 3));
    let e2 = match find(&rest2, &chars_of(")")) {
        Some(e2) => e2,
        None => return None,
    };
    let name = slice_chars(&rest, 0, e);
    let id = slice_chars(&rest2, 0, e2);
    assert(name@ =~= rest@.take(e as int));
    assert(id@ =~= rest2@.take(e2 as int));
    Some((name, id))
}

fn mods_parts_exec(l: &Vec<char>) -> (r: Option<Vec<Vec<char>>>)
    ensures
        match mods_parts(l@) {
            Some(ps) => r matches Some(v) && views(v@) == ps,
            None => r is None,
        },
{
    let m = match find(l, &chars_of("mods")) {
        Some(m) => m,
        None => return None,
    };
    let tail = slice_chars(l, m, l.len());
    assert(tail@ =~= l@.skip(m as int));
    Some(split_on_separators(&tail))
}

fn manifest_entry_exec(l: &Vec<char>) -> (r: Option<(Vec<char>, Vec<char>)>)
    ensures
        match manifest_entry(l@) {
            Some(e) => r matches Some(p) && (p.0@, p.1@) == e,
            None => r is None,
        },
{
    let parts = match mods_parts_exec(l) {
        Some(p) => p,
        None => return None,
    };
    if parts.len() >= 3 {
        assert(views(parts@)[1] == parts@[1]@);
        assert(views(parts@)[2] == parts@[2]@);
        let dir = slice_chars(&parts[1], 0, parts[1].len());
        assert(dir@ =~= parts@[1]@);
        Some((dir, trim_chars(&parts[2])))
    } else {
        None
    }
}

fn error_entry_exec(l: &Vec<char>) -> (r: Option<(Vec<char>, Vec<char>)>)
    ensures
        match error_entry(l@) {
            Some(e) => r matches Some(p) && (p.0@, p.1@) == e,
            None => r is None,
        },
{
    let parts = match mods_parts_exec(l) {
        Some(p) => p,
        None => return None,
    };
    if parts.len() >= 2 {
        assert(views(parts@)[1] == parts@[1]@);
        let a = trim_end_matches(&parts[1], &chars_of(".json"));
        let b = trim_end_matches(&a, &chars_of(".dll"));
        let name = trim_end_matches(&b, &chars_of(".pck"));
        let cleaned = remove_occurrences(l, &chars_of("[ERROR]"));
        let t = trim_chars(&cleaned);
        let sample = take_chars(&t, 120);
        Some((name, sample))
    } else {
        None
    }
}

/// What the lines of a log say: loaded mods, failed manifests, error pairs,
/// and the numbers of `[ERROR]` and `[WARN]` lines.
struct LineFacts {
    loaded: Vec<(Vec<char>, Vec<char>)>,
    failed: Vec<(Vec<char>, Vec<char>)>,
    errors: Vec<(Vec<char>, Vec<char>)>,
    error_lines: usize,
    warn_lines: usize,
}

fn push_pair_view(
    v: &mut Vec<(Vec<char>, Vec<char>)>,
    p: (Vec<char>, Vec<char>),
)
    ensures
        pair_views(final(v)@) == pair_views(old(v)@).push((p.0@, p.1@)),
{
    let ghost before = v@;
    v.push(p);
    assert(pair_views(v@) =~= pair_views(before).push((p.0@, p.1@)));
}

fn absorb_line(facts: &mut LineFacts, l: &Vec<char>)
    ensures
        pair_views(final(facts).loaded@) == step_loaded(pair_views(old(facts).loaded@), l@),
        pair_views(final(facts).failed@) == step_manifests(pair_views(old(facts).failed@), l@),
        pair_views(final(facts).errors@) == step_errors(pair_views(old(facts).errors@), l@),
        final(facts).error_lines == old(facts).error_lines,
        final(facts).warn_lines == old(facts).warn_lines,
{
    match line_kind_exec(l) {
        LineKind::Loaded => {
            match loaded_entry_exec(l) {
                Some(p) => push_pair_view(&mut facts.loaded, p),
                None => {},
            }
        },
        LineKind::Manifest => {
            match manifest_entry_exec(l) {
                Some(p) => push_pair_view(&mut facts.failed, p),
                None => {},
            }
        },
        LineKind::Error => {
            match error_entry_exec(l) {
                Some(p) => push_pair_view(&mut facts.errors, p),
                None => {},
            }
        },
        LineKind::Other => {},
    }
}

fn scan_lines(ls: &Vec<Vec<char>>) -> (r: LineFacts)
    ensures
        pair_views(r.loaded@) == loaded_of(views(ls@)),
        pair_views(r.failed@) == manifests_of(views(ls@)),
        pair_views(r.errors@) == errors_of(views(ls@)),
        r.error_lines == count_containing(views(ls@), "[ERROR]"@),
        r.warn_lines == count_containing(views(ls@), "[WARN]"@),
{
    let ghost lv = views(ls@);
    let mut facts = LineFacts {
        loaded: Vec::new(),
        failed: Vec::new(),
        errors: Vec::new(),
        error_lines: 0,
        warn_lines: 0,
    };
    let err_mark = chars_of("[ERROR]");
    let warn_mark = chars_of("[WARN]");
    let mut i: usize = 0;
    assert(lv.take(0) =~= Seq::<Seq<char>>::empty());
    assert(pair_views(facts.loaded@) =~= Seq::<(Seq<char>, Seq<char>)>::empty());
    assert(pair_views(facts.failed@) =~= Seq::<(Seq<char>, Seq<char>)>::empty());
    assert(pair_views(facts.errors@) =~= Seq::<(Seq<char>, Seq<char>)>::empty());
    while i < ls.len()
        invariant
            i <= ls.len(),
            lv == views(ls@),
            err_mark@ == "[ERROR]"@,
            warn_mark@ == "[WARN]"@,
            pair_views(facts.loaded@) == loaded_of(lv.take(i as int)),
            pair_views(facts.failed@) == manifests_of(lv.take(i as int)),
            pair_views(facts.errors@) == errors_of(lv.take(i as int)),
            facts.error_lines == count_containing(lv.take(i as int), "[ERROR]"@),
            facts.warn_lines == count_containing(lv.take(i as int), "[WARN]"@),
            facts.error_lines <= i,
            facts.warn_lines <= i,
        decreases ls.len() - i,
    {
        let l = &ls[i];
        assert(lv.take(i + 1).drop_last() =~= lv.take(i as int));
        assert(lv.take(i + 1).last() == l@);
        absorb_line(&mut facts, l);
        if contains(l, &err_mark) {
            facts.error_lines = facts.error_lines + 1;
        }
        if contains(l, &warn_mark) {
            facts.warn_lines = facts.warn_lines + 1;
        }
        i = i + 1;
    }
    assert(lv.take(ls.len() as int) =~= lv);
    facts
}

/// The views of involved mods.
pub open spec fn involved_views(v: Seq<InvolvedMod>) -> Seq<InvolvedModel> {
    v.map_values(|m: InvolvedMod| involved_view(m))
}

proof fn lemma_group_index(gs: Seq<InvolvedModel>, name: Seq<char>, k: int)
    requires
        -1 <= k < gs.len(),
        k >= 0 ==> gs[k].name == name,
        forall|t: int| k < t < gs.len() ==> gs[t].name != name,
    ensures
        group_index(gs, name) == k,
    decreases gs.len(),
{
    if gs.len() > 0 && k < gs.len() - 1 {
        lemma_group_index(gs.drop_last(), name, k);
    }
}

fn same_text(a: &String, b: &Vec<char>) -> (r: bool)
    ensures
        r == (a@ == b@),
{
    crate::text::chars_eq(&chars_of(a.as_str()), b)
}

fn group_errors(pairs: &Vec<(Vec<char>, Vec<char>)>) -> (r: Vec<InvolvedMod>)
    ensures
        involved_views(r@) == groups_of(pair_views(pairs@)),
{
    let ghost pv = pair_views(pairs@);
    let mut gs: Vec<InvolvedMod> = Vec::new();
    let mut i: usize = 0;
    assert(pv.take(0) =~= Seq::<(Seq<char>, Seq<char>)>::empty());
    assert(involved_views(gs@) =~= Seq::<InvolvedModel>::empty());
    while i < pairs.len()
        invariant
            i <= pairs.len(),
            pv == pair_views(pairs@),
            involved_views(gs@) == groups_of(pv.take(i as int)),
            forall|t: int| 0 <= t < gs@.len() ==> gs@[t].error_count <= i,
        decreases pairs.len() - i,
    {
        let name = &pairs[i].0;
        let sample = &pairs[i].1;
        assert(pv.take(i + 1).drop_last() =~= pv.take(i as int));
        assert(pv.take(i + 1).last() == (name@, sample@));
        let ghost gv = involved_views(gs@);
        let mut j: usize = gs.len();
        while j > 0 && !same_text(&gs[j - 1].name, name)
            invariant
                j <= gs.len(),
                gv == involved_views(gs@),
                forall|t: int| j <= t < gv.len() ==> gv[t].name != name@,
            decreases j,
        {
            assert(gv[j - 1] == involved_view(gs@[j - 1]));
            j = j - 1;
        }
        if j > 0 {
            assert(gv[j - 1] == involved_view(gs@[j - 1]));
            let k = j - 1;
            proof {
                lemma_group_index(gv, name@, k as int);
            }
            let old_g = &gs[k];
            let updated = InvolvedMod {
                name: old_g.name.clone(),
                error_count: old_g.error_count + 1,
                sample: old_g.sample.clone(),
            };
            gs.set(k, updated);
            assert(involved_views(gs@) =~= gv.update(
                k as int,
                InvolvedModel { error_count: gv[k as int].error_count + 1, ..gv[k as int] },
            ));
        } else {
            proof {
                lemma_group_index(gv, name@, -1);
            }
            let g = InvolvedMod {
                name: string_of(name),
                error_count: 1,
                sample: string_of(sample),
            };
            gs.push(g);
            assert(involved_views(gs@) =~= gv.push(
                InvolvedModel { name: name@, error_count: 1, sample: sample@ },
            ));
        }
        i = i + 1;
    }
    assert(pv.take(pairs.len() as int) =~= pv);
    gs
}

fn loaded_has_id(loaded: &Vec<(Vec<char>, Vec<char>)>, dir: &Vec<char>) -> (r: bool)
    ensures
        r == is_loaded_id(pair_views(loaded@), dir@),
{
    let ghost lv = pair_views(loaded@);
    let mut i: usize = 0;
    while i < loaded.len()
        invariant
            i <= loaded.len(),
            lv == pair_views(loaded@),
            forall|t: int| 0 <= t < i ==> lv[t].1 != dir@,
        decreases loaded.len() - i,
    {
        assert(lv[i as int] == (loaded@[i as int].0@, loaded@[i as int].1@));
        if crate::text::chars_eq(&loaded[i].1, dir) {
            return true;
        }
        i = i + 1;
    }
    false
}

fn split_failed(
    failed: &Vec<(Vec<char>, Vec<char>)>,
    loaded: &Vec<(Vec<char>, Vec<char>)>,
) -> (r: (Vec<String>, Vec<String>))
    ensures
        strs(r.0@) == really_failed_of(pair_views(failed@), pair_views(loaded@)),
        strs(r.1@) == notices_of(pair_views(failed@), pair_views(loaded@)),
{
    let ghost fv = pair_views(failed@);
    let ghost lv = pair_views(loaded@);
    let mut really: Vec<String> = Vec::new();
    let mut notices: Vec<String> = Vec::new();
    let mut i: usize = 0;
    assert(fv.take(0) =~= Seq::<(Seq<char>, Seq<char>)>::empty());
    assert(strs(really@) =~= Seq::<Seq<char>>::empty());
    assert(strs(notices@) =~= Seq::<Seq<char>>::empty());
    while i < failed.len()
        invariant
            i <= failed.len(),
            fv == pair_views(failed@),
            lv == pair_views(loaded@),
            strs(really@) == really_failed_of(fv.take(i as int), lv),
            strs(notices@) == notices_of(fv.take(i as int), lv),
        decreases failed.len() - i,
    {
        let dir = &failed[i].0;
        let file = &failed[i].1;
        assert(fv.take(i + 1).drop_last() =~= fv.take(i as int));
        assert(fv.take(i + 1).last() == (dir@, file@));
        if loaded_has_id(loaded, dir) {
            let mut text = concat_chars(dir, &chars_of("/"));
            push_all(&mut text, file);
            push_all(
                &mut text,
                &chars_of(" looks like a config file, not a mod manifest; the mod still loaded."),
            );
            let ghost before = notices@;
            notices.push(string_of(&text));
            assert(strs(notices@) =~= strs(before).push(config_notice(dir@, file@)));
        } else {
            let ghost before = really@;
            really.push(string_of(dir));
            assert(strs(really@) =~= strs(before).push(dir@));
        }
        i = i + 1;
    }
    assert(fv.take(failed.len() as int) =~= fv);
    (really, notices)
}

fn crash_pattern_exec(k: usize) -> (r: (&'static str, &'static str, &'static str))
    ensures
        (r.0@, r.1@, r.2@) == crash_pattern(k as int),
{
    if k == 0 {
        ("State divergence", "State divergence", "Client and host state diverged. Verify both players have the same mods enabled.")
    } else if k == 1 {
        ("StateDivergence", "State divergence", "Client and host state diverged. Verify both players have the same mods enabled.")
    } else if k == 2 {
        ("OutOfMemoryException", "Out of memory", "The game ran out of memory. Close other applications or reduce the active mod set.")
    } else if k == 3 {
        ("out of memory", "Out of memory", "The game ran out of memory. Close other applications or reduce the active mod set.")
    } else if k == 4 {
        ("StackOverflowException", "Stack overflow", "A mod may be triggering unbounded recursion. Disable mods one by one to isolate it.")
    } else if k == 5 {
        ("NullReferenceException", "Null reference", "A mod or the game hit a null reference during execution.")
    } else if k == 6 {
        ("is missing the 'id' field", "Invalid manifest", "One or more mod manifests are missing the required id field.")
    } else if k == 7 {
        ("Connection timed out", "Connection timed out", "A multiplayer or remote service request timed out.")
    } else if k == 8 {
        ("FATAL", "Fatal error", "The game reported a fatal error before shutting down.")
    } else if k == 9 {
        ("Unhandled exception", "Unhandled exception", "The game encountered an unhandled exception before shutting down.")
    } else if k == 10 {
        ("Application crashed", "Application crashed", "The game reported a crash in the current log.")
    } else {
        ("rendering device lost", "Rendering device lost", "The GPU device was lost. Update drivers or lower graphics settings.")
    }
}

fn copy_strings(v: &Vec<String>) -> (r: Vec<String>)
    ensures
        strs(r@) == strs(v@),
{
    let mut r: Vec<String> = Vec::new();
    let mut i: usize = 0;
    while i < v.len()
        invariant
            i <= v.len(),
            strs(r@) == strs(v@).take(i as int),
        decreases v.len() - i,
    {
        let ghost before = r@;
        r.push(v[i].clone());
        assert(strs(r@) =~= strs(before).push(v@[i as int]@));
        assert(strs(v@).take(i + 1) =~= strs(v@).take(i as int).push(strs(v@)[i as int]));
        i = i + 1;
    }
    assert(strs(v@).take(v.len() as int) =~= strs(v@));
    r
}

fn seen_contains(seen: &Vec<Vec<char>>, reason: &Vec<char>) -> (r: bool)
    ensures
        r == views(seen@).contains(reason@),
{
    let mut i: usize = 0;
    while i < seen.len()
        invariant
            i <= seen.len(),
            forall|t: int| 0 <= t < i ==> views(seen@)[t] != reason@,
        decreases seen.len() - i,
    {
        if crate::text::chars_eq(&seen[i], reason) {
            assert(views(seen@)[i as int] == reason@);
            return true;
        }
        i = i + 1;
    }
    false
}

/// The views of crash issues.
pub open spec fn issue_views(v: Seq<CrashIssue>) -> Seq<IssueModel> {
    v.map_values(|i: CrashIssue| issue_view(i))
}

fn scan_patterns(lc: &Vec<char>, rf: &Vec<String>) -> (r: Vec<CrashIssue>)
    ensures
        issue_views(r@) == issues_scan(pattern_count(), lc@, strs(rf@)).1,
{
    let mut seen: Vec<Vec<char>> = Vec::new();
    let mut issues: Vec<CrashIssue> = Vec::new();
    let invalid = chars_of("Invalid manifest");
    let mut k: usize = 0;
    assert(issue_views(issues@) =~= Seq::<IssueModel>::empty());
    assert(views(seen@) =~= Seq::<Seq<char>>::empty());
    while k < 12
        invariant
            k <= 12,
            invalid@ == "Invalid manifest"@,
            (views(seen@), issue_views(issues@)) == issues_scan(k as int, lc@, strs(rf@)),
        decreases 12 - k,
    {
        let (pat, reason, detail) = crash_pattern_exec(k);
        let lp = to_lowercase(pat);
        let reason_c = chars_of(reason);
        if contains(lc, &chars_of(lp.as_str())) && !seen_contains(&seen, &reason_c) {
            let ghost seen_before = seen@;
            seen.push(copy_reason(&reason_c));
            assert(views(seen@) =~= views(seen_before).push(reason@));
            let is_invalid = crate::text::chars_eq(&reason_c, &invalid);
            if is_invalid && rf.len() == 0 {
            } else if is_invalid {
                let mut d = chars_of("The following mod manifests are missing the id field: ");
                let joined = join_strings(rf, ", ");
                push_all(&mut d, &joined);
                let ghost before = issues@;
                let issue = CrashIssue {
                    reason: string_of(&reason_c),
                    detail: string_of(&d),
                    mods: copy_strings(rf),
                };
                issues.push(issue);
                assert(strs(rf@) == rf@.map_values(|s: String| s@));
                assert(issue_views(issues@) =~= issue_views(before).push(issue_view(issue)));
            } else {
                let ghost before = issues@;
                let issue = CrashIssue {
                    reason: string_of(&reason_c),
                    detail: string_of(&chars_of(detail)),
                    mods: Vec::new(),
                };
                issues.push(issue);
                assert(strs(issue.mods@) =~= Seq::<Seq<char>>::empty());
                assert(issue_views(issues@) =~= issue_views(before).push(issue_view(issue)));
            }
        }
        k = k + 1;
    }
    issues
}

fn copy_reason(v: &Vec<char>) -> (r: Vec<char>)
    ensures
        r@ == v@,
{
    crate::text::copy_chars(v)
}

fn has_name_exec(ms: &Vec<InvolvedMod>, name: &String) -> (r: bool)
    ensures
        r == has_name(involved_views(ms@), name@),
{
    let ghost mv = involved_views(ms@);
    let mut i: usize = 0;
    while i < ms.len()
        invariant
            i <= ms.len(),
            mv == involved_views(ms@),
            forall|t: int| 0 <= t < i ==> mv[t].name != name@,
        decreases ms.len() - i,
    {
        assert(mv[i as int] == involved_view(ms@[i as int]));
        if same_text(&ms[i].name, &chars_of(name.as_str())) {
            return true;
        }
        i = i + 1;
    }
    false
}

fn with_extras(groups: Vec<InvolvedMod>, rf: &Vec<String>) -> (r: Vec<InvolvedMod>)
    ensures
        involved_views(r@) == involved_views(groups@) + extra_involved(
            involved_views(groups@),
            strs(rf@),
        ),
{
    let ghost base = involved_views(groups@);
    let ghost rv = strs(rf@);
    let mut all = groups;
    let mut i: usize = 0;
    assert(rv.take(0) =~= Seq::<Seq<char>>::empty());
    assert(involved_views(all@) =~= base + extra_involved(base, rv.take(0)));
    while i < rf.len()
        invariant
            i <= rf.len(),
            rv == strs(rf@),
            involved_views(all@) == base + extra_involved(base, rv.take(i as int)),
        decreases rf.len() - i,
    {
        assert(rv.take(i + 1).drop_last() =~= rv.take(i as int));
        assert(rv.take(i + 1).last() == rf@[i as int]@);
        if !has_name_exec(&all, &rf[i]) {
            let ghost before = all@;
            let m = InvolvedMod {
                name: rf[i].clone(),
                error_count: 1,
                sample: string_of(&chars_of("manifest is invalid and the mod did not load")),
            };
            all.push(m);
            assert(involved_views(all@) =~= involved_views(before).push(involved_view(m)));
        }
        i = i + 1;
    }
    assert(rv.take(rf.len() as int) =~= rv);
    all
}

proof fn lemma_insert_pos(ms: Seq<InvolvedModel>, c: nat, p: int)
    requires
        0 <= p <= ms.len(),
        forall|t: int| 0 <= t < p ==> ms[t].error_count >= c,
        p == ms.len() || ms[p].error_count < c,
    ensures
        insert_pos(ms, c) == p,
    decreases p,
{
    if p > 0 {
        lemma_insert_pos(ms.drop_first(), c, p - 1);
    }
}

fn sort_involved(items: Vec<InvolvedMod>) -> (r: Vec<InvolvedMod>)
    ensures
        involved_views(r@) == sort_by_errors(involved_views(items@)),
{
    let ghost iv = involved_views(items@);
    let mut out: Vec<InvolvedMod> = Vec::new();
    let mut rest = items;
    let mut taken: Vec<InvolvedMod> = Vec::new();
    let n = rest.len();
    let mut i: usize = 0;
    assert(iv.take(0) =~= Seq::<InvolvedModel>::empty());
    assert(involved_views(out@) =~= Seq::<InvolvedModel>::empty());
    while i < n
        invariant
            i <= n,
            n == iv.len(),
            rest@.len() == n - i,
            forall|t: int| 0 <= t < n - i ==> involved_view(#[trigger] rest@[t]) == iv[i + t],
            involved_views(out@) == sort_by_errors(iv.take(i as int)),
        decreases n - i,
    {
        let item = rest.remove(0);
        assert(involved_view(item) == iv[i as int]);
        let c = item.error_count;
        let ghost ov = involved_views(out@);
        let mut p: usize = 0;
        while p < out.len() && out[p].error_count >= c
            invariant
                p <= out.len(),
                ov == involved_views(out@),
                forall|t: int| 0 <= t < p ==> ov[t].error_count >= c,
            decreases out.len() - p,
        {
            assert(ov[p as int] == involved_view(out@[p as int]));
            p = p + 1;
        }
        proof {
            if p < out.len() {
                assert(ov[p as int] == involved_view(out@[p as int]));
            }
            lemma_insert_pos(ov, c as nat, p as int);
            assert(iv.take(i + 1).drop_last() =~= iv.take(i as int));
            assert(iv.take(i + 1).last() == iv[i as int]);
        }
        out.insert(p, item);
        assert(involved_views(out@) =~= ov.insert(p as int, involved_view(item)));
        i = i + 1;
    }
    assert(iv.take(n as int) =~= iv);
    out
}

/// Analyses the text of the latest log, read from the file `log_file`.
pub fn analyze_crash_log(content: &str, log_file: String) -> (r: CrashReport)
    ensures
        crash_report_of(content@, log_file@, r),
{
    let text = chars_of(content);
    let ls = split_lines(&text);
    let facts = scan_lines(&ls);
    let (really, notices) = split_failed(&facts.failed, &facts.loaded);
    let lower = to_lowercase(content);
    let lc = chars_of(lower.as_str());
    let issues = scan_patterns(&lc, &really);
    let groups = group_errors(&facts.errors);
    let all = with_extras(groups, &really);
    let involved = sort_involved(all);
    let ghost lv = pair_views(facts.loaded@);
    let mut loaded_names: Vec<String> = Vec::new();
    let mut i: usize = 0;
    while i < facts.loaded.len()
        invariant
            i <= facts.loaded.len(),
            lv == pair_views(facts.loaded@),
            strs(loaded_names@) == lv.take(i as int).map_values(
                |e: (Seq<char>, Seq<char>)| e.0,
            ),
        decreases facts.loaded.len() - i,
    {
        let ghost before = loaded_names@;
        let name = string_of(&facts.loaded[i].0);
        loaded_names.push(name);
        assert(lv[i as int] == (facts.loaded@[i as int].0@, facts.loaded@[i as int].1@));
        assert(strs(loaded_names@) =~= strs(before).push(name@));
        assert(lv.take(i + 1).map_values(|e: (Seq<char>, Seq<char>)| e.0) =~= lv.take(
            i as int,
        ).map_values(|e: (Seq<char>, Seq<char>)| e.0).push(lv[i as int].0));
        i = i + 1;
    }
    assert(lv.take(facts.loaded.len() as int) =~= lv);
    let r = CrashReport {
        issues,
        log_file: Some(log_file),
        error_count: facts.error_lines,
        warn_count: facts.warn_lines,
        involved_mods: involved,
        loaded_mods: loaded_names,
        notices,
    };
    assert(r.issues@.map_values(|i: CrashIssue| issue_view(i)) == issue_views(r.issues@));
    assert(r.involved_mods@.map_values(|m: InvolvedMod| involved_view(m)) == involved_views(
        r.involved_mods@,
    ));
    r
}



// ---------------------------------------------------------------------------
// What the causes are
// ---------------------------------------------------------------------------

/// The crash causes as the game's crash table lists them: the text looked
/// for (in any case), the reason reported and its detail.
pub open spec fn crash_causes() -> Seq<(Seq<char>, Seq<char>, Seq<char>)> {
    seq![
        ("State divergence"@, "State divergence"@, "Client and host state diverged. Verify both players have the same mods enabled."@),
        ("StateDivergence"@, "State divergence"@, "Client and host state diverged. Verify both players have the same mods enabled."@),
        ("OutOfMemoryException"@, "Out of memory"@, "The game ran out of memory. Close other applications or reduce the active mod set."@),
        ("out of memory"@, "Out of memory"@, "The game ran out of memory. Close other applications or reduce the active mod set."@),
        ("StackOverflowException"@, "Stack overflow"@, "A mod may be triggering unbounded recursion. Disable mods one by one to isolate it."@),
        ("NullReferenceException"@, "Null reference"@, "A mod or the game hit a null reference during execution."@),
        ("is missing the 'id' field"@, "Invalid manifest"@, "One or more mod manifests are missing the required id field."@),
        ("Connection timed out"@, "Connection timed out"@, "A multiplayer or remote service request timed out."@),
        ("FATAL"@, "Fatal error"@, "The game reported a fatal error before shutting down."@),
        ("Unhandled exception"@, "Unhandled exception"@, "The game encountered an unhandled exception before shutting down."@),
        ("Application crashed"@, "Application crashed"@, "The game reported a crash in the current log."@),
        ("rendering device lost"@, "Rendering device lost"@, "The GPU device was lost. Update drivers or lower graphics settings."@),
    ]
}

proof fn lemma_patterns_are_the_causes()
    ensures
        crash_causes().len() == pattern_count(),
        forall|k: int| 0 <= k < pattern_count() ==> #[trigger] crash_pattern(k) == crash_causes()[k],
{
    assert forall|k: int| 0 <= k < pattern_count() implies #[trigger] crash_pattern(k)
        == crash_causes()[k] by {
        if k == 0 {} else if k == 1 {} else if k == 2 {} else if k == 3 {} else if k == 4 {}
        else if k == 5 {} else if k == 6 {} else if k == 7 {} else if k == 8 {} else if k == 9 {}
        else if k == 10 {} else {}
    }
}

/// The detail that goes with a reason.
spec fn detail_of_reason(reason: Seq<char>) -> Seq<char> {
    if reason == "State divergence"@ {
        "Client and host state diverged. Verify both players have the same mods enabled."@
    } else if reason == "Out of memory"@ {
        "The game ran out of memory. Close other applications or reduce the active mod set."@
    } else {
        crash_pattern(first_row_of(reason)).2
    }
}

/// The row of a reason that occurs in one row only.
spec fn first_row_of(reason: Seq<char>) -> int {
    if reason == "Stack overflow"@ {
        4
    } else if reason == "Null reference"@ {
        5
    } else if reason == "Invalid manifest"@ {
        6
    } else if reason == "Connection timed out"@ {
        7
    } else if reason == "Fatal error"@ {
        8
    } else if reason == "Unhandled exception"@ {
        9
    } else if reason == "Application crashed"@ {
        10
    } else {
        11
    }
}

proof fn lemma_detail_follows_reason(k: int)
    requires
        0 <= k < pattern_count(),
    ensures
        crash_pattern(k).2 == detail_of_reason(crash_pattern(k).1),
{
    reveal_strlit("State divergence");
    reveal_strlit("Out of memory");
    reveal_strlit("Stack overflow");
    reveal_strlit("Null reference");
    reveal_strlit("Invalid manifest");
    reveal_strlit("Connection timed out");
    reveal_strlit("Fatal error");
    reveal_strlit("Unhandled exception");
    reveal_strlit("Application crashed");
    reveal_strlit("Rendering device lost");
    assert("State divergence"@.len() == 16 && "State divergence"@[0] == 'S');
    assert("Out of memory"@.len() == 13);
    assert("Stack overflow"@.len() == 14 && "Stack overflow"@[0] == 'S');
    assert("Null reference"@.len() == 14 && "Null reference"@[0] == 'N');
    assert("Invalid manifest"@.len() == 16 && "Invalid manifest"@[0] == 'I');
    assert("Connection timed out"@.len() == 20);
    assert("Fatal error"@.len() == 11);
    assert("Unhandled exception"@.len() == 19 && "Unhandled exception"@[0] == 'U');
    assert("Application crashed"@.len() == 19 && "Application crashed"@[0] == 'A');
    assert("Rendering device lost"@.len() == 21);
}

/// What the first `n` patterns have found: every pattern that matched has
/// its reason among those seen, and every reason seen (other than the
/// invalid-manifest one) has an issue with that reason, the detail of a
/// row with that reason, and no mods.
proof fn lemma_scan_finds(n: int, lc: Seq<char>, rf: Seq<Seq<char>>)
    requires
        0 <= n <= pattern_count(),
    ensures
        forall|k: int|
            0 <= k < n && contains_seq(lc, lowercase(#[trigger] crash_pattern(k).0))
                ==> issues_scan(n, lc, rf).0.contains(crash_pattern(k).1),
        forall|x: Seq<char>|
            #[trigger] issues_scan(n, lc, rf).0.contains(x) && x != "Invalid manifest"@ ==> exists|
                i: int,
            |
                0 <= i < issues_scan(n, lc, rf).1.len() && (#[trigger] issues_scan(n, lc, rf).1[i]).reason
                    == x && issues_scan(n, lc, rf).1[i].detail == detail_of_reason(x)
                    && issues_scan(n, lc, rf).1[i].mods.len() == 0,
    decreases n,
{
    if n > 0 {
        lemma_scan_finds(n - 1, lc, rf);
        lemma_detail_follows_reason(n - 1);
        let (seen, issues) = issues_scan(n - 1, lc, rf);
        let (pat, reason, detail) = crash_pattern(n - 1);
        let (seen2, issues2) = issues_scan(n, lc, rf);
        assert forall|k: int|
            0 <= k < n && contains_seq(lc, lowercase(#[trigger] crash_pattern(k).0)) implies seen2.contains(
            crash_pattern(k).1,
        ) by {
            if k < n - 1 {
                assert(seen.contains(crash_pattern(k).1));
                if seen2 != seen {
                    assert(seen2 == seen.push(reason));
                    let t = choose|t: int| 0 <= t < seen.len() && seen[t] == crash_pattern(k).1;
                    assert(seen2[t] == seen[t]);
                }
            } else {
                if !seen.contains(reason) {
                    assert(seen2 == seen.push(reason));
                    assert(seen2[seen.len() as int] == reason);
                }
            }
        }
        assert forall|x: Seq<char>|
            #[trigger] seen2.contains(x) && x != "Invalid manifest"@ implies exists|i: int|
                0 <= i < issues2.len() && (#[trigger] issues2[i]).reason == x && issues2[i].detail
                    == detail_of_reason(x) && issues2[i].mods.len() == 0 by {
            if seen.contains(x) {
                let i = choose|i: int|
                    0 <= i < issues.len() && (#[trigger] issues[i]).reason == x && issues[i].detail
                        == detail_of_reason(x) && issues[i].mods.len() == 0;
                if issues2 != issues {
                    assert(issues2[i] == issues[i]);
                }
                assert(issues2[i] == issues[i]);
            } else {
                assert(seen2 == seen.push(reason));
                let t = choose|t: int| 0 <= t < seen2.len() && seen2[t] == x;
                if t < seen.len() {
                    assert(seen2[t] == seen[t]);
                }
                assert(x == reason);
                assert(issues2 == issues.push(IssueModel { reason, detail, mods: Seq::empty() }));
                assert(issues2[issues.len() as int].reason == x);
            }
        }
    }
}

/// A log whose text contains a cause's text, in any case, reports that
/// cause: an issue with the reason and the detail the crash table gives
/// for it, naming no mods. (A missing manifest `id` is reported only when
/// some manifest really failed, and then names those mods.) For example a
/// log holding `StackOverflowException` reports "Stack overflow" with the
/// advice to isolate the recursing mod.
pub proof fn lemma_crash_causes_reported(content: Seq<char>, log_file: Seq<char>, r: CrashReport)
    requires
        crash_report_of(content, log_file, r),
    ensures
        forall|k: int|
            0 <= k < crash_causes().len() && crash_causes()[k].1 != "Invalid manifest"@
                && contains_seq(lowercase(content), lowercase(#[trigger] crash_causes()[k].0))
                ==> exists|i: int|
                0 <= i < r.issues@.len() && (#[trigger] issue_view(r.issues@[i])).reason
                    == crash_causes()[k].1 && issue_view(r.issues@[i]).detail == crash_causes()[k].2
                    && issue_view(r.issues@[i]).mods.len() == 0,
{
    let ls = lines(content);
    let rf = really_failed_of(manifests_of(ls), loaded_of(ls));
    let lc = lowercase(content);
    lemma_patterns_are_the_causes();
    lemma_scan_finds(pattern_count(), lc, rf);
    let iv = r.issues@.map_values(|i: CrashIssue| issue_view(i));
    assert forall|k: int|
        0 <= k < crash_causes().len() && crash_causes()[k].1 != "Invalid manifest"@
            && contains_seq(lc, lowercase(#[trigger] crash_causes()[k].0)) implies exists|i: int|
        0 <= i < r.issues@.len() && (#[trigger] issue_view(r.issues@[i])).reason
            == crash_causes()[k].1 && issue_view(r.issues@[i]).detail == crash_causes()[k].2
            && issue_view(r.issues@[i]).mods.len() == 0 by {
        assert(crash_pattern(k) == crash_causes()[k]);
        lemma_detail_follows_reason(k);
        let x = crash_pattern(k).1;
        assert(issues_scan(pattern_count(), lc, rf).0.contains(x));
        let i = choose|i: int|
            0 <= i < issues_scan(pattern_count(), lc, rf).1.len() && (#[trigger] issues_scan(
                pattern_count(),
                lc,
                rf,
            ).1[i]).reason == x && issues_scan(pattern_count(), lc, rf).1[i].detail
                == detail_of_reason(x) && issues_scan(pattern_count(), lc, rf).1[i].mods.len() == 0;
        assert(iv[i] == issue_view(r.issues@[i]));
    }
}

} // verus!
