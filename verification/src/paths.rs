//! Where the manager keeps its files: the per-user configuration and data
//! directories under the current application name, the directories of the
//! name older versions used, and the fallback under the working directory.
//!
//! A path is modelled as a base directory and the components below it; the
//! base is either a directory the platform reported or the working directory.

use vstd::prelude::*;
use crate::text::opt_chars;
use crate::text::{owned, chars_eq, chars_of, string_of};
use std::path::PathBuf;

verus! {

#[verifier::external_type_specification]
#[verifier::external_body]
pub struct ExPathBuf(PathBuf);

/// `PathBuf::clone`: a copy equal to the path it was made from.
pub assume_specification[ <PathBuf as Clone>::clone ](p: &PathBuf) -> (r: PathBuf)
    ensures
        r == *p,
;

/// The directory name of the current application.
pub open spec fn current_app_dir_name() -> Seq<char> {
    "NexusModManager"@
}

/// The directory name older versions used.
pub open spec fn legacy_app_dir_name() -> Seq<char> {
    "STS2ModManager"@
}

/// Where a path starts.
#[derive(Debug, Clone)]
pub enum PathBase {
    /// A directory the platform reported.
    Dir(PathBuf),
    /// The working directory (`.`).
    Current,
}

/// A base directory and the components below it.
#[derive(Debug, Clone)]
pub struct AppPath {
    pub base: PathBase,
    pub parts: Vec<String>,
}

/// The components of a path as character sequences.
pub open spec fn parts_of(p: AppPath) -> Seq<Seq<char>> {
    p.parts@.map_values(|s: String| s@)
}

/// `dirs::config_dir`: the per-user configuration directory of the platform,
/// if it has one. It depends on the platform and the environment; nothing is
/// claimed of it.
#[verifier::external_body]
fn platform_config_dir() -> Option<PathBuf> {
    dirs::config_dir()
}

/// `dirs::data_dir`: the per-user data directory of the platform, if it has
/// one. It depends on the platform and the environment; nothing is claimed
/// of it.
#[verifier::external_body]
fn platform_data_dir() -> Option<PathBuf> {
    dirs::data_dir()
}

/// `PathBuf::from(".")`: the working directory as a relative path.
#[verifier::external_body]
fn dot_path() -> PathBuf {
    PathBuf::from(".")
}

/// `Path::join`: `base` with the component `part` appended. Its exact text
/// depends on the platform's separator; nothing is claimed of it.
#[verifier::external_body]
fn join_component(base: &PathBuf, part: &str) -> PathBuf {
    base.join(part)
}

/// `Path::exists`: whether something is at the path on disk now. Nothing is
/// claimed of the answer.
#[verifier::external_body]
fn exists_on_disk(p: &PathBuf) -> bool {
    p.exists()
}

/// The platform path an `AppPath` stands for: the base directory with each
/// component joined on in turn. With no components it is the base itself.
pub fn to_path_buf(p: &AppPath) -> (r: PathBuf)
    ensures
        p.parts@.len() == 0 ==> (p.base matches PathBase::Dir(d) ==> r == d),
{
    let mut out = match &p.base {
        PathBase::Dir(d) => d.clone(),
        PathBase::Current => dot_path(),
    };
    let mut i: usize = 0;
    while i < p.parts.len()
        invariant
            i <= p.parts.len(),
            i == 0 ==> (p.base matches PathBase::Dir(d) ==> out == d),
        decreases p.parts.len() - i,
    {
        out = join_component(&out, p.parts[i].as_str());
        i = i + 1;
    }
    out
}

/// Whether something is at `p` on disk now.
pub fn path_exists(p: &AppPath) -> bool {
    exists_on_disk(&to_path_buf(p))
}

/// A path with base `base` and components `parts` was probed with
/// `path_exists` and reported occupied.
pub open spec fn probed_occupied(base: PathBase, parts: Seq<Seq<char>>) -> bool {
    exists|c: AppPath|
        c.base == base && parts_of(c) == parts && #[trigger] call_ensures(path_exists, (&c,), true)
}

fn copy_base(b: &PathBase) -> (r: PathBase)
    ensures
        r == *b,
{
    match b {
        PathBase::Dir(d) => PathBase::Dir(d.clone()),
        PathBase::Current => PathBase::Current,
    }
}


/// A copy of `p`.
pub fn copy_path(p: &AppPath) -> (r: AppPath)
    ensures
        r.base == p.base,
        parts_of(r) == parts_of(*p),
{
    let mut parts: Vec<String> = Vec::new();
    let mut i: usize = 0;
    while i < p.parts.len()
        invariant
            i <= p.parts.len(),
            parts@.map_values(|s: String| s@) == parts_of(*p).take(i as int),
        decreases p.parts.len() - i,
    {
        let ghost before = parts@;
        let c = p.parts[i].clone();
        parts.push(c);
        assert(parts@.map_values(|s: String| s@) =~= before.map_values(|s: String| s@).push(
            p.parts@[i as int]@,
        ));
        assert(parts_of(*p).take(i + 1) =~= parts_of(*p).take(i as int).push(
            parts_of(*p)[i as int],
        ));
        i = i + 1;
    }
    assert(parts_of(*p).take(p.parts.len() as int) =~= parts_of(*p));
    AppPath { base: copy_base(&p.base), parts }
}

/// `a` and `b` have the same base and the same components.
pub open spec fn same_place(a: AppPath, b: AppPath) -> bool {
    a.base == b.base && parts_of(a) == parts_of(b)
}

/// `p` with the component `part` appended.
pub fn join(p: &AppPath, part: &str) -> (r: AppPath)
    ensures
        r.base == p.base,
        parts_of(r) == parts_of(*p).push(part@),
{
    let mut parts: Vec<String> = Vec::new();
    let mut i: usize = 0;
    while i < p.parts.len()
        invariant
            i <= p.parts.len(),
            parts@.map_values(|s: String| s@) == parts_of(*p).take(i as int),
        decreases p.parts.len() - i,
    {
        let ghost before = parts@;
        let c = p.parts[i].clone();
        parts.push(c);
        assert(parts@.map_values(|s: String| s@) =~= before.map_values(|s: String| s@).push(
            p.parts@[i as int]@,
        ));
        assert(parts_of(*p).take(i + 1) =~= parts_of(*p).take(i as int).push(
            parts_of(*p)[i as int],
        ));
        i = i + 1;
    }
    let ghost before = parts@;
    let last = owned(part);
    parts.push(last);
    assert(parts_of(*p).take(p.parts.len() as int) =~= parts_of(*p));
    assert(parts@.map_values(|s: String| s@) =~= before.map_values(|s: String| s@).push(part@));
    AppPath { base: copy_base(&p.base), parts }
}

/// `base` with the single component `app_name` below it.
pub fn with_app_name(base: Option<PathBuf>, app_name: &str) -> (r: Option<AppPath>)
    ensures
        r is Some <==> base is Some,
        r matches Some(p) ==> p.base == PathBase::Dir(base->0) && parts_of(p) == seq![app_name@],
{
    match base {
        Some(dir) => {
            let mut parts: Vec<String> = Vec::new();
            parts.push(owned(app_name));
            let p = AppPath { base: PathBase::Dir(dir), parts };
            assert(parts_of(p) =~= seq![app_name@]);
            Some(p)
        },
        None => None,
    }
}

/// `NexusModManager` under the platform configuration directory.
pub fn current_config_dir() -> (r: Option<AppPath>)
    ensures
        r matches Some(p) ==> p.base is Dir && parts_of(p) == seq![current_app_dir_name()],
{
    with_app_name(platform_config_dir(), "NexusModManager")
}

/// `STS2ModManager` under the platform configuration directory.
pub fn legacy_config_dir() -> (r: Option<AppPath>)
    ensures
        r matches Some(p) ==> p.base is Dir && parts_of(p) == seq![legacy_app_dir_name()],
{
    with_app_name(platform_config_dir(), "STS2ModManager")
}

/// `NexusModManager` under the platform data directory.
pub fn current_data_dir() -> (r: Option<AppPath>)
    ensures
        r matches Some(p) ==> p.base is Dir && parts_of(p) == seq![current_app_dir_name()],
{
    with_app_name(platform_data_dir(), "NexusModManager")
}

/// `STS2ModManager` under the platform data directory.
pub fn legacy_data_dir() -> (r: Option<AppPath>)
    ensures
        r matches Some(p) ==> p.base is Dir && parts_of(p) == seq![legacy_app_dir_name()],
{
    with_app_name(platform_data_dir(), "STS2ModManager")
}

/// A directory named `NexusModManager`: under the platform directory `dir`
/// when there is one, under the working directory otherwise.
pub fn writable_dir_from(dir: Option<AppPath>) -> (r: AppPath)
    requires
        dir matches Some(p) ==> parts_of(p) == seq![current_app_dir_name()],
    ensures
        parts_of(r) == seq![current_app_dir_name()],
        dir matches Some(p) ==> r == p,
        dir is None ==> r.base is Current,
{
    match dir {
        Some(p) => p,
        None => {
            let mut parts: Vec<String> = Vec::new();
            parts.push(owned("NexusModManager"));
            let p = AppPath { base: PathBase::Current, parts };
            assert(parts_of(p) =~= seq![current_app_dir_name()]);
            p
        },
    }
}

/// The configuration directory to write to.
pub fn writable_config_dir() -> (r: AppPath)
    ensures
        parts_of(r) == seq![current_app_dir_name()],
{
    writable_dir_from(current_config_dir())
}

/// The data directory to write to.
pub fn writable_data_dir() -> (r: AppPath)
    ensures
        parts_of(r) == seq![current_app_dir_name()],
{
    writable_dir_from(current_data_dir())
}

/// The configuration file `file_name` to write to.
pub fn current_config_file(file_name: &str) -> (r: AppPath)
    ensures
        parts_of(r) == seq![current_app_dir_name(), file_name@],
{
    let r = join(&writable_config_dir(), file_name);
    assert(parts_of(r) =~= seq![current_app_dir_name(), file_name@]);
    r
}

/// The data file `file_name` to write to.
pub fn current_data_file(file_name: &str) -> (r: AppPath)
    ensures
        parts_of(r) == seq![current_app_dir_name(), file_name@],
{
    let r = join(&writable_data_dir(), file_name);
    assert(parts_of(r) =~= seq![current_app_dir_name(), file_name@]);
    r
}

/// The configuration file `file_name` where older versions kept it.
pub fn legacy_config_file(file_name: &str) -> (r: Option<AppPath>)
    ensures
        r matches Some(p) ==> p.base is Dir && parts_of(p) == seq![
            legacy_app_dir_name(),
            file_name@,
        ],
{
    match legacy_config_dir() {
        Some(dir) => {
            let r = join(&dir, file_name);
            assert(parts_of(r) =~= seq![legacy_app_dir_name(), file_name@]);
            Some(r)
        },
        None => None,
    }
}

/// The data file `file_name` where older versions kept it.
pub fn legacy_data_file(file_name: &str) -> (r: Option<AppPath>)
    ensures
        r matches Some(p) ==> p.base is Dir && parts_of(p) == seq![
            legacy_app_dir_name(),
            file_name@,
        ],
{
    match legacy_data_dir() {
        Some(dir) => {
            let r = join(&dir, file_name);
            assert(parts_of(r) =~= seq![legacy_app_dir_name(), file_name@]);
            Some(r)
        },
        None => None,
    }
}

/// What a search for a free name does after probing its candidate number
/// `index` (0 is the name itself, `n >= 1` the `n`-th alternative).
pub enum SearchStep {
    /// The candidate is free: take it.
    Take(u64),
    /// The candidate is occupied: probe the next one.
    Next(u64),
    /// The last candidate allowed is occupied too: stop.
    GiveUp,
}

/// The step after probing candidate `index` of at most `limit`: take it when
/// it is free, else go on to the next one, or give up after the last.
pub fn search_step(index: u64, occupied: bool, limit: u64) -> (r: SearchStep)
    requires
        index <= limit,
    ensures
        !occupied ==> r == SearchStep::Take(index),
        occupied && index < limit ==> r == SearchStep::Next((index + 1) as u64),
        occupied && index == limit ==> r is GiveUp,
{
    if !occupied {
        SearchStep::Take(index)
    } else if index < limit {
        SearchStep::Next(index + 1)
    } else {
        SearchStep::GiveUp
    }
}

/// Of the current and the legacy file, the first that exists: the current
/// one when `current_exists`, else the legacy one when there is one and
/// `legacy_exists` says it exists.
pub fn choose_existing(
    current: AppPath,
    current_exists: bool,
    legacy: Option<AppPath>,
    legacy_exists: bool,
) -> (r: Option<AppPath>)
    ensures
        current_exists ==> r == Some(current),
        !current_exists ==> r == (if legacy is Some && legacy_exists {
            legacy
        } else {
            None
        }),
{
    if current_exists {
        Some(current)
    } else {
        match legacy {
            Some(p) => if legacy_exists {
                Some(p)
            } else {
                None
            },
            None => None,
        }
    }
}

/// The configuration file `file_name` that exists: the current one if it
/// does, else the legacy one if it does.
pub fn existing_config_file(file_name: &str) -> (r: Option<AppPath>)
    ensures
        r matches Some(p) ==> parts_of(p) == seq![current_app_dir_name(), file_name@] || (
        p.base is Dir && parts_of(p) == seq![legacy_app_dir_name(), file_name@]),
{
    let current = current_config_file(file_name);
    let current_exists = path_exists(&current);
    let legacy = if current_exists {
        None
    } else {
        legacy_config_file(file_name)
    };
    let legacy_exists = match &legacy {
        Some(p) => path_exists(p),
        None => false,
    };
    choose_existing(current, current_exists, legacy, legacy_exists)
}

/// The data file `file_name` that exists: the current one if it does, else
/// the legacy one if it does.
pub fn existing_data_file(file_name: &str) -> (r: Option<AppPath>)
    ensures
        r matches Some(p) ==> parts_of(p) == seq![current_app_dir_name(), file_name@] || (
        p.base is Dir && parts_of(p) == seq![legacy_app_dir_name(), file_name@]),
{
    let current = current_data_file(file_name);
    let current_exists = path_exists(&current);
    let legacy = if current_exists {
        None
    } else {
        legacy_data_file(file_name)
    };
    let legacy_exists = match &legacy {
        Some(p) => path_exists(p),
        None => false,
    };
    choose_existing(current, current_exists, legacy, legacy_exists)
}

/// `PathBuf == PathBuf`: the two paths compared component by component.
/// Equal values compare equal; when the two differ in text the answer
/// depends on the platform's path syntax and is not restated.
#[verifier::external_body]
fn same_platform_dir(a: &PathBuf, b: &PathBuf) -> (r: bool)
    ensures
        *a == *b ==> r,
{
    a == b
}

fn parts_equal(a: &AppPath, b: &AppPath) -> (r: bool)
    ensures
        r == (parts_of(*a) == parts_of(*b)),
{
    if a.parts.len() != b.parts.len() {
        return false;
    }
    let mut i: usize = 0;
    while i < a.parts.len()
        invariant
            i <= a.parts.len() == b.parts.len(),
            forall|j: int| 0 <= j < i ==> parts_of(*a)[j] == parts_of(*b)[j],
        decreases a.parts.len() - i,
    {
        let x = chars_of(a.parts[i].as_str());
        let y = chars_of(b.parts[i].as_str());
        if !chars_eq(&x, &y) {
            assert(parts_of(*a)[i as int] != parts_of(*b)[i as int]);
            return false;
        }
        i = i + 1;
    }
    assert(parts_of(*a) =~= parts_of(*b));
    true
}

/// Whether `a` and `b` name the same place: the same components below the
/// same base, the platform directories compared with `PathBuf`'s `==`.
pub fn same_path(a: &AppPath, b: &AppPath) -> (r: bool)
    ensures
        r ==> parts_of(*a) == parts_of(*b),
        parts_of(*a) == parts_of(*b) && a.base == b.base ==> r,
{
    if !parts_equal(a, b) {
        return false;
    }
    match (&a.base, &b.base) {
        (PathBase::Current, PathBase::Current) => true,
        (PathBase::Dir(x), PathBase::Dir(y)) => same_platform_dir(x, y),
        _ => false,
    }
}

/// Appends `candidate`, when there is one, unless `paths` already holds the
/// same path.
pub fn push_unique_path(paths: &mut Vec<AppPath>, candidate: Option<AppPath>)
    ensures
        candidate is None ==> final(paths)@ == old(paths)@,
        candidate matches Some(c) ==> (final(paths)@ == old(paths)@.push(c) || (final(paths)@
            == old(paths)@ && exists|i: int|
            0 <= i < old(paths)@.len() && parts_of(#[trigger] old(paths)@[i]) == parts_of(c))),
        candidate matches Some(c) ==> ((forall|i: int|
            0 <= i < old(paths)@.len() ==> parts_of(#[trigger] old(paths)@[i]) != parts_of(c))
            ==> final(paths)@ == old(paths)@.push(c)),
        candidate matches Some(c) ==> ((exists|i: int|
            0 <= i < old(paths)@.len() && parts_of(#[trigger] old(paths)@[i]) == parts_of(c)
            && old(paths)@[i].base == c.base) ==> final(paths)@ == old(paths)@),
{
    if candidate.is_none() {
        return;
    }
    let c = candidate.unwrap();
    match position_of_same(paths, &c) {
        Some(i) => {
            assert(parts_of(paths@[i as int]) == parts_of(c));
        },
        None => {
            paths.push(c);
        },
    }
}

fn position_of_same(paths: &Vec<AppPath>, c: &AppPath) -> (r: Option<usize>)
    ensures
        r matches Some(i) ==> i < paths.len() && parts_of(paths@[i as int]) == parts_of(*c),
        r is None ==> forall|j: int|
            0 <= j < paths.len() ==> !(parts_of(#[trigger] paths@[j]) == parts_of(*c)
                && paths@[j].base == c.base),
{
    let mut i: usize = 0;
    while i < paths.len()
        invariant
            i <= paths.len(),
            forall|j: int|
                0 <= j < i ==> !(parts_of(#[trigger] paths@[j]) == parts_of(*c) && paths@[j].base
                    == c.base),
        decreases paths.len() - i,
    {
        if same_path(&paths[i], c) {
            return Some(i);
        }
        i = i + 1;
    }
    None
}

/// The position of the last `.` in `s`, or -1.
pub open spec fn last_dot(s: Seq<char>) -> int
    decreases s.len(),
{
    if s.len() == 0 {
        -1
    } else if s.last() == '.' {
        s.len() - 1
    } else {
        last_dot(s.drop_last())
    }
}

/// A single file name that every platform parses alike: not empty, not `.`
/// or `..`, and free of `/`, `\\` and `:`.
pub open spec fn plain_file_name(s: Seq<char>) -> bool {
    &&& s.len() > 0
    &&& !(s.len() == 1 && s[0] == '.')
    &&& !(s.len() == 2 && s[0] == '.' && s[1] == '.')
    &&& forall|i: int| 0 <= i < s.len() ==> #[trigger] s[i] != '/' && s[i] != '\\' && s[i] != ':'
}

/// The stem of a file name as std documents `Path::file_stem`: the part
/// before the final `.`, or the whole name when its only `.` leads it or it
/// has none.
pub open spec fn stem_of(s: Seq<char>) -> Seq<char> {
    if last_dot(s) <= 0 {
        s
    } else {
        s.take(last_dot(s))
    }
}

/// The extension of a file name as std documents `Path::extension`: the
/// part after the final `.`, none when its only `.` leads it or it has none.
pub open spec fn extension_of(s: Seq<char>) -> Option<Seq<char>> {
    if last_dot(s) <= 0 {
        None
    } else {
        Some(s.skip(last_dot(s) + 1))
    }
}

/// `Path::file_stem` of `file_name`, as text. For a plain file name it is
/// the stem std documents; names with separators or a prefix are parsed by
/// the platform's rules, which are not restated.
#[verifier::external_body]
pub(crate) fn file_stem_text(file_name: &str) -> (r: Option<String>)
    ensures
        plain_file_name(file_name@) ==> opt_chars(r) == Some(stem_of(file_name@)),
{
    std::path::Path::new(file_name).file_stem().and_then(|s| s.to_str()).map(|s| s.to_string())
}

/// `Path::extension` of `file_name`, as text. For a plain file name it is
/// the extension std documents; other names are parsed by the platform's
/// rules, which are not restated.
#[verifier::external_body]
pub(crate) fn extension_text(file_name: &str) -> (r: Option<String>)
    ensures
        plain_file_name(file_name@) ==> opt_chars(r) == extension_of(file_name@),
{
    std::path::Path::new(file_name).extension().and_then(|s| s.to_str()).map(|s| s.to_string())
}

/// The platform configuration directory (where games keep their own data).
pub fn appdata_dir() -> (r: Option<AppPath>)
    ensures
        r matches Some(p) ==> p.base is Dir && parts_of(p) == Seq::<Seq<char>>::empty(),
{
    match platform_config_dir() {
        Some(d) => {
            let p = AppPath { base: PathBase::Dir(d), parts: Vec::new() };
            assert(parts_of(p) =~= Seq::<Seq<char>>::empty());
            Some(p)
        },
        None => None,
    }
}

} // verus!
