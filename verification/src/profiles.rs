//! Mod profiles: named snapshots of which mods are enabled, kept per game in
//! `profiles_<domain>.json` under the configuration directory.
//!
//! A snapshot maps a mod's key (its id, else its folder name) to whether it
//! was enabled. Applying a profile toggles exactly the mods whose state
//! differs from the snapshot; mods the snapshot does not mention are left
//! alone.

use vstd::prelude::*;
use crate::game_profile::{default_game_domain, default_game_domain_spec};
use crate::paths::{
    current_app_dir_name, current_config_dir, current_config_file, join, legacy_app_dir_name,
    legacy_config_dir, parts_of, push_unique_path, AppPath, PathBase,
};
use crate::text::opt_chars;
use crate::json::{at_keys, at_text, json_at, json_value_at, keys_at, pointer_token, pointer_token_chars, text_at, JsonAt};
use crate::text::{
    chars_eq, chars_of, decimal, decimal_chars, owned, pad_right, pad_right_chars, push_all,
    string_of, trim, trim_end, trim_end_chars, trimmed,
};

verus! {

// ---------------------------------------------------------------------------
// Where profiles are kept
// ---------------------------------------------------------------------------

/// The file name of the profiles of the game `domain`.
pub open spec fn profiles_file_name(domain: Seq<char>) -> Seq<char> {
    "profiles_"@ + domain + ".json"@
}

/// The profiles file of the game `nexus_domain`.
pub fn profiles_path(nexus_domain: &str) -> (r: AppPath)
    ensures
        parts_of(r) == seq![current_app_dir_name(), profiles_file_name(nexus_domain@)],
{
    let mut name = chars_of("profiles_");
    push_all(&mut name, &chars_of(nexus_domain));
    push_all(&mut name, &chars_of(".json"));
    let name = string_of(&name);
    current_config_file(name.as_str())
}

/// Each game keeps its own data: two games never share a profiles file or
/// a backup directory.
pub proof fn lemma_game_data_kept_apart(d1: Seq<char>, d2: Seq<char>)
    requires
        d1 != d2,
    ensures
        profiles_file_name(d1) != profiles_file_name(d2),
        crate::saves::backup_dir_parts(d1) != crate::saves::backup_dir_parts(d2),
{
    reveal_strlit("profiles_");
    reveal_strlit(".json");
    let a = profiles_file_name(d1);
    let b = profiles_file_name(d2);
    assert("profiles_"@.len() == 9);
    assert(".json"@.len() == 5);
    assert(a.len() == d1.len() + 14);
    assert(b.len() == d2.len() + 14);
    if a == b {
        assert(d1.len() == d2.len());
        assert(a.subrange(9, 9 + d1.len() as int) =~= d1);
        assert(b.subrange(9, 9 + d2.len() as int) =~= d2);
    }
    assert(crate::saves::backup_dir_parts(d1)[2] == d1);
    assert(crate::saves::backup_dir_parts(d2)[2] == d2);
}

/// `profiles.json` in each of the given directories, the current one first,
/// each path once.
pub fn profile_candidates_in(current: Option<AppPath>, legacy: Option<AppPath>) -> (r: Vec<
    AppPath,
>)
    requires
        current matches Some(p) ==> parts_of(p) == seq![current_app_dir_name()],
        legacy matches Some(p) ==> parts_of(p) == seq![legacy_app_dir_name()],
    ensures
        r.len() == (if current is Some {
            1int
        } else {
            0
        }) + (if legacy is Some {
            1int
        } else {
            0
        }),
        current matches Some(c) ==> r@[0].base == c.base && parts_of(r@[0]) == seq![
            current_app_dir_name(),
            "profiles.json"@,
        ],
        legacy matches Some(l) ==> r@.last().base == l.base && parts_of(r@.last()) == seq![
            legacy_app_dir_name(),
            "profiles.json"@,
        ],
{
    let mut out: Vec<AppPath> = Vec::new();
    let first = match &current {
        Some(dir) => Some(join(dir, "profiles.json")),
        None => None,
    };
    push_unique_path(&mut out, first);
    let second = match &legacy {
        Some(dir) => Some(join(dir, "profiles.json")),
        None => None,
    };
    proof {
        reveal_strlit("NexusModManager");
        reveal_strlit("STS2ModManager");
        if second is Some && out.len() > 0 {
            assert(parts_of(out@[0])[0][0] == 'N');
            assert(parts_of(second->0)[0][0] == 'S');
            assert(parts_of(out@[0]) != parts_of(second->0));
        }
    }
    push_unique_path(&mut out, second);
    out
}

/// Where older versions kept the profiles of the game `nexus_domain`: only
/// the first preset game had profiles then, in `profiles.json` of the
/// current or the legacy configuration directory.
pub fn legacy_profiles_candidates(nexus_domain: &str) -> (r: Vec<AppPath>)
    ensures
        nexus_domain@ != default_game_domain_spec() ==> r.len() == 0,
        r.len() <= 2,
        forall|i: int|
            0 <= i < r.len() ==> (#[trigger] r@[i]).base is Dir && (parts_of(r@[i]) == seq![
                current_app_dir_name(),
                "profiles.json"@,
            ] || parts_of(r@[i]) == seq![legacy_app_dir_name(), "profiles.json"@]),
        r.len() == 2 ==> parts_of(r@[0]) == seq![current_app_dir_name(), "profiles.json"@]
            && parts_of(r@[1]) == seq![legacy_app_dir_name(), "profiles.json"@],
{
    let default = default_game_domain();
    let is_default = match &default {
        Some(d) => chars_eq(&chars_of(d.as_str()), &chars_of(nexus_domain)),
        None => false,
    };
    if !is_default {
        return Vec::new();
    }
    let current = current_config_dir();
    let legacy = legacy_config_dir();
    let r = profile_candidates_in(current, legacy);
    proof {
        assert forall|i: int| 0 <= i < r.len() implies (#[trigger] r@[i]).base is Dir && (
        parts_of(r@[i]) == seq![current_app_dir_name(), "profiles.json"@] || parts_of(r@[i])
            == seq![legacy_app_dir_name(), "profiles.json"@]) by {
            if current is Some && i == 0 {
            } else {
                assert(i == r.len() - 1);
            }
        }
    }
    r
}

/// A file's text, when it could be read, is a JSON document.
pub open spec fn readable_json(t: Option<Seq<char>>) -> bool {
    t matches Some(x) && !(json_at(x, ""@) is Invalid)
}

fn is_json(t: &str) -> (r: bool)
    ensures
        r == !(json_at(t@, ""@) is Invalid),
{
    match json_value_at(t, "") {
        JsonAt::Invalid(_) => false,
        _ => true,
    }
}

/// Where the profiles of a game come from.
pub enum ProfilesSource {
    /// The game's own file.
    Own,
    /// The legacy candidate at this position; it is also written to the
    /// game's own file.
    Legacy(usize),
    /// Nowhere: the game has no profiles yet (an empty object).
    Empty,
}

/// Where the profiles come from, given the text of the game's own file and
/// of each legacy candidate (`None` where a file could not be read): the own
/// file when it is JSON, else the first legacy candidate that is, else none.
pub fn choose_profiles_source(own: &Option<String>, legacy: &Vec<Option<String>>) -> (r:
    ProfilesSource)
    ensures
        readable_json(opt_chars(*own)) ==> r is Own,
        !readable_json(opt_chars(*own)) ==> (r is Empty <==> forall|j: int|
            0 <= j < legacy.len() ==> !readable_json(opt_chars(#[trigger] legacy@[j]))),
        !readable_json(opt_chars(*own)) ==> (r matches ProfilesSource::Legacy(i) ==> i
            < legacy.len() && readable_json(opt_chars(legacy@[i as int])) && forall|j: int|
            0 <= j < i ==> !readable_json(opt_chars(#[trigger] legacy@[j]))),
        !readable_json(opt_chars(*own)) ==> r !is Own,
{
    match own {
        Some(t) => {
            if is_json(t.as_str()) {
                return ProfilesSource::Own;
            }
        },
        None => {},
    }
    let mut i: usize = 0;
    while i < legacy.len()
        invariant
            i <= legacy.len(),
            !readable_json(opt_chars(*own)),
            forall|j: int| 0 <= j < i ==> !readable_json(opt_chars(#[trigger] legacy@[j])),
        decreases legacy.len() - i,
    {
        let ok = match &legacy[i] {
            Some(t) => is_json(t.as_str()),
            None => false,
        };
        if ok {
            return ProfilesSource::Legacy(i);
        }
        i = i + 1;
    }
    ProfilesSource::Empty
}

// ---------------------------------------------------------------------------
// Snapshots
// ---------------------------------------------------------------------------

/// What a profile needs to know of an installed mod.
#[derive(Debug, Clone)]
pub struct ModState {
    /// The mod's id from its manifest, when it has one.
    pub id: Option<String>,
    /// The folder (or file) name the mod is installed under.
    pub folder_name: String,
    /// Whether the mod is enabled now.
    pub enabled: bool,
}

/// The key a snapshot records a mod under: its id, else its folder name.
pub open spec fn mod_key(m: ModState) -> Seq<char> {
    match m.id {
        Some(id) => id@,
        None => m.folder_name@,
    }
}

/// The snapshot of `mods`: each key mapped to the state of the last mod
/// with that key.
pub open spec fn snapshot_map(mods: Seq<ModState>) -> Map<Seq<char>, bool>
    decreases mods.len(),
{
    if mods.len() == 0 {
        Map::empty()
    } else {
        snapshot_map(mods.drop_last()).insert(mod_key(mods.last()), mods.last().enabled)
    }
}

/// `entries` lists the map `m`: each key once, with its value.
pub open spec fn lists_map(entries: Seq<(String, bool)>, m: Map<Seq<char>, bool>) -> bool {
    &&& forall|i: int, j: int|
        0 <= i < j < entries.len() ==> (#[trigger] entries[i]).0@ != (#[trigger] entries[j]).0@
    &&& forall|i: int|
        0 <= i < entries.len() ==> m.dom().contains((#[trigger] entries[i]).0@) && m[entries[i].0@]
            == entries[i].1
    &&& forall|k: Seq<char>|
        #[trigger] m.dom().contains(k) ==> exists|i: int|
            0 <= i < entries.len() && (#[trigger] entries[i]).0@ == k
}

/// The key of `m`, as a string.
pub fn mod_key_of(m: &ModState) -> (r: String)
    ensures
        r@ == mod_key(*m),
{
    match &m.id {
        Some(id) => id.clone(),
        None => m.folder_name.clone(),
    }
}

fn entry_index(entries: &Vec<(String, bool)>, key: &Vec<char>) -> (r: Option<usize>)
    ensures
        r matches Some(i) ==> i < entries.len() && entries@[i as int].0@ == key@ && forall|j: int|
            0 <= j < i ==> (#[trigger] entries@[j]).0@ != key@,
        r is None ==> forall|j: int| 0 <= j < entries.len() ==> (#[trigger] entries@[j]).0@ != key@,
{
    let mut i: usize = 0;
    while i < entries.len()
        invariant
            i <= entries.len(),
            forall|j: int| 0 <= j < i ==> (#[trigger] entries@[j]).0@ != key@,
        decreases entries.len() - i,
    {
        if chars_eq(&chars_of(entries[i].0.as_str()), key) {
            return Some(i);
        }
        i = i + 1;
    }
    None
}

/// The snapshot of `mods` as a list of entries, one per key in the order
/// the keys first appear, each with the state of the last mod under it.
pub fn snapshot_of(mods: &Vec<ModState>) -> (r: Vec<(String, bool)>)
    ensures
        lists_map(r@, snapshot_map(mods@)),
{
    let mut out: Vec<(String, bool)> = Vec::new();
    let mut i: usize = 0;
    assert(mods@.take(0) =~= Seq::<ModState>::empty());
    while i < mods.len()
        invariant
            i <= mods.len(),
            lists_map(out@, snapshot_map(mods@.take(i as int))),
        decreases mods.len() - i,
    {
        let ghost before = out@;
        let ghost m0 = snapshot_map(mods@.take(i as int));
        assert(mods@.take(i + 1).drop_last() =~= mods@.take(i as int));
        assert(mods@.take(i + 1).last() == mods@[i as int]);
        let key = mod_key_of(&mods[i]);
        let enabled = mods[i].enabled;
        let ghost m1 = m0.insert(key@, enabled);
        assert(snapshot_map(mods@.take(i + 1)) == m1);
        let kc = chars_of(key.as_str());
        match entry_index(&out, &kc) {
            Some(k) => {
                out.set(k, (key, enabled));
                assert forall|a: int, b: int|
                    0 <= a < b < out@.len() implies (#[trigger] out@[a]).0@ != (
                    #[trigger] out@[b]).0@ by {
                    assert(before[a].0@ != before[b].0@);
                }
                assert forall|a: int| 0 <= a < out@.len() implies m1.dom().contains(
                    (#[trigger] out@[a]).0@,
                ) && m1[out@[a].0@] == out@[a].1 by {
                    if a != k {
                        assert(before[a].0@ != before[k as int].0@);
                    }
                }
                assert forall|x: Seq<char>| #[trigger] m1.dom().contains(x) implies exists|a: int|
                    0 <= a < out@.len() && (#[trigger] out@[a]).0@ == x by {
                    if x == key@ {
                        assert(out@[k as int].0@ == x);
                    } else {
                        assert(m0.dom().contains(x));
                        let a = choose|a: int| 0 <= a < before.len() && (#[trigger] before[a]).0@ == x;
                        assert(out@[a].0@ == x);
                    }
                }
            },
            None => {
                out.push((key, enabled));
                assert forall|a: int, b: int|
                    0 <= a < b < out@.len() implies (#[trigger] out@[a]).0@ != (
                    #[trigger] out@[b]).0@ by {
                    if b < before.len() {
                        assert(before[a].0@ != before[b].0@);
                    }
                }
                assert forall|a: int| 0 <= a < out@.len() implies m1.dom().contains(
                    (#[trigger] out@[a]).0@,
                ) && m1[out@[a].0@] == out@[a].1 by {
                    if a < before.len() {
                        assert(before[a].0@ != kc@);
                    }
                }
                assert forall|x: Seq<char>| #[trigger] m1.dom().contains(x) implies exists|a: int|
                    0 <= a < out@.len() && (#[trigger] out@[a]).0@ == x by {
                    if x == key@ {
                        assert(out@[before.len() as int].0@ == x);
                    } else {
                        assert(m0.dom().contains(x));
                        let a = choose|a: int| 0 <= a < before.len() && (#[trigger] before[a]).0@ == x;
                        assert(out@[a].0@ == x);
                    }
                }
            },
        }
        i = i + 1;
    }
    assert(mods@.take(mods.len() as int) =~= mods@);
    out
}

// ---------------------------------------------------------------------------
// Applying a profile
// ---------------------------------------------------------------------------

/// The target state a snapshot gives the key `key`: the value of its first
/// entry under that key.
pub open spec fn target_of(snapshot: Seq<(String, bool)>, key: Seq<char>) -> Option<bool>
    decreases snapshot.len(),
{
    if snapshot.len() == 0 {
        None
    } else if snapshot[0].0@ == key {
        Some(snapshot[0].1)
    } else {
        target_of(snapshot.drop_first(), key)
    }
}

/// Whether applying `snapshot` has to toggle `m`.
pub open spec fn needs_toggle(snapshot: Seq<(String, bool)>, m: ModState) -> bool {
    match target_of(snapshot, mod_key(m)) {
        Some(t) => t != m.enabled,
        None => false,
    }
}

/// The positions among the first `n` mods that applying `snapshot` toggles,
/// in increasing order.
pub open spec fn toggle_positions(mods: Seq<ModState>, snapshot: Seq<(String, bool)>, n: nat) -> Seq<
    int,
>
    decreases n,
{
    if n == 0 {
        seq![]
    } else {
        let prev = toggle_positions(mods, snapshot, (n - 1) as nat);
        if needs_toggle(snapshot, mods[n - 1]) {
            prev.push(n - 1)
        } else {
            prev
        }
    }
}

fn target_exec(snapshot: &Vec<(String, bool)>, key: &Vec<char>) -> (r: Option<bool>)
    ensures
        r == target_of(snapshot@, key@),
{
    let mut i: usize = 0;
    assert(snapshot@.subrange(0, snapshot.len() as int) =~= snapshot@);
    while i < snapshot.len()
        invariant
            i <= snapshot.len(),
            target_of(snapshot@, key@) == target_of(snapshot@.subrange(i as int, snapshot.len() as int), key@),
        decreases snapshot.len() - i,
    {
        let ghost rest = snapshot@.subrange(i as int, snapshot.len() as int);
        assert(rest[0] == snapshot@[i as int]);
        if chars_eq(&chars_of(snapshot[i].0.as_str()), key) {
            return Some(snapshot[i].1);
        }
        assert(rest.drop_first() =~= snapshot@.subrange(i + 1, snapshot.len() as int));
        i = i + 1;
    }
    assert(snapshot@.subrange(snapshot.len() as int, snapshot.len() as int).len() == 0);
    None
}

/// The positions of the mods that applying `snapshot` toggles: those the
/// snapshot gives a state other than their current one, in scan order.
pub fn toggles_needed(mods: &Vec<ModState>, snapshot: &Vec<(String, bool)>) -> (r: Vec<usize>)
    ensures
        r@.map_values(|i: usize| i as int) == toggle_positions(mods@, snapshot@, mods.len() as nat),
{
    let mut out: Vec<usize> = Vec::new();
    let mut i: usize = 0;
    while i < mods.len()
        invariant
            i <= mods.len(),
            out@.map_values(|x: usize| x as int) == toggle_positions(mods@, snapshot@, i as nat),
        decreases mods.len() - i,
    {
        let key = chars_of(mod_key_of(&mods[i]).as_str());
        let target = target_exec(snapshot, &key);
        let ghost before = out@;
        let toggle = match target {
            Some(t) => t != mods[i].enabled,
            None => false,
        };
        assert(toggle == needs_toggle(snapshot@, mods@[i as int]));
        if toggle {
            out.push(i);
            assert(out@.map_values(|x: usize| x as int) =~= before.map_values(|x: usize| x as int).push(
                i as int,
            ));
        }
        i = i + 1;
    }
    out
}

/// `m` with its state flipped.
pub open spec fn flipped(m: ModState) -> ModState {
    ModState { enabled: !m.enabled, ..m }
}

/// The mods after toggling those at `positions`.
pub open spec fn after_toggles(mods: Seq<ModState>, positions: Seq<int>) -> Seq<ModState> {
    Seq::new(
        mods.len(),
        |i: int|
            if positions.contains(i) {
                flipped(mods[i])
            } else {
                mods[i]
            },
    )
}

proof fn lemma_toggle_position(mods: Seq<ModState>, snapshot: Seq<(String, bool)>, n: nat, i: int)
    requires
        n <= mods.len(),
        0 <= i < mods.len(),
    ensures
        toggle_positions(mods, snapshot, n).contains(i) <==> (i < n && needs_toggle(snapshot, mods[i])),
    decreases n,
{
    if n > 0 {
        lemma_toggle_position(mods, snapshot, (n - 1) as nat, i);
        let prev = toggle_positions(mods, snapshot, (n - 1) as nat);
        let cur = toggle_positions(mods, snapshot, n);
        if needs_toggle(snapshot, mods[n - 1]) {
            assert(cur == prev.push(n - 1));
            if cur.contains(i) {
                let k = choose|k: int| 0 <= k < cur.len() && cur[k] == i;
                if k < prev.len() {
                    assert(prev[k] == i);
                    assert(prev.contains(i));
                }
            }
            if i == n - 1 {
                assert(cur[prev.len() as int] == i);
            } else if i < n - 1 && needs_toggle(snapshot, mods[i]) {
                let k = choose|k: int| 0 <= k < prev.len() && prev[k] == i;
                assert(cur[k] == i);
            }
        }
    }
}

/// Applying a profile leaves every mod the snapshot mentions in the state
/// the snapshot records, and every other mod as it was.
pub proof fn lemma_apply_reaches_snapshot(mods: Seq<ModState>, snapshot: Seq<(String, bool)>)
    ensures
        ({
            let after = after_toggles(mods, toggle_positions(mods, snapshot, mods.len()));
            &&& after.len() == mods.len()
            &&& forall|i: int|
                0 <= i < mods.len() ==> match target_of(snapshot, mod_key(#[trigger] mods[i])) {
                    Some(t) => after[i].enabled == t && after[i].id == mods[i].id
                        && after[i].folder_name == mods[i].folder_name,
                    None => after[i] == mods[i],
                }
        }),
{
    let after = after_toggles(mods, toggle_positions(mods, snapshot, mods.len()));
    assert forall|i: int| 0 <= i < mods.len() implies match target_of(
        snapshot,
        mod_key(#[trigger] mods[i]),
    ) {
        Some(t) => after[i].enabled == t && after[i].id == mods[i].id && after[i].folder_name
            == mods[i].folder_name,
        None => after[i] == mods[i],
    } by {
        lemma_toggle_position(mods, snapshot, mods.len(), i);
    }
}

proof fn lemma_target_of_listed(snapshot: Seq<(String, bool)>, m: Map<Seq<char>, bool>, k: Seq<char>)
    requires
        lists_map(snapshot, m),
        m.dom().contains(k),
    ensures
        target_of(snapshot, k) == Some(m[k]),
    decreases snapshot.len(),
{
    if snapshot[0].0@ != k {
        let rest = snapshot.drop_first();
        assert(lists_map(rest, m.remove(snapshot[0].0@))) by {
            assert forall|i: int| 0 <= i < rest.len() implies m.remove(snapshot[0].0@).dom().contains(
                (#[trigger] rest[i]).0@,
            ) && m.remove(snapshot[0].0@)[rest[i].0@] == rest[i].1 by {
                assert(rest[i] == snapshot[i + 1]);
                assert(snapshot[0].0@ != snapshot[i + 1].0@);
            }
            assert forall|x: Seq<char>| #[trigger] m.remove(snapshot[0].0@).dom().contains(
                x,
            ) implies exists|i: int| 0 <= i < rest.len() && (#[trigger] rest[i]).0@ == x by {
                let i = choose|i: int| 0 <= i < snapshot.len() && (#[trigger] snapshot[i]).0@ == x;
                assert(i != 0);
                assert(rest[i - 1] == snapshot[i]);
            }
            assert forall|i: int, j: int| 0 <= i < j < rest.len() implies (#[trigger] rest[i]).0@
                != (#[trigger] rest[j]).0@ by {
                assert(rest[i] == snapshot[i + 1]);
                assert(rest[j] == snapshot[j + 1]);
            }
        }
        lemma_target_of_listed(rest, m.remove(snapshot[0].0@), k);
    }
}

/// Keys of `mods` are pairwise distinct.
pub open spec fn keys_distinct(mods: Seq<ModState>) -> bool {
    forall|i: int, j: int|
        0 <= i < j < mods.len() ==> mod_key(#[trigger] mods[i]) != mod_key(#[trigger] mods[j])
}

proof fn lemma_snapshot_map_at(mods: Seq<ModState>, i: int)
    requires
        keys_distinct(mods),
        0 <= i < mods.len(),
    ensures
        snapshot_map(mods).dom().contains(mod_key(mods[i])),
        snapshot_map(mods)[mod_key(mods[i])] == mods[i].enabled,
    decreases mods.len(),
{
    if i < mods.len() - 1 {
        let prev = mods.drop_last();
        assert(keys_distinct(prev)) by {
            assert forall|a: int, b: int| 0 <= a < b < prev.len() implies mod_key(#[trigger] prev[a])
                != mod_key(#[trigger] prev[b]) by {
                assert(prev[a] == mods[a] && prev[b] == mods[b]);
            }
        }
        assert(prev[i] == mods[i]);
        lemma_snapshot_map_at(prev, i);
        assert(mod_key(mods[i]) != mod_key(mods[mods.len() - 1]));
    }
}

/// A snapshot taken of mods with distinct keys, applied to the same mods,
/// toggles nothing.
pub proof fn lemma_fresh_snapshot_toggles_nothing(mods: Seq<ModState>, snapshot: Seq<(String, bool)>)
    requires
        keys_distinct(mods),
        lists_map(snapshot, snapshot_map(mods)),
    ensures
        toggle_positions(mods, snapshot, mods.len()) == Seq::<int>::empty(),
{
    let t = toggle_positions(mods, snapshot, mods.len());
    assert forall|i: int| 0 <= i < mods.len() implies !needs_toggle(snapshot, #[trigger] mods[i]) by {
        lemma_snapshot_map_at(mods, i);
        lemma_target_of_listed(snapshot, snapshot_map(mods), mod_key(mods[i]));
    }
    lemma_toggle_positions_bounded(mods, snapshot, mods.len());
    if t.len() > 0 {
        let i0 = t[0];
        assert(0 <= i0 < mods.len());
        assert(t.contains(i0));
        lemma_toggle_position(mods, snapshot, mods.len(), i0);
        assert(needs_toggle(snapshot, mods[i0]));
    }
}

proof fn lemma_toggle_positions_bounded(mods: Seq<ModState>, snapshot: Seq<(String, bool)>, n: nat)
    ensures
        forall|k: int|
            0 <= k < toggle_positions(mods, snapshot, n).len() ==> 0 <= #[trigger] toggle_positions(
                mods,
                snapshot,
                n,
            )[k] < n,
    decreases n,
{
    if n > 0 {
        lemma_toggle_positions_bounded(mods, snapshot, (n - 1) as nat);
        let prev = toggle_positions(mods, snapshot, (n - 1) as nat);
        let cur = toggle_positions(mods, snapshot, n);
        assert forall|k: int| 0 <= k < cur.len() implies 0 <= #[trigger] cur[k] < n by {
            if k < prev.len() {
                assert(cur[k] == prev[k]);
            }
        }
    }
}

// ---------------------------------------------------------------------------
// Messages

// ---------------------------------------------------------------------------

/// The message when no game is selected.
pub open spec fn no_game_message() -> Seq<char> {
    "尚未选择游戏，请用 `nmm games switch <domain>` 设置"@
}

/// The domain of the selected game, or the message that none is selected.
pub fn selected_domain(domain: Option<String>) -> (r: Result<String, String>)
    ensures
        domain matches Some(d) ==> r == Ok::<String, String>(d),
        domain is None ==> (r matches Err(e) && e@ == no_game_message()),
{
    match domain {
        Some(d) => Ok(d),
        None => Err(owned("尚未选择游戏，请用 `nmm games switch <domain>` 设置")),
    }
}

/// The name a profile is saved under: `name` trimmed, which must not be
/// empty.
pub fn profile_name_for_save(name: &str) -> (r: Result<String, String>)
    ensures
        trim(name@).len() > 0 ==> (r matches Ok(n) && n@ == trim(name@)),
        trim(name@).len() == 0 ==> (r matches Err(e) && e@ == "profile 名称不能为空"@),
{
    let t = trimmed(name);
    if t.len() == 0 {
        Err(owned("profile 名称不能为空"))
    } else {
        Ok(string_of(&t))
    }
}

/// The report of a saved profile.
pub open spec fn saved_message_spec(count: nat, name: Seq<char>) -> Seq<char> {
    "已保存 "@ + decimal(count) + " 个 mod 状态到档案 `"@ + name + "`"@
}

/// The report of a saved profile holding `count` mod states.
pub fn saved_message(count: u64, name: &str) -> (r: String)
    ensures
        r@ == saved_message_spec(count as nat, name@),
{
    let mut out = chars_of("已保存 ");
    push_all(&mut out, &decimal_chars(count));
    push_all(&mut out, &chars_of(" 个 mod 状态到档案 `"));
    push_all(&mut out, &chars_of(name));
    push_all(&mut out, &chars_of("`"));
    string_of(&out)
}

/// The report of an applied profile.
pub open spec fn applied_message_spec(name: Seq<char>, toggled: nat) -> Seq<char> {
    "已应用档案 `"@ + name + "`：切换了 "@ + decimal(toggled) + " 个 mod 的状态"@
}

/// The report of an applied profile that toggled `toggled` mods.
pub fn applied_message(name: &str, toggled: u64) -> (r: String)
    ensures
        r@ == applied_message_spec(name@, toggled as nat),
{
    let mut out = chars_of("已应用档案 `");
    push_all(&mut out, &chars_of(name));
    push_all(&mut out, &chars_of("`：切换了 "));
    push_all(&mut out, &decimal_chars(toggled));
    push_all(&mut out, &chars_of(" 个 mod 的状态"));
    string_of(&out)
}

/// The error when toggling the mod in `folder_name` failed.
pub fn toggle_failed_message(folder_name: &str, error: Option<String>) -> (r: String)
    ensures
        r@ == "toggle "@ + folder_name@ + " 失败: "@ + (match error {
            Some(e) => e@,
            None => "未知"@,
        }),
{
    let mut out = chars_of("toggle ");
    push_all(&mut out, &chars_of(folder_name));
    push_all(&mut out, &chars_of(" 失败: "));
    match &error {
        Some(e) => push_all(&mut out, &chars_of(e.as_str())),
        None => push_all(&mut out, &chars_of("未知")),
    }
    string_of(&out)
}

/// The names of the available profiles, one per line after a heading.
pub open spec fn available_lines(names: Seq<Seq<char>>) -> Seq<char>
    decreases names.len(),
{
    if names.len() == 0 {
        seq![]
    } else {
        available_lines(names.drop_last()) + "\n  "@ + names.last()
    }
}

/// The error when no profile is named `name`, listing the available ones.
pub open spec fn not_found_message_spec(name: Seq<char>, available: Seq<Seq<char>>) -> Seq<char> {
    "未找到档案 `"@ + name + "`"@ + if available.len() == 0 {
        Seq::<char>::empty()
    } else {
        "\n可用档案："@ + available_lines(available)
    }
}

/// The error when no profile is named `name`.
pub fn profile_not_found_message(name: &str, available: &Vec<String>) -> (r: String)
    ensures
        r@ == not_found_message_spec(name@, available@.map_values(|s: String| s@)),
{
    let mut out = chars_of("未找到档案 `");
    push_all(&mut out, &chars_of(name));
    push_all(&mut out, &chars_of("`"));
    let ghost head = out@;
    let ghost names = available@.map_values(|s: String| s@);
    if available.len() > 0 {
        push_all(&mut out, &chars_of("\n可用档案："));
        let ghost head2 = out@;
        let mut i: usize = 0;
        while i < available.len()
            invariant
                i <= available.len(),
                names == available@.map_values(|s: String| s@),
                out@ == head2 + available_lines(names.take(i as int)),
            decreases available.len() - i,
        {
            assert(names.take(i + 1).drop_last() =~= names.take(i as int));
            push_all(&mut out, &chars_of("\n  "));
            push_all(&mut out, &chars_of(available[i].as_str()));
            proof {
                assert(names.take(i + 1).last() == available@[i as int]@);
                assert(out@ =~= head2 + available_lines(names.take(i + 1)));
            }
            i = i + 1;
        }
        assert(names.take(available.len() as int) =~= names);
    }
    string_of(&out)
}

// ---------------------------------------------------------------------------
// Listing
// ---------------------------------------------------------------------------

/// What a listing shows of one profile.
#[derive(Debug, Clone)]
pub struct ProfileSummary {
    pub name: String,
    /// How many mod states its snapshot records.
    pub mod_count: u64,
    /// When it was saved, if recorded.
    pub saved_at: Option<String>,
}

/// The pointer to `field` of the profile `name` in a profiles document.
pub open spec fn profile_field_pointer(name: Seq<char>, field: Seq<char>) -> Seq<char> {
    "/"@ + pointer_token(name) + "/"@ + field
}

/// The profiles a profiles document names: the keys of its top-level
/// object, none when it is not an object.
pub open spec fn profile_names_in_json(t: Seq<char>) -> Seq<Seq<char>> {
    match at_keys(json_at(t, ""@)) {
        Some(k) => k,
        None => seq![],
    }
}

/// What a listing shows of the profile `name` in the profiles document `t`:
/// how many keys its `snapshot` object has (0 without one), and its
/// `savedAt` text.
pub open spec fn summary_in_json(t: Seq<char>, name: Seq<char>) -> (nat, Option<Seq<char>>) {
    (
        match at_keys(json_at(t, profile_field_pointer(name, "snapshot"@))) {
            Some(k) => k.len(),
            None => 0,
        },
        at_text(json_at(t, profile_field_pointer(name, "savedAt"@))),
    )
}

fn profile_field_text(name: &str, field: &str) -> (r: String)
    ensures
        r@ == profile_field_pointer(name@, field@),
{
    let mut v = chars_of("/");
    push_all(&mut v, &pointer_token_chars(name));
    push_all(&mut v, &chars_of("/"));
    push_all(&mut v, &chars_of(field));
    string_of(&v)
}

/// What a listing shows of each profile of the profiles document `text`,
/// in the document's order.
pub fn profile_summaries(text: &str) -> (r: Vec<ProfileSummary>)
    ensures
        r@.len() == profile_names_in_json(text@).len(),
        forall|i: int|
            0 <= i < r@.len() ==> (#[trigger] r@[i]).name@ == profile_names_in_json(text@)[i] && (
            r@[i].mod_count as nat,
            opt_chars(r@[i].saved_at),
        ) == summary_in_json(text@, profile_names_in_json(text@)[i]),
{
    let ghost names_v = profile_names_in_json(text@);
    let names = match keys_at(text, "") {
        Some(k) => k,
        None => Vec::new(),
    };
    assert(names@.map_values(|s: String| s@) =~= names_v);
    let mut out: Vec<ProfileSummary> = Vec::new();
    let mut i: usize = 0;
    while i < names.len()
        invariant
            i <= names.len(),
            names@.map_values(|s: String| s@) == names_v,
            names_v == profile_names_in_json(text@),
            out@.len() == i,
            forall|j: int|
                0 <= j < i ==> (#[trigger] out@[j]).name@ == names_v[j] && (
                out@[j].mod_count as nat,
                opt_chars(out@[j].saved_at),
            ) == summary_in_json(text@, names_v[j]),
        decreases names.len() - i,
    {
        let name = names[i].as_str();
        assert(name@ == names_v[i as int]);
        let snapshot = keys_at(text, profile_field_text(name, "snapshot").as_str());
        let mod_count: u64 = match &snapshot {
            Some(k) => k.len() as u64,
            None => 0,
        };
        proof {
            if snapshot is Some {
                assert(snapshot->0@.map_values(|s: String| s@).len() == snapshot->0@.len());
            }
        }
        let saved_at = text_at(text, profile_field_text(name, "savedAt").as_str());
        out.push(ProfileSummary { name: owned(name), mod_count, saved_at });
        i = i + 1;
    }
    out
}

/// The text of an empty listing.
pub open spec fn empty_listing() -> Seq<char> {
    "无配置档案。`nmm profiles save <name>` 保存当前 mod 状态为档案"@
}

/// One row of the listing.
pub open spec fn listing_row(p: ProfileSummary) -> Seq<char> {
    pad_right(p.name@, 28) + " "@ + pad_right(decimal(p.mod_count as nat), 10) + " "@ + (match p.saved_at {
        Some(s) => s@,
        None => "-"@,
    }) + "\n"@
}

/// The rows of the listing.
pub open spec fn listing_rows(ps: Seq<ProfileSummary>) -> Seq<char>
    decreases ps.len(),
{
    if ps.len() == 0 {
        seq![]
    } else {
        listing_rows(ps.drop_last()) + listing_row(ps.last())
    }
}

/// The header of a non-empty listing of `n` profiles.
pub open spec fn listing_header(n: nat) -> Seq<char> {
    "共 "@ + decimal(n) + " 个配置档案\n"@ + pad_right("name"@, 28) + " "@ + pad_right("modCount"@, 10)
        + " "@ + "savedAt"@ + "\n"@ + Seq::new(80, |i: int| '-') + "\n"@
}

/// The listing of `ps`, as the human-readable output shows it.
pub open spec fn listing_text(ps: Seq<ProfileSummary>) -> Seq<char> {
    if ps.len() == 0 {
        empty_listing()
    } else {
        trim_end(listing_header(ps.len()) + listing_rows(ps))
    }
}

fn listing_row_chars(p: &ProfileSummary) -> (r: Vec<char>)
    ensures
        r@ == listing_row(*p),
{
    let mut out = pad_right_chars(&chars_of(p.name.as_str()), 28);
    push_all(&mut out, &chars_of(" "));
    push_all(&mut out, &pad_right_chars(&decimal_chars(p.mod_count), 10));
    push_all(&mut out, &chars_of(" "));
    match &p.saved_at {
        Some(s) => push_all(&mut out, &chars_of(s.as_str())),
        None => push_all(&mut out, &chars_of("-")),
    }
    push_all(&mut out, &chars_of("\n"));
    out
}

/// The table of saved profiles: a count, a header, a rule and one row per
/// profile (name, number of mod states, save time); a hint when there are
/// none.
pub fn profiles_listing(ps: &Vec<ProfileSummary>) -> (r: String)
    ensures
        r@ == listing_text(ps@),
{
    if ps.len() == 0 {
        return owned("无配置档案。`nmm profiles save <name>` 保存当前 mod 状态为档案");
    }
    let mut out = chars_of("共 ");
    push_all(&mut out, &decimal_chars(ps.len() as u64));
    push_all(&mut out, &chars_of(" 个配置档案\n"));
    push_all(&mut out, &pad_right_chars(&chars_of("name"), 28));
    push_all(&mut out, &chars_of(" "));
    push_all(&mut out, &pad_right_chars(&chars_of("modCount"), 10));
    push_all(&mut out, &chars_of(" "));
    push_all(&mut out, &chars_of("savedAt"));
    push_all(&mut out, &chars_of("\n"));
    let mut k: usize = 0;
    let ghost h0 = out@;
    assert(h0 =~= "共 "@ + decimal(ps.len() as nat) + " 个配置档案\n"@ + pad_right("name"@, 28) + " "@
        + pad_right("modCount"@, 10) + " "@ + "savedAt"@ + "\n"@);
    while k < 80
        invariant
            k <= 80,
            out@ == h0 + Seq::new(k as nat, |i: int| '-'),
        decreases 80 - k,
    {
        out.push('-');
        assert(out@ =~= h0 + Seq::new((k + 1) as nat, |i: int| '-'));
        k = k + 1;
    }
    push_all(&mut out, &chars_of("\n"));
    assert(out@ =~= h0 + Seq::new(80, |i: int| '-') + "\n"@);
    assert(out@ =~= listing_header(ps.len() as nat));
    let ghost head = out@;
    let mut i: usize = 0;
    while i < ps.len()
        invariant
            i <= ps.len(),
            out@ == head + listing_rows(ps@.take(i as int)),
        decreases ps.len() - i,
    {
        assert(ps@.take(i + 1).drop_last() =~= ps@.take(i as int));
        let row = listing_row_chars(&ps[i]);
        push_all(&mut out, &row);
        assert(out@ =~= head + listing_rows(ps@.take(i + 1)));
        i = i + 1;
    }
    assert(ps@.take(ps.len() as int) =~= ps@);
    string_of(&trim_end_chars(&out))
}

} // verus!
