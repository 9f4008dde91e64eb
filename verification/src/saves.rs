//! Save slots and their backups: naming, ordering, and the decisions of
//! scanning, exporting and importing.

use vstd::prelude::*;
use std::time::SystemTime;
use crate::text::opt_chars;
use crate::json::{at_len, at_number, at_text, json_at, json_value_at, len_at, number_at, text_at, JsonAt};
use crate::game_profile::{default_game_domain, default_game_domain_spec, GameProfile};
use crate::paths::{
    writable_config_dir, current_app_dir_name, current_config_dir, extension_of, extension_text, file_stem_text, join,
    legacy_app_dir_name, legacy_config_dir, parts_of, path_exists, plain_file_name, probed_occupied, search_step,
    stem_of, AppPath, PathBase, SearchStep,
};
use crate::text::{owned, 
    chars_eq, chars_of, concat_chars, contains_seq, decimal, decimal_chars, ends_with, find, first_occurrence,
    occurs_at, push_all, slice_chars, starts_with, string_of,
};

verus! {

/// The record of one character in a progress file.
#[derive(Debug, Clone)]
pub struct CharacterStat {
    pub id: String,
    pub name: String,
    pub wins: u64,
    pub losses: u64,
    pub max_ascension: u64,
    pub playtime: u64,
    pub best_streak: u64,
}

/// What a progress file says.
#[derive(Debug, Clone)]
pub struct ProgressSummary {
    pub total_playtime: u64,
    pub floors_climbed: u64,
    pub current_score: u64,
    pub total_unlocks: u64,
    pub discovered_cards: usize,
    pub discovered_relics: usize,
    pub epochs: usize,
    pub characters: Vec<CharacterStat>,
    pub unique_id: String,
}

/// One save slot.
#[derive(Debug, Clone)]
pub struct SaveSlot {
    pub slot: String,
    pub modded: bool,
    pub path: String,
    pub has_progress: bool,
    pub has_prefs: bool,
    pub empty: bool,
    pub last_modified: Option<String>,
    pub size: u64,
    pub summary: Option<ProgressSummary>,
}

/// One backup archive.
#[derive(Debug, Clone)]
pub struct BackupEntry {
    pub name: String,
    pub path: String,
    pub size: u64,
    pub time: String,
}

/// The slots and backups of a game.
#[derive(Debug, Clone)]
pub struct SavesResult {
    pub slots: Vec<SaveSlot>,
    pub backups: Vec<BackupEntry>,
}

/// Success, or failure with an optional reason.
#[derive(Debug, Clone)]
pub struct SimpleResult {
    pub success: bool,
    pub error: Option<String>,
}

/// Which slot to export or import.
#[derive(Debug, Clone)]
pub struct SaveExportOpts {
    pub slot: String,
    pub modded: bool,
}


impl SimpleResult {
    /// Success.
    pub fn ok() -> (r: SimpleResult)
        ensures
            r.success && r.error is None,
    {
        SimpleResult { success: true, error: None }
    }

    /// Failure with the reason `error`.
    pub fn failed(error: String) -> (r: SimpleResult)
        ensures
            !r.success && r.error == Some(error),
    {
        SimpleResult { success: false, error: Some(error) }
    }

    /// Failure without a reason (the user cancelled).
    pub fn cancelled() -> (r: SimpleResult)
        ensures
            !r.success && r.error is None,
    {
        SimpleResult { success: false, error: None }
    }
}

/// Why a slot cannot be exported or imported, if it cannot: no Steam user
/// directory of the game was found, or (for an export) the slot has no
/// directory.
pub fn slot_access_failure(user_dir_found: bool, slot_exists: bool) -> (r: Option<SimpleResult>)
    ensures
        !user_dir_found ==> (r matches Some(f) && !f.success && (f.error matches Some(e) && e@
            == "未找到游戏存档目录"@)),
        user_dir_found && !slot_exists ==> (r matches Some(f) && !f.success && (f.error matches Some(
            e,
        ) && e@ == "该存档槽位为空"@)),
        user_dir_found && slot_exists ==> r is None,
{
    if !user_dir_found {
        Some(SimpleResult::failed(owned("未找到游戏存档目录")))
    } else if !slot_exists {
        Some(SimpleResult::failed(owned("该存档槽位为空")))
    } else {
        None
    }
}

/// No slots and no backups.
pub fn no_saves() -> (r: SavesResult)
    ensures
        r.slots@.len() == 0 && r.backups@.len() == 0,
{
    SavesResult { slots: Vec::new(), backups: Vec::new() }
}

// ---------------------------------------------------------------------------
// Characters
// ---------------------------------------------------------------------------

/// The display names of the known characters.
pub open spec fn character_table(id: Seq<char>) -> Option<Seq<char>> {
    if id == "CHARACTER.IRONCLAD"@ {
        Some("铁甲战士"@)
    } else if id == "CHARACTER.SILENT"@ {
        Some("沉默猎手"@)
    } else if id == "CHARACTER.REGENT"@ {
        Some("摄政王"@)
    } else if id == "CHARACTER.NECROBINDER"@ {
        Some("缚灵师"@)
    } else if id == "CHARACTER.DEFECT"@ {
        Some("缺陷体"@)
    } else if id == "CHARACTER.WATCHER"@ {
        Some("观察者"@)
    } else {
        None
    }
}

/// The text after the last `'.'` of `s` (all of `s` when it has none).
pub open spec fn after_last_dot(s: Seq<char>) -> Seq<char>
    decreases s.len(),
{
    if s.len() == 0 {
        s
    } else if s.last() == '.' {
        Seq::empty()
    } else {
        after_last_dot(s.drop_last()).push(s.last())
    }
}

/// The display name of a character: its known name, else the last
/// dot-separated part of its id.
pub open spec fn char_name_spec(id: Seq<char>) -> Seq<char> {
    match character_table(id) {
        Some(n) => n,
        None => after_last_dot(id),
    }
}

/// The display names of the characters, as the game lists them: the
/// Ironclad 铁甲战士, the Silent 沉默猎手, the Regent 摄政王, the
/// Necrobinder 缚灵师, the Defect 缺陷体 and the Watcher 观察者. These six
/// ids are exactly the known ones, no two of them share a name, and every
/// other id is shown by the last part of its id, which holds no `.`.
pub proof fn lemma_character_display_names()
    ensures
        char_name_spec("CHARACTER.IRONCLAD"@) == "铁甲战士"@,
        char_name_spec("CHARACTER.SILENT"@) == "沉默猎手"@,
        char_name_spec("CHARACTER.REGENT"@) == "摄政王"@,
        char_name_spec("CHARACTER.NECROBINDER"@) == "缚灵师"@,
        char_name_spec("CHARACTER.DEFECT"@) == "缺陷体"@,
        char_name_spec("CHARACTER.WATCHER"@) == "观察者"@,
        forall|id: Seq<char>|
            #[trigger] character_table(id) is Some <==> (id == "CHARACTER.IRONCLAD"@ || id
                == "CHARACTER.SILENT"@ || id == "CHARACTER.REGENT"@ || id
                == "CHARACTER.NECROBINDER"@ || id == "CHARACTER.DEFECT"@ || id
                == "CHARACTER.WATCHER"@),
        forall|a: Seq<char>, b: Seq<char>|
            #[trigger] character_table(a) is Some && #[trigger] character_table(b) is Some && a != b
                ==> char_name_spec(a) != char_name_spec(b),
        forall|id: Seq<char>|
            #[trigger] character_table(id) is None ==> char_name_spec(id) == after_last_dot(id)
                && !after_last_dot(id).contains('.'),
{
    reveal_strlit("CHARACTER.IRONCLAD");
    reveal_strlit("CHARACTER.SILENT");
    reveal_strlit("CHARACTER.REGENT");
    reveal_strlit("CHARACTER.NECROBINDER");
    reveal_strlit("CHARACTER.DEFECT");
    reveal_strlit("CHARACTER.WATCHER");
    reveal_strlit("铁甲战士");
    reveal_strlit("沉默猎手");
    reveal_strlit("摄政王");
    reveal_strlit("缚灵师");
    reveal_strlit("缺陷体");
    reveal_strlit("观察者");
    assert("CHARACTER.IRONCLAD"@.len() == 18);
    assert("CHARACTER.SILENT"@.len() == 16);
    assert("CHARACTER.REGENT"@.len() == 16);
    assert("CHARACTER.NECROBINDER"@.len() == 21);
    assert("CHARACTER.DEFECT"@.len() == 16);
    assert("CHARACTER.WATCHER"@.len() == 17);
    assert("CHARACTER.SILENT"@[10] != "CHARACTER.REGENT"@[10]);
    assert("CHARACTER.SILENT"@[10] != "CHARACTER.DEFECT"@[10]);
    assert("CHARACTER.REGENT"@[10] != "CHARACTER.DEFECT"@[10]);
    assert("铁甲战士"@[0] != "沉默猎手"@[0]);
    assert("摄政王"@[0] != "缚灵师"@[0]);
    assert("摄政王"@[0] != "缺陷体"@[0]);
    assert("摄政王"@[0] != "观察者"@[0]);
    assert("缚灵师"@[0] != "缺陷体"@[0]);
    assert("缚灵师"@[0] != "观察者"@[0]);
    assert("缺陷体"@[0] != "观察者"@[0]);
    assert forall|id: Seq<char>| #[trigger] character_table(id) is None implies char_name_spec(id)
        == after_last_dot(id) && !after_last_dot(id).contains('.') by {
        lemma_after_last_dot_has_no_dot(id);
    }
}

proof fn lemma_after_last_dot_has_no_dot(s: Seq<char>)
    ensures
        !after_last_dot(s).contains('.'),
    decreases s.len(),
{
    if s.len() > 0 && s.last() != '.' {
        lemma_after_last_dot_has_no_dot(s.drop_last());
        let t = after_last_dot(s.drop_last());
        assert forall|i: int| 0 <= i < t.push(s.last()).len() implies t.push(s.last())[i] != '.' by {
            if i < t.len() {
                assert(t.contains(t[i]) ==> t[i] != '.');
            }
        }
    }
}

fn after_last_dot_exec(v: &Vec<char>) -> (r: Vec<char>)
    ensures
        r@ == after_last_dot(v@),
{
    let mut start: usize = v.len();
    assert(v@.take(start as int) =~= v@);
    assert(after_last_dot(v@) + v@.skip(start as int) =~= after_last_dot(v@));
    while start > 0 && v[start - 1] != '.'
        invariant
            start <= v.len(),
            after_last_dot(v@) == after_last_dot(v@.take(start as int)) + v@.skip(start as int),
        decreases start,
    {
        assert(v@.take(start as int).drop_last() =~= v@.take(start - 1));
        assert(v@.skip(start - 1) =~= seq![v@[start - 1]] + v@.skip(start as int));
        start = start - 1;
    }
    if start > 0 {
        assert(v@.take(start as int).last() == '.');
    }
    slice_chars(v, start, v.len())
}

/// The display name of the character `id`.
pub fn char_name(id: &str) -> (r: String)
    ensures
        r@ == char_name_spec(id@),
{
    let v = chars_of(id);
    if chars_eq(&v, &chars_of("CHARACTER.IRONCLAD")) {
        owned("铁甲战士")
    } else if chars_eq(&v, &chars_of("CHARACTER.SILENT")) {
        owned("沉默猎手")
    } else if chars_eq(&v, &chars_of("CHARACTER.REGENT")) {
        owned("摄政王")
    } else if chars_eq(&v, &chars_of("CHARACTER.NECROBINDER")) {
        owned("缚灵师")
    } else if chars_eq(&v, &chars_of("CHARACTER.DEFECT")) {
        owned("缺陷体")
    } else if chars_eq(&v, &chars_of("CHARACTER.WATCHER")) {
        owned("观察者")
    } else {
        assert(v@ == id@);
        let tail = after_last_dot_exec(&v);
        assert(v@.take(v.len() as int) =~= v@);
        string_of(&tail)
    }
}

/// The record of a character, or none for one that never won or lost.
pub fn character_stat(
    id: String,
    wins: u64,
    losses: u64,
    max_ascension: u64,
    playtime: u64,
    best_streak: u64,
) -> (r: Option<CharacterStat>)
    ensures
        r is None <==> (wins == 0 && losses == 0),
        r matches Some(c) ==> c.id == id && c.name@ == char_name_spec(id@) && c.wins == wins
            && c.losses == losses && c.max_ascension == max_ascension && c.playtime == playtime
            && c.best_streak == best_streak,
{
    if wins == 0 && losses == 0 {
        return None;
    }
    let name = char_name(id.as_str());
    Some(CharacterStat { id, name, wins, losses, max_ascension, playtime, best_streak })
}

/// What a progress file's JSON holds of one character, each field absent
/// when missing or of another JSON type.
#[derive(Debug, Clone)]
pub struct CharacterFields {
    pub id: Option<String>,
    pub total_wins: Option<u64>,
    pub total_losses: Option<u64>,
    pub max_ascension: Option<u64>,
    pub playtime: Option<u64>,
    pub best_win_streak: Option<u64>,
}

/// What a progress file's JSON holds, each field absent when missing or of
/// another JSON type; the lists are given by their lengths.
#[derive(Debug, Clone)]
pub struct ProgressFields {
    pub total_playtime: Option<u64>,
    pub floors_climbed: Option<u64>,
    pub current_score: Option<u64>,
    pub total_unlocks: Option<u64>,
    pub discovered_cards: Option<usize>,
    pub discovered_relics: Option<usize>,
    pub epochs: Option<usize>,
    pub character_stats: Option<Vec<CharacterFields>>,
    pub unique_id: Option<String>,
}

/// A number, 0 when absent.
pub open spec fn or_zero(o: Option<u64>) -> u64 {
    match o {
        Some(v) => v,
        None => 0,
    }
}

/// A length, 0 when absent.
pub open spec fn len_or_zero(o: Option<usize>) -> usize {
    match o {
        Some(v) => v,
        None => 0,
    }
}

/// The view of a character record.
pub open spec fn stat_view(c: CharacterStat) -> (Seq<char>, Seq<char>, u64, u64, u64, u64, u64) {
    (c.id@, c.name@, c.wins, c.losses, c.max_ascension, c.playtime, c.best_streak)
}

/// The record a character's fields give: none without an id or when the
/// character never won or lost.
pub open spec fn character_record(c: CharacterFields) -> Option<
    (Seq<char>, Seq<char>, u64, u64, u64, u64, u64),
> {
    match c.id {
        Some(id) => if or_zero(c.total_wins) == 0 && or_zero(c.total_losses) == 0 {
            None
        } else {
            Some(
                (
                    id@,
                    char_name_spec(id@),
                    or_zero(c.total_wins),
                    or_zero(c.total_losses),
                    or_zero(c.max_ascension),
                    or_zero(c.playtime),
                    or_zero(c.best_win_streak),
                ),
            )
        },
        None => None,
    }
}

/// The records of the characters, in file order.
pub open spec fn character_records(cs: Seq<CharacterFields>) -> Seq<
    (Seq<char>, Seq<char>, u64, u64, u64, u64, u64),
>
    decreases cs.len(),
{
    if cs.len() == 0 {
        seq![]
    } else {
        let prev = character_records(cs.drop_last());
        match character_record(cs.last()) {
            Some(r) => prev.push(r),
            None => prev,
        }
    }
}

fn copy_text(o: &Option<String>) -> (r: Option<String>)
    ensures
        r == *o,
{
    match o {
        Some(s) => Some(s.clone()),
        None => None,
    }
}

fn value_or_zero(o: Option<u64>) -> (r: u64)
    ensures
        r == or_zero(o),
{
    match o {
        Some(v) => v,
        None => 0,
    }
}

/// The summary a progress file's fields give: absent numbers count as 0,
/// absent lists as empty, and only characters with an id and at least one
/// win or loss are listed.
pub fn summarize_progress(fields: &ProgressFields) -> (r: ProgressSummary)
    ensures
        r.total_playtime == or_zero(fields.total_playtime),
        r.floors_climbed == or_zero(fields.floors_climbed),
        r.current_score == or_zero(fields.current_score),
        r.total_unlocks == or_zero(fields.total_unlocks),
        r.discovered_cards == len_or_zero(fields.discovered_cards),
        r.discovered_relics == len_or_zero(fields.discovered_relics),
        r.epochs == len_or_zero(fields.epochs),
        r.characters@.map_values(|c: CharacterStat| stat_view(c)) == (match fields.character_stats {
            Some(cs) => character_records(cs@),
            None => seq![],
        }),
        r.unique_id@ == (match fields.unique_id {
            Some(u) => u@,
            None => seq![],
        }),
{
    let mut characters: Vec<CharacterStat> = Vec::new();
    match &fields.character_stats {
        Some(cs) => {
            let mut i: usize = 0;
            while i < cs.len()
                invariant
                    i <= cs.len(),
                    characters@.map_values(|c: CharacterStat| stat_view(c)) == character_records(
                        cs@.take(i as int),
                    ),
                decreases cs.len() - i,
            {
                let ghost before = characters@;
                assert(cs@.take(i + 1).drop_last() =~= cs@.take(i as int));
                assert(cs@.take(i + 1).last() == cs@[i as int]);
                let c = &cs[i];
                match copy_text(&c.id) {
                    Some(id) => {
                        let stat = character_stat(
                            id,
                            value_or_zero(c.total_wins),
                            value_or_zero(c.total_losses),
                            value_or_zero(c.max_ascension),
                            value_or_zero(c.playtime),
                            value_or_zero(c.best_win_streak),
                        );
                        match stat {
                            Some(st) => {
                                characters.push(st);
                                assert(characters@.map_values(|c: CharacterStat| stat_view(c))
                                    =~= before.map_values(|c: CharacterStat| stat_view(c)).push(
                                    stat_view(st),
                                ));
                            },
                            None => {},
                        }
                    },
                    None => {},
                }
                i = i + 1;
            }
            assert(cs@.take(cs.len() as int) =~= cs@);
        },
        None => {
            assert(characters@.map_values(|c: CharacterStat| stat_view(c)) =~= Seq::<
                (Seq<char>, Seq<char>, u64, u64, u64, u64, u64),
            >::empty());
        },
    }
    let unique_id = match copy_text(&fields.unique_id) {
        Some(u) => u,
        None => String::new(),
    };
    ProgressSummary {
        total_playtime: value_or_zero(fields.total_playtime),
        floors_climbed: value_or_zero(fields.floors_climbed),
        current_score: value_or_zero(fields.current_score),
        total_unlocks: value_or_zero(fields.total_unlocks),
        discovered_cards: match fields.discovered_cards {
            Some(n) => n,
            None => 0,
        },
        discovered_relics: match fields.discovered_relics {
            Some(n) => n,
            None => 0,
        },
        epochs: match fields.epochs {
            Some(n) => n,
            None => 0,
        },
        characters,
        unique_id,
    }
}

/// A progress file's text without its byte-order mark.
pub open spec fn without_bom(s: Seq<char>) -> Seq<char> {
    if s.len() > 0 && s[0] == '\u{feff}' {
        s.drop_first()
    } else {
        s
    }
}

/// Removes a leading byte-order mark.
pub fn strip_bom(content: &str) -> (r: String)
    ensures
        r@ == without_bom(content@),
{
    let v = chars_of(content);
    if v.len() > 0 && v[0] == '\u{feff}' {
        let n = v.len();
        let t = slice_chars(&v, 1, n);
        assert(t@ =~= content@.drop_first());
        string_of(&t)
    } else {
        string_of(&v)
    }
}

// ---------------------------------------------------------------------------
// Reading a progress file
// ---------------------------------------------------------------------------

/// What a progress file's JSON holds of one character, as a model.
pub struct CharacterFieldsModel {
    pub id: Option<Seq<char>>,
    pub total_wins: Option<u64>,
    pub total_losses: Option<u64>,
    pub max_ascension: Option<u64>,
    pub playtime: Option<u64>,
    pub best_win_streak: Option<u64>,
}

/// What a progress file's JSON holds, as a model.
pub struct ProgressFieldsModel {
    pub total_playtime: Option<u64>,
    pub floors_climbed: Option<u64>,
    pub current_score: Option<u64>,
    pub total_unlocks: Option<u64>,
    pub discovered_cards: Option<usize>,
    pub discovered_relics: Option<usize>,
    pub epochs: Option<usize>,
    pub character_stats: Option<Seq<CharacterFieldsModel>>,
    pub unique_id: Option<Seq<char>>,
}

/// The model of a character's fields.
pub open spec fn character_fields_model(c: CharacterFields) -> CharacterFieldsModel {
    CharacterFieldsModel {
        id: opt_chars(c.id),
        total_wins: c.total_wins,
        total_losses: c.total_losses,
        max_ascension: c.max_ascension,
        playtime: c.playtime,
        best_win_streak: c.best_win_streak,
    }
}

/// The model of a progress file's fields.
pub open spec fn progress_fields_model(f: ProgressFields) -> ProgressFieldsModel {
    ProgressFieldsModel {
        total_playtime: f.total_playtime,
        floors_climbed: f.floors_climbed,
        current_score: f.current_score,
        total_unlocks: f.total_unlocks,
        discovered_cards: f.discovered_cards,
        discovered_relics: f.discovered_relics,
        epochs: f.epochs,
        character_stats: match f.character_stats {
            Some(cs) => Some(cs@.map_values(|c: CharacterFields| character_fields_model(c))),
            None => None,
        },
        unique_id: opt_chars(f.unique_id),
    }
}

/// The model of fields that may be absent.
pub open spec fn opt_progress_model(r: Option<ProgressFields>) -> Option<ProgressFieldsModel> {
    match r {
        Some(f) => Some(progress_fields_model(f)),
        None => None,
    }
}

/// The pointer to `key` of character `i`.
pub open spec fn character_pointer(i: nat, key: Seq<char>) -> Seq<char> {
    "/character_stats/"@ + decimal(i) + "/"@ + key
}

/// What the JSON text `t` holds of character `i`.
pub open spec fn character_in_json(t: Seq<char>, i: nat) -> CharacterFieldsModel {
    CharacterFieldsModel {
        id: at_text(json_at(t, character_pointer(i, "id"@))),
        total_wins: at_number(json_at(t, character_pointer(i, "total_wins"@))),
        total_losses: at_number(json_at(t, character_pointer(i, "total_losses"@))),
        max_ascension: at_number(json_at(t, character_pointer(i, "max_ascension"@))),
        playtime: at_number(json_at(t, character_pointer(i, "playtime"@))),
        best_win_streak: at_number(json_at(t, character_pointer(i, "best_win_streak"@))),
    }
}

/// What the JSON text `t` holds of a progress file's fields: none when it
/// is not JSON; otherwise each top-level field of its kind, and the
/// characters of the `character_stats` array in order.
pub open spec fn progress_in_json(t: Seq<char>) -> Option<ProgressFieldsModel> {
    if json_at(t, ""@) is Invalid {
        None
    } else {
        Some(
            ProgressFieldsModel {
                total_playtime: at_number(json_at(t, "/total_playtime"@)),
                floors_climbed: at_number(json_at(t, "/floors_climbed"@)),
                current_score: at_number(json_at(t, "/current_score"@)),
                total_unlocks: at_number(json_at(t, "/total_unlocks"@)),
                discovered_cards: at_len(json_at(t, "/discovered_cards"@)),
                discovered_relics: at_len(json_at(t, "/discovered_relics"@)),
                epochs: at_len(json_at(t, "/epochs"@)),
                character_stats: match at_len(json_at(t, "/character_stats"@)) {
                    Some(n) => Some(Seq::new(n as nat, |i: int| character_in_json(t, i as nat))),
                    None => None,
                },
                unique_id: at_text(json_at(t, "/unique_id"@)),
            },
        )
    }
}

fn character_pointer_text(i: u64, key: &str) -> (r: String)
    ensures
        r@ == character_pointer(i as nat, key@),
{
    let mut v = chars_of("/character_stats/");
    push_all(&mut v, &decimal_chars(i));
    push_all(&mut v, &chars_of("/"));
    push_all(&mut v, &chars_of(key));
    string_of(&v)
}

fn character_fields_at(text: &str, i: u64) -> (r: CharacterFields)
    ensures
        character_fields_model(r) == character_in_json(text@, i as nat),
{
    let id = text_at(text, character_pointer_text(i, "id").as_str());
    let total_wins = number_at(text, character_pointer_text(i, "total_wins").as_str());
    let total_losses = number_at(text, character_pointer_text(i, "total_losses").as_str());
    let max_ascension = number_at(text, character_pointer_text(i, "max_ascension").as_str());
    let playtime = number_at(text, character_pointer_text(i, "playtime").as_str());
    let best_win_streak = number_at(text, character_pointer_text(i, "best_win_streak").as_str());
    CharacterFields { id, total_wins, total_losses, max_ascension, playtime, best_win_streak }
}

/// What the JSON text `text` holds of a progress file's fields, or none
/// when it is not JSON.
pub fn read_progress_fields(text: &str) -> (r: Option<ProgressFields>)
    ensures
        opt_progress_model(r) == progress_in_json(text@),
{
    if let JsonAt::Invalid(_) = json_value_at(text, "") {
        return None;
    }
    let characters = match len_at(text, "/character_stats") {
        Some(n) => {
            let mut cs: Vec<CharacterFields> = Vec::new();
            let mut i: usize = 0;
            while i < n
                invariant
                    i <= n,
                    cs@.len() == i,
                    forall|k: int|
                        0 <= k < i ==> character_fields_model(#[trigger] cs@[k])
                            == character_in_json(text@, k as nat),
                decreases n - i,
            {
                let c = character_fields_at(text, i as u64);
                cs.push(c);
                i = i + 1;
            }
            assert(cs@.map_values(|c: CharacterFields| character_fields_model(c)) =~= Seq::new(
                n as nat,
                |k: int| character_in_json(text@, k as nat),
            ));
            Some(cs)
        },
        None => None,
    };
    let r = ProgressFields {
        total_playtime: number_at(text, "/total_playtime"),
        floors_climbed: number_at(text, "/floors_climbed"),
        current_score: number_at(text, "/current_score"),
        total_unlocks: number_at(text, "/total_unlocks"),
        discovered_cards: len_at(text, "/discovered_cards"),
        discovered_relics: len_at(text, "/discovered_relics"),
        epochs: len_at(text, "/epochs"),
        character_stats: characters,
        unique_id: text_at(text, "/unique_id"),
    };
    Some(r)
}

/// The record a character model gives: none without an id or when the
/// character never won or lost.
pub open spec fn record_of_model(c: CharacterFieldsModel) -> Option<
    (Seq<char>, Seq<char>, u64, u64, u64, u64, u64),
> {
    match c.id {
        Some(id) => if or_zero(c.total_wins) == 0 && or_zero(c.total_losses) == 0 {
            None
        } else {
            Some(
                (
                    id,
                    char_name_spec(id),
                    or_zero(c.total_wins),
                    or_zero(c.total_losses),
                    or_zero(c.max_ascension),
                    or_zero(c.playtime),
                    or_zero(c.best_win_streak),
                ),
            )
        },
        None => None,
    }
}

/// The records of the character models, in order.
pub open spec fn records_of_models(cs: Seq<CharacterFieldsModel>) -> Seq<
    (Seq<char>, Seq<char>, u64, u64, u64, u64, u64),
>
    decreases cs.len(),
{
    if cs.len() == 0 {
        seq![]
    } else {
        let prev = records_of_models(cs.drop_last());
        match record_of_model(cs.last()) {
            Some(r) => prev.push(r),
            None => prev,
        }
    }
}

proof fn lemma_records_of_models(cs: Seq<CharacterFields>)
    ensures
        character_records(cs) == records_of_models(
            cs.map_values(|c: CharacterFields| character_fields_model(c)),
        ),
    decreases cs.len(),
{
    if cs.len() > 0 {
        lemma_records_of_models(cs.drop_last());
        assert(cs.map_values(|c: CharacterFields| character_fields_model(c)).drop_last()
            =~= cs.drop_last().map_values(|c: CharacterFields| character_fields_model(c)));
    }
}

/// A progress summary, as a model.
pub struct SummaryModel {
    pub total_playtime: u64,
    pub floors_climbed: u64,
    pub current_score: u64,
    pub total_unlocks: u64,
    pub discovered_cards: usize,
    pub discovered_relics: usize,
    pub epochs: usize,
    pub characters: Seq<(Seq<char>, Seq<char>, u64, u64, u64, u64, u64)>,
    pub unique_id: Seq<char>,
}

/// The model of a summary.
pub open spec fn summary_model(s: ProgressSummary) -> SummaryModel {
    SummaryModel {
        total_playtime: s.total_playtime,
        floors_climbed: s.floors_climbed,
        current_score: s.current_score,
        total_unlocks: s.total_unlocks,
        discovered_cards: s.discovered_cards,
        discovered_relics: s.discovered_relics,
        epochs: s.epochs,
        characters: s.characters@.map_values(|c: CharacterStat| stat_view(c)),
        unique_id: s.unique_id@,
    }
}

/// The summary of a progress file's fields: absent numbers count as 0,
/// absent lists as empty, and only characters with an id and at least one
/// win or loss are listed.
pub open spec fn summary_of_model(f: ProgressFieldsModel) -> SummaryModel {
    SummaryModel {
        total_playtime: or_zero(f.total_playtime),
        floors_climbed: or_zero(f.floors_climbed),
        current_score: or_zero(f.current_score),
        total_unlocks: or_zero(f.total_unlocks),
        discovered_cards: len_or_zero(f.discovered_cards),
        discovered_relics: len_or_zero(f.discovered_relics),
        epochs: len_or_zero(f.epochs),
        characters: match f.character_stats {
            Some(cs) => records_of_models(cs),
            None => seq![],
        },
        unique_id: match f.unique_id {
            Some(u) => u,
            None => seq![],
        },
    }
}

/// The summary of a progress file's text: none when the text (without its
/// byte-order mark) is not JSON, else the summary of what it holds.
pub fn parse_progress_text(content: &str) -> (r: Option<ProgressSummary>)
    ensures
        progress_in_json(without_bom(content@)) is None ==> r is None,
        progress_in_json(without_bom(content@)) matches Some(f) ==> r matches Some(s)
            && summary_model(s) == summary_of_model(f),
{
    let text = strip_bom(content);
    match read_progress_fields(text.as_str()) {
        None => None,
        Some(f) => {
            let s = summarize_progress(&f);
            proof {
                match f.character_stats {
                    Some(cs) => lemma_records_of_models(cs@),
                    None => {},
                }
                assert(summary_model(s) == summary_of_model(progress_fields_model(f)));
            }
            Some(s)
        },
    }
}

/// `s` with every `\\` turned into `/`.
pub open spec fn forward_slashes(s: Seq<char>) -> Seq<char> {
    s.map_values(|c: char| if c == '\\' { '/' } else { c })
}

/// The name of an archive entry for the path `rel` relative to the archived
/// directory's parent: separators written as `/`, and a trailing `/` for a
/// directory.
pub open spec fn entry_name_of(rel: Seq<char>, is_dir: bool) -> Seq<char> {
    forward_slashes(rel) + (if is_dir {
        "/"@
    } else {
        Seq::<char>::empty()
    })
}

/// The name of an archive entry (see `entry_name_of`).
pub fn zip_entry_name(rel: &str, is_dir: bool) -> (r: String)
    ensures
        r@ == entry_name_of(rel@, is_dir),
{
    let v = chars_of(rel);
    let mut out: Vec<char> = Vec::new();
    let mut i: usize = 0;
    while i < v.len()
        invariant
            i <= v.len(),
            v@ == rel@,
            out@ == forward_slashes(v@.take(i as int)),
        decreases v.len() - i,
    {
        let c = v[i];
        if c == '\\' {
            out.push('/');
        } else {
            out.push(c);
        }
        assert(forward_slashes(v@.take(i + 1)) =~= forward_slashes(v@.take(i as int)).push(
            out@.last(),
        ));
        i = i + 1;
    }
    assert(v@.take(v.len() as int) =~= v@);
    if is_dir {
        push_all(&mut out, &chars_of("/"));
    } else {
        assert(out@ + Seq::<char>::empty() =~= out@);
    }
    string_of(&out)
}

// ---------------------------------------------------------------------------
// Slots
// ---------------------------------------------------------------------------

/// The slots scanned, in order: each of `profile1`..`profile3`, plain then
/// modded.
pub open spec fn slot_order() -> Seq<(Seq<char>, bool)> {
    seq![
        ("profile1"@, false),
        ("profile1"@, true),
        ("profile2"@, false),
        ("profile2"@, true),
        ("profile3"@, false),
        ("profile3"@, true),
    ]
}

/// The slots to scan, in order.
pub fn slots_to_scan() -> (r: Vec<SaveExportOpts>)
    ensures
        r@.map_values(|o: SaveExportOpts| (o.slot@, o.modded)) == slot_order(),
{
    let mut r: Vec<SaveExportOpts> = Vec::new();
    r.push(SaveExportOpts { slot: owned("profile1"), modded: false });
    r.push(SaveExportOpts { slot: owned("profile1"), modded: true });
    r.push(SaveExportOpts { slot: owned("profile2"), modded: false });
    r.push(SaveExportOpts { slot: owned("profile2"), modded: true });
    r.push(SaveExportOpts { slot: owned("profile3"), modded: false });
    r.push(SaveExportOpts { slot: owned("profile3"), modded: true });
    assert(r@.map_values(|o: SaveExportOpts| (o.slot@, o.modded)) =~= slot_order());
    r
}

/// The directories of a slot below the Steam user directory: `modded/<slot>`
/// for modded slots, `<slot>` otherwise.
pub fn slot_dir(user_dir: &AppPath, opts: &SaveExportOpts) -> (r: AppPath)
    ensures
        r.base == user_dir.base,
        parts_of(r) == parts_of(*user_dir) + if opts.modded {
            seq!["modded"@, opts.slot@]
        } else {
            seq![opts.slot@]
        },
{
    if opts.modded {
        let m = join(user_dir, "modded");
        let r = join(&m, opts.slot.as_str());
        assert(parts_of(r) =~= parts_of(*user_dir) + seq!["modded"@, opts.slot@]);
        r
    } else {
        let r = join(user_dir, opts.slot.as_str());
        assert(parts_of(r) =~= parts_of(*user_dir) + seq![opts.slot@]);
        r
    }
}

/// The text of a save id: `modded:<slot>` for a modded slot, the slot name
/// otherwise.
pub open spec fn save_id_text(slot: Seq<char>, modded: bool) -> Seq<char> {
    if modded {
        "modded:"@ + slot
    } else {
        slot
    }
}

/// What a save id names: a modded slot when it starts with `modded:`, a
/// plain one otherwise.
pub open spec fn parsed_save_id(id: Seq<char>) -> (Seq<char>, bool) {
    if "modded:"@.is_prefix_of(id) {
        (id.skip(7), true)
    } else {
        (id, false)
    }
}

/// Parses a save id: `modded:<slot>` names a modded slot, anything else a
/// plain one.
pub fn parse_save_id(save_id: &str) -> (r: SaveExportOpts)
    ensures
        (r.slot@, r.modded) == parsed_save_id(save_id@),
{
    let v = chars_of(save_id);
    let prefix = chars_of("modded:");
    proof {
        reveal_strlit("modded:");
    }
    if starts_with(&v, &prefix) {
        let n = v.len();
        let rest = slice_chars(&v, 7, n);
        assert(rest@ =~= save_id@.skip(7));
        SaveExportOpts { slot: string_of(&rest), modded: true }
    } else {
        SaveExportOpts { slot: string_of(&v), modded: false }
    }
}

/// The id of a slot as the command line writes it.
pub fn save_id_of(opts: &SaveExportOpts) -> (r: String)
    ensures
        r@ == save_id_text(opts.slot@, opts.modded),
{
    if opts.modded {
        let mut v = chars_of("modded:");
        push_all(&mut v, &chars_of(opts.slot.as_str()));
        string_of(&v)
    } else {
        string_of(&chars_of(opts.slot.as_str()))
    }
}

/// Writing a slot's id and reading it back names the same slot, unless a
/// plain slot's own name starts with `modded:`.
pub proof fn lemma_save_id_round_trip(slot: Seq<char>, modded: bool)
    requires
        modded || !"modded:"@.is_prefix_of(slot),
    ensures
        parsed_save_id(save_id_text(slot, modded)) == (slot, modded),
{
    reveal_strlit("modded:");
    if modded {
        let id = "modded:"@ + slot;
        assert("modded:"@.is_prefix_of(id)) by {
            assert(id.subrange(0, 7) =~= "modded:"@);
        }
        assert(id.skip(7) =~= slot);
    }
}

/// The components of the backup directory of the game `domain`.
pub open spec fn backup_dir_parts(domain: Seq<char>) -> Seq<Seq<char>> {
    seq![current_app_dir_name(), "save_backups"@, domain]
}

/// The Steam directory of a game under the platform configuration
/// directory: `<appdata>/<appdata_dir_name>/steam`, when the game names its
/// directory there.
pub open spec fn steam_dir_parts(appdata: Seq<Seq<char>>, p: GameProfile) -> Option<Seq<Seq<char>>> {
    match p.appdata_dir_name {
        Some(d) => Some(appdata + seq![d@, "steam"@]),
        None => None,
    }
}

/// The Steam directory of a game under the platform configuration
/// directory `appdata` (see `steam_dir_parts`).
pub fn steam_dir_under(appdata: Option<AppPath>, profile: &GameProfile) -> (r: Option<AppPath>)
    ensures
        r is Some <==> (appdata is Some && profile.appdata_dir_name is Some),
        r matches Some(p) ==> p.base == appdata->0.base && Some(parts_of(p)) == steam_dir_parts(
            parts_of(appdata->0),
            *profile,
        ),
{
    match (appdata, &profile.appdata_dir_name) {
        (Some(a), Some(d)) => {
            let game_dir = join(&a, d.as_str());
            let steam = join(&game_dir, "steam");
            assert(parts_of(steam) =~= parts_of(a) + seq![d@, "steam"@]);
            Some(steam)
        },
        _ => None,
    }
}

/// Everything a save scan reads of a game profile: where the Steam user
/// directories are, where the game's backups go, and whether the backup
/// directories of older versions are carried over.
pub open spec fn scan_reads(appdata: Seq<Seq<char>>, p: GameProfile) -> (
    Option<Seq<Seq<char>>>,
    Seq<Seq<char>>,
    bool,
) {
    (
        steam_dir_parts(appdata, p),
        backup_dir_parts(p.nexus_domain@),
        p.nexus_domain@ == default_game_domain_spec(),
    )
}

/// A save scan never reads `saves_enabled`: two profiles that differ only
/// there make the scan read the same places.
pub proof fn lemma_scan_ignores_saves_enabled(appdata: Seq<Seq<char>>, p1: GameProfile, p2: GameProfile)
    requires
        p1 == (GameProfile { saves_enabled: p1.saves_enabled, ..p2 }),
    ensures
        scan_reads(appdata, p1) == scan_reads(appdata, p2),
{
}

/// The directory the backups of the game `nexus_domain` go to.
pub fn save_backup_dir(nexus_domain: &str) -> (r: AppPath)
    ensures
        parts_of(r) == backup_dir_parts(nexus_domain@),
{
    let base = join(&writable_config_dir(), "save_backups");
    let r = join(&base, nexus_domain);
    assert(parts_of(r) =~= backup_dir_parts(nexus_domain@));
    r
}

/// The slots and backups of a game: nothing when its Steam user directory
/// was not found; else the slots found, in scan order, and the backup
/// archives (`.zip` files) by name, last first.
pub fn scan_saves(user_dir_found: bool, scanned: Vec<Option<SaveSlot>>, backups: Vec<BackupEntry>) -> (r:
    SavesResult)
    ensures
        !user_dir_found ==> r.slots@.len() == 0 && r.backups@.len() == 0,
        user_dir_found ==> r.slots@ == scanned@.filter(|o: Option<SaveSlot>| o is Some).map_values(
            |o: Option<SaveSlot>| o->0,
        ),
        user_dir_found ==> r.backups@ == sort_names_desc(
            backups@.filter(|b: BackupEntry| ".zip"@.is_suffix_of(b.name@)),
        ),
{
    if !user_dir_found {
        return no_saves();
    }
    SavesResult { slots: collect_slots(scanned), backups: order_backups(backups) }
}

/// `UNIX_EPOCH + Duration::from_secs(secs)`: the time `secs` seconds after
/// the epoch. Windows holds a time as a signed 64-bit count of 100 ns
/// intervals since 1601, so the last time it represents is 910692730085
/// whole seconds after the epoch; below that bound the addition does not
/// panic on any platform. Nothing is claimed of the value.
#[verifier::external_body]
fn time_after_epoch(secs: u64) -> SystemTime
    requires
        secs < 910692730085,
{
    std::time::UNIX_EPOCH + std::time::Duration::from_secs(secs)
}

/// `format!("{:?}", t)`: the debug text of a `SystemTime`, whose form std
/// leaves to the platform. Nothing is claimed of it.
#[verifier::external_body]
fn debug_time_text(t: &SystemTime) -> String {
    format!("{:?}", t)
}

/// The debug text of the time `secs` seconds after the Unix epoch, as slots
/// and backups show their modification times.
pub fn chrono_from_timestamp(secs: u64) -> String
    requires
        secs < 910692730085,
{
    debug_time_text(&time_after_epoch(secs))
}

/// The modification time a slot shows: none when no file time is known
/// (`last_modified_ms` is 0), else the debug text of the time in whole
/// seconds.
pub fn slot_modified_text(last_modified_ms: u64) -> (r: Option<String>)
    requires
        last_modified_ms / 1000 < 910692730085,
    ensures
        r is Some <==> last_modified_ms > 0,
        r matches Some(t) ==> call_ensures(chrono_from_timestamp, (last_modified_ms / 1000,), t),
{
    if last_modified_ms > 0 {
        Some(chrono_from_timestamp(last_modified_ms / 1000))
    } else {
        None
    }
}

/// The time a backup shows: the debug text of its modification time in
/// seconds, or the empty text when the time is unknown.
pub fn backup_time_text(mtime_secs: Option<u64>) -> (r: String)
    requires
        mtime_secs matches Some(s) ==> s < 910692730085,
    ensures
        mtime_secs is None ==> r@ == Seq::<char>::empty(),
        mtime_secs matches Some(s) ==> call_ensures(chrono_from_timestamp, (s,), r),
{
    match mtime_secs {
        Some(secs) => chrono_from_timestamp(secs),
        None => String::new(),
    }
}

/// A slot's time and a backup's time are the same text function of whole
/// seconds: what a slot shows for a modification time of `ms` milliseconds
/// is an answer of `chrono_from_timestamp` on `ms / 1000`, as is what a
/// backup modified at `ms / 1000` seconds shows.
pub proof fn lemma_slot_and_backup_times_agree(
    ms: u64,
    slot_text: Option<String>,
    backup_text: String,
)
    requires
        ms > 0,
        call_ensures(slot_modified_text, (ms,), slot_text),
        call_ensures(backup_time_text, (Some(ms / 1000),), backup_text),
    ensures
        slot_text matches Some(t) && call_ensures(chrono_from_timestamp, (ms / 1000,), t),
        call_ensures(chrono_from_timestamp, (ms / 1000,), backup_text),
{
}

/// A scanned slot. `last_modified_ms` is the latest modification time in the
/// slot's files (0 when unknown) and `format_secs` the text of that time in
/// seconds; the slot is empty when it has neither a progress nor a
/// preferences file.
pub fn make_save_slot(
    opts: SaveExportOpts,
    path: String,
    has_progress: bool,
    has_prefs: bool,
    last_modified_ms: u64,
    modified_text: String,
    size: u64,
    summary: Option<ProgressSummary>,
) -> (r: SaveSlot)
    ensures
        r.slot == opts.slot,
        r.modded == opts.modded,
        r.path == path,
        r.has_progress == has_progress,
        r.has_prefs == has_prefs,
        r.empty == (!has_progress && !has_prefs),
        r.last_modified == (if last_modified_ms > 0 {
            Some(modified_text)
        } else {
            None
        }),
        r.size == size,
        r.summary == summary,
{
    SaveSlot {
        slot: opts.slot,
        modded: opts.modded,
        path,
        has_progress,
        has_prefs,
        empty: !has_progress && !has_prefs,
        last_modified: if last_modified_ms > 0 {
            Some(modified_text)
        } else {
            None
        },
        size,
        summary,
    }
}

/// The slots found, in scan order.
pub fn collect_slots(scanned: Vec<Option<SaveSlot>>) -> (r: Vec<SaveSlot>)
    ensures
        r@ == scanned@.filter(|o: Option<SaveSlot>| o is Some).map_values(
            |o: Option<SaveSlot>| o->0,
        ),
{
    let ghost sv = scanned@;
    let mut out: Vec<SaveSlot> = Vec::new();
    let mut rest = scanned;
    let n = rest.len();
    let mut i: usize = 0;
    assert(sv.take(0).filter(|o: Option<SaveSlot>| o is Some) =~= Seq::<Option<SaveSlot>>::empty());
    while i < n
        invariant
            i <= n,
            n == sv.len(),
            rest@ == sv.skip(i as int),
            out@ == sv.take(i as int).filter(|o: Option<SaveSlot>| o is Some).map_values(
                |o: Option<SaveSlot>| o->0,
            ),
        decreases n - i,
    {
        let item = rest.remove(0);
        assert(item == sv[i as int]);
        proof {
            let f = |o: Option<SaveSlot>| o is Some;
            assert(sv.take(i + 1).drop_last() =~= sv.take(i as int));
            assert(sv.take(i + 1).filter(f) == if f(sv[i as int]) {
                sv.take(i as int).filter(f).push(sv[i as int])
            } else {
                sv.take(i as int).filter(f)
            }) by {
                reveal(Seq::filter);
            }
        }
        match item {
            Some(s) => {
                let ghost before = out@;
                out.push(s);
                assert(out@ =~= sv.take(i + 1).filter(|o: Option<SaveSlot>| o is Some).map_values(
                    |o: Option<SaveSlot>| o->0,
                ));
            },
            None => {},
        }
        assert(rest@ =~= sv.skip(i + 1));
        i = i + 1;
    }
    assert(sv.take(n as int) =~= sv);
    out
}

/// A Steam user directory is named by digits only.
pub open spec fn is_user_dir_name(name: Seq<char>) -> bool {
    forall|i: int| 0 <= i < name.len() ==> '0' <= #[trigger] name[i] <= '9'
}

/// The first directory name that is a Steam user id.
pub fn first_user_dir(names: &Vec<String>) -> (r: Option<usize>)
    ensures
        r matches Some(k) ==> k < names@.len() && is_user_dir_name(names@[k as int]@) && forall|
            j: int,
        | 0 <= j < k ==> !is_user_dir_name(#[trigger] names@[j]@),
        r is None ==> forall|j: int| 0 <= j < names@.len() ==> !is_user_dir_name(#[trigger] names@[j]@),
{
    let mut i: usize = 0;
    while i < names.len()
        invariant
            i <= names.len(),
            forall|j: int| 0 <= j < i ==> !is_user_dir_name(#[trigger] names@[j]@),
        decreases names.len() - i,
    {
        let v = chars_of(names[i].as_str());
        let mut k: usize = 0;
        let mut ok = true;
        while k < v.len()
            invariant
                k <= v.len(),
                ok ==> forall|t: int| 0 <= t < k ==> '0' <= #[trigger] v@[t] <= '9',
                !ok ==> !is_user_dir_name(v@),
            decreases v.len() - k,
        {
            if !('0' <= v[k] && v[k] <= '9') {
                ok = false;
            }
            k = k + 1;
        }
        if ok {
            return Some(i);
        }
        i = i + 1;
    }
    None
}

// ---------------------------------------------------------------------------
// Backups
// ---------------------------------------------------------------------------

/// The tag of a slot in archive names: `<slot>_modded` or `<slot>`.
pub open spec fn slot_tag(slot: Seq<char>, modded: bool) -> Seq<char> {
    if modded {
        slot + "_modded"@
    } else {
        slot
    }
}

fn tag_of(opts: &SaveExportOpts) -> (r: Vec<char>)
    ensures
        r@ == slot_tag(opts.slot@, opts.modded),
{
    let mut v = chars_of(opts.slot.as_str());
    if opts.modded {
        push_all(&mut v, &chars_of("_modded"));
    }
    v
}

/// The name of the automatic backup taken before an import overwrites a
/// slot: `auto_backup_<tag>_<timestamp>.zip`.
pub fn auto_backup_name(opts: &SaveExportOpts, timestamp: &str) -> (r: String)
    ensures
        r@ == "auto_backup_"@ + slot_tag(opts.slot@, opts.modded) + "_"@ + timestamp@ + ".zip"@,
{
    let mut v = chars_of("auto_backup_");
    push_all(&mut v, &tag_of(opts));
    push_all(&mut v, &chars_of("_"));
    push_all(&mut v, &chars_of(timestamp));
    push_all(&mut v, &chars_of(".zip"));
    string_of(&v)
}

/// The suggested name of an exported slot: `Save_<tag>_<timestamp>.zip`.
pub fn export_file_name(opts: &SaveExportOpts, timestamp: &str) -> (r: String)
    ensures
        r@ == "Save_"@ + slot_tag(opts.slot@, opts.modded) + "_"@ + timestamp@ + ".zip"@,
{
    let mut v = chars_of("Save_");
    push_all(&mut v, &tag_of(opts));
    push_all(&mut v, &chars_of("_"));
    push_all(&mut v, &chars_of(timestamp));
    push_all(&mut v, &chars_of(".zip"));
    string_of(&v)
}

/// The `index`-th alternative name for a file with stem `stem` and extension
/// `ext`: `<stem>_<index>` or `<stem>_<index>.<ext>`.
pub open spec fn numbered_name(stem: Seq<char>, ext: Seq<char>, index: nat) -> Seq<char> {
    if ext.len() == 0 {
        stem + "_"@ + decimal(index)
    } else {
        stem + "_"@ + decimal(index) + "."@ + ext
    }
}

/// The `index`-th alternative name for a file.
pub fn numbered_file_name(stem: &str, ext: &str, index: u64) -> (r: String)
    ensures
        r@ == numbered_name(stem@, ext@, index as nat),
{
    let mut v = chars_of(stem);
    push_all(&mut v, &chars_of("_"));
    push_all(&mut v, &decimal_chars(index));
    let e = chars_of(ext);
    if e.len() > 0 {
        push_all(&mut v, &chars_of("."));
        push_all(&mut v, &e);
    }
    string_of(&v)
}

/// The stem `unique_backup_path` numbers: the file stem, else `backup`.
pub open spec fn backup_stem(file_name: Seq<char>) -> Seq<char> {
    stem_of(file_name)
}

/// The extension `unique_backup_path` keeps: the file extension, else none.
pub open spec fn backup_ext(file_name: Seq<char>) -> Seq<char> {
    match extension_of(file_name) {
        Some(e) => e,
        None => seq![],
    }
}

/// The candidate number `n` for `file_name` below the directory `dir`: the
/// name itself for 0, else `<stem>_<n>[.<ext>]`.
pub open spec fn backup_candidate(dir: Seq<Seq<char>>, file_name: Seq<char>, n: nat) -> Seq<
    Seq<char>,
> {
    dir.push(
        if n == 0 {
            file_name
        } else {
            numbered_name(backup_stem(file_name), backup_ext(file_name), n)
        },
    )
}

/// A path in `dir` for `file_name` that nothing occupies: the name itself,
/// else the first free `<stem>_<n>[.<ext>]` for n = 1, 2, ... (stem
/// `backup` and no extension when the name has none). Each candidate is
/// probed with `path_exists`: the path returned is one the probe reported
/// free, and for a plain file name every candidate before it was reported
/// occupied. `None` when every candidate up to `i32::MAX` was reported
/// occupied. Each probe answer is turned into the next step by
/// `search_step`.
pub fn unique_backup_path(dir: &AppPath, file_name: &str) -> (r: Option<AppPath>)
    ensures
        r matches Some(p) ==> p.base == dir.base && (parts_of(p) == parts_of(*dir).push(
            file_name@,
        ) || exists|stem: Seq<char>, ext: Seq<char>, n: nat|
            1 <= n && parts_of(p) == parts_of(*dir).push(numbered_name(stem, ext, n))),
        r matches Some(p) ==> call_ensures(path_exists, (&p,), false),
        r matches Some(p) ==> plain_file_name(file_name@) ==> (parts_of(p) == parts_of(*dir).push(
            file_name@,
        ) || exists|n: nat|
            1 <= n && parts_of(p) == parts_of(*dir).push(
                numbered_name(backup_stem(file_name@), backup_ext(file_name@), n),
            )),
        r matches Some(p) ==> plain_file_name(file_name@) ==> exists|n: nat|
            n <= 2147483647 && parts_of(p) == backup_candidate(parts_of(*dir), file_name@, n)
                && forall|m: nat|
                m < n ==> probed_occupied(
                    dir.base,
                    #[trigger] backup_candidate(parts_of(*dir), file_name@, m),
                ),
        r is None ==> plain_file_name(file_name@) ==> forall|m: nat|
            m <= 2147483647 ==> probed_occupied(
                dir.base,
                #[trigger] backup_candidate(parts_of(*dir), file_name@, m),
            ),
{
    let stem = match file_stem_text(file_name) {
        Some(s) => s,
        None => owned("backup"),
    };
    let ext = match extension_text(file_name) {
        Some(e) => e,
        None => String::new(),
    };
    let ghost dp = parts_of(*dir);
    let mut index: u64 = 0;
    loop
        invariant
            index <= 2147483647,
            dp == parts_of(*dir),
            plain_file_name(file_name@) ==> stem@ == backup_stem(file_name@) && ext@ == backup_ext(
                file_name@,
            ),
            plain_file_name(file_name@) ==> forall|m: nat|
                m < index ==> probed_occupied(dir.base, #[trigger] backup_candidate(dp, file_name@, m)),
        decreases 2147483647 - index,
    {
        let candidate = if index == 0 {
            join(dir, file_name)
        } else {
            let name = numbered_file_name(stem.as_str(), ext.as_str(), index);
            join(dir, name.as_str())
        };
        proof {
            if plain_file_name(file_name@) {
                assert(parts_of(candidate) == backup_candidate(dp, file_name@, index as nat));
            }
        }
        let occupied = path_exists(&candidate);
        match search_step(index, occupied, 2147483647) {
            SearchStep::Take(_) => {
                proof {
                    if index > 0 {
                        assert(parts_of(candidate) == parts_of(*dir).push(
                            numbered_name(stem@, ext@, index as nat),
                        ));
                    }
                    if plain_file_name(file_name@) {
                        assert(parts_of(candidate) == backup_candidate(dp, file_name@, index as nat));
                    }
                }
                return Some(candidate);
            },
            SearchStep::Next(n) => {
                proof {
                    if plain_file_name(file_name@) {
                        assert(probed_occupied(dir.base, backup_candidate(dp, file_name@, index as nat)));
                        assert forall|m: nat| m < n implies probed_occupied(
                            dir.base,
                            #[trigger] backup_candidate(dp, file_name@, m),
                        ) by {
                            if m < index {
                            } else {
                                assert(m == index);
                            }
                        }
                    }
                }
                index = n;
            },
            SearchStep::GiveUp => {
                proof {
                    if plain_file_name(file_name@) {
                        assert(probed_occupied(dir.base, backup_candidate(dp, file_name@, index as nat)));
                        assert forall|m: nat| m <= 2147483647 implies probed_occupied(
                            dir.base,
                            #[trigger] backup_candidate(dp, file_name@, m),
                        ) by {
                            if m < index {
                            } else {
                                assert(m == index);
                            }
                        }
                    }
                }
                return None;
            },
        }
    }
}

/// `a` comes before `b` in code-point order.
pub open spec fn text_lt(a: Seq<char>, b: Seq<char>) -> bool
    decreases a.len(),
{
    if b.len() == 0 {
        false
    } else if a.len() == 0 {
        true
    } else if a[0] != b[0] {
        (a[0] as u32) < (b[0] as u32)
    } else {
        text_lt(a.drop_first(), b.drop_first())
    }
}

fn text_less(a: &Vec<char>, b: &Vec<char>) -> (r: bool)
    ensures
        r == text_lt(a@, b@),
{
    let mut i: usize = 0;
    assert(a@.skip(0) =~= a@);
    assert(b@.skip(0) =~= b@);
    while i < a.len() && i < b.len() && a[i] == b[i]
        invariant
            i <= a.len(),
            i <= b.len(),
            text_lt(a@, b@) == text_lt(a@.skip(i as int), b@.skip(i as int)),
        decreases a.len() - i,
    {
        assert(a@.skip(i as int).drop_first() =~= a@.skip(i + 1));
        assert(b@.skip(i as int).drop_first() =~= b@.skip(i + 1));
        i = i + 1;
    }
    if i == b.len() {
        false
    } else if i == a.len() {
        true
    } else {
        assert(a@.skip(i as int)[0] == a@[i as int]);
        assert(b@.skip(i as int)[0] == b@[i as int]);
        (a[i] as u32) < (b[i] as u32)
    }
}

/// How many leading backups of `bs` sort no lower than `name` (descending).
pub open spec fn name_pos(bs: Seq<BackupEntry>, name: Seq<char>) -> nat
    decreases bs.len(),
{
    if bs.len() == 0 {
        0
    } else if !text_lt(bs[0].name@, name) {
        1 + name_pos(bs.drop_first(), name)
    } else {
        0
    }
}

/// `bs` sorted by name in descending code-point order, equal names kept in
/// their order (a stable sort).
pub open spec fn sort_names_desc(bs: Seq<BackupEntry>) -> Seq<BackupEntry>
    decreases bs.len(),
{
    if bs.len() == 0 {
        Seq::empty()
    } else {
        let sorted = sort_names_desc(bs.drop_last());
        sorted.insert(name_pos(sorted, bs.last().name@) as int, bs.last())
    }
}

proof fn lemma_name_pos(bs: Seq<BackupEntry>, name: Seq<char>, p: int)
    requires
        0 <= p <= bs.len(),
        forall|k: int| 0 <= k < p ==> !text_lt(#[trigger] bs[k].name@, name),
        p == bs.len() || text_lt(bs[p].name@, name),
    ensures
        name_pos(bs, name) == p,
    decreases p,
{
    if p > 0 {
        let rest = bs.drop_first();
        assert forall|k: int| 0 <= k < p - 1 implies !text_lt(#[trigger] rest[k].name@, name) by {
            assert(rest[k] == bs[k + 1]);
        }
        if p < bs.len() {
            assert(rest[p - 1] == bs[p]);
        }
        lemma_name_pos(rest, name, p - 1);
    }
}

proof fn lemma_text_lt_transitive(a: Seq<char>, b: Seq<char>, c: Seq<char>)
    requires
        text_lt(a, b),
        text_lt(b, c),
    ensures
        text_lt(a, c),
    decreases a.len(),
{
    if a.len() > 0 && b.len() > 0 && c.len() > 0 && a[0] == b[0] && b[0] == c[0] {
        lemma_text_lt_transitive(a.drop_first(), b.drop_first(), c.drop_first());
    }
}

proof fn lemma_text_lt_irreflexive(a: Seq<char>)
    ensures
        !text_lt(a, a),
    decreases a.len(),
{
    if a.len() > 0 {
        lemma_text_lt_irreflexive(a.drop_first());
    }
}

proof fn lemma_name_pos_splits(bs: Seq<BackupEntry>, name: Seq<char>)
    ensures
        name_pos(bs, name) <= bs.len(),
        forall|k: int| 0 <= k < name_pos(bs, name) ==> !text_lt((#[trigger] bs[k]).name@, name),
        name_pos(bs, name) < bs.len() ==> text_lt(bs[name_pos(bs, name) as int].name@, name),
    decreases bs.len(),
{
    if bs.len() > 0 && !text_lt(bs[0].name@, name) {
        lemma_name_pos_splits(bs.drop_first(), name);
        assert forall|k: int| 0 <= k < name_pos(bs, name) implies !text_lt(
            (#[trigger] bs[k]).name@,
            name,
        ) by {
            if k > 0 {
                assert(bs[k] == bs.drop_first()[k - 1]);
            }
        }
        if name_pos(bs, name) < bs.len() {
            assert(bs[name_pos(bs, name) as int] == bs.drop_first()[name_pos(
                bs.drop_first(),
                name,
            ) as int]);
        }
    }
}

/// Backups are in descending order of name: no later name sorts above an
/// earlier one.
pub open spec fn names_descending(bs: Seq<BackupEntry>) -> bool {
    forall|i: int, j: int|
        0 <= i < j < bs.len() ==> !text_lt((#[trigger] bs[i]).name@, (#[trigger] bs[j]).name@)
}

/// Ordering backups keeps each exactly once and lists them by name, last
/// first.
pub proof fn lemma_backups_by_name(bs: Seq<BackupEntry>)
    ensures
        names_descending(sort_names_desc(bs)),
        sort_names_desc(bs).to_multiset() == bs.to_multiset(),
    decreases bs.len(),
{
    if bs.len() > 0 {
        let prev = bs.drop_last();
        lemma_backups_by_name(prev);
        let sorted = sort_names_desc(prev);
        let e = bs.last();
        let p = name_pos(sorted, e.name@);
        lemma_name_pos_splits(sorted, e.name@);
        let out = sorted.insert(p as int, e);
        assert forall|i: int, j: int| 0 <= i < j < out.len() implies !text_lt(
            (#[trigger] out[i]).name@,
            (#[trigger] out[j]).name@,
        ) by {
            if j < p {
                assert(out[i] == sorted[i] && out[j] == sorted[j]);
            } else if j == p {
                assert(out[i] == sorted[i]);
            } else if i < p {
                assert(out[i] == sorted[i] && out[j] == sorted[j - 1]);
            } else if i == p {
                assert(out[j] == sorted[j - 1]);
                assert(text_lt(sorted[p as int].name@, e.name@));
                if text_lt(e.name@, sorted[j - 1].name@) {
                    lemma_text_lt_transitive(sorted[p as int].name@, e.name@, sorted[j - 1].name@);
                    lemma_text_lt_irreflexive(sorted[p as int].name@);
                    if j - 1 > p {
                        assert(!text_lt(sorted[p as int].name@, sorted[j - 1].name@));
                    }
                }
            } else {
                assert(out[i] == sorted[i - 1] && out[j] == sorted[j - 1]);
            }
        }
        vstd::seq_lib::to_multiset_insert(sorted, p as int, e);
        assert(bs =~= prev.push(e));
        vstd::seq_lib::to_multiset_build(prev, e);
        assert(sort_names_desc(bs) == out);
        assert(out.to_multiset() =~= bs.to_multiset());
    } else {
        assert(sort_names_desc(bs) =~= bs);
    }
}

/// The `.zip` backups, newest name first (names carry timestamps).
pub fn order_backups(entries: Vec<BackupEntry>) -> (r: Vec<BackupEntry>)
    ensures
        r@ == sort_names_desc(entries@.filter(|b: BackupEntry| ".zip"@.is_suffix_of(b.name@))),
{
    let ghost ev = entries@;
    let ghost f = |b: BackupEntry| ".zip"@.is_suffix_of(b.name@);
    let zip = chars_of(".zip");
    let mut kept: Vec<BackupEntry> = Vec::new();
    let mut rest = entries;
    let n = rest.len();
    let mut i: usize = 0;
    assert(ev.take(0).filter(f) =~= Seq::<BackupEntry>::empty());
    while i < n
        invariant
            i <= n,
            n == ev.len(),
            zip@ == ".zip"@,
            f == (|b: BackupEntry| ".zip"@.is_suffix_of(b.name@)),
            rest@ == ev.skip(i as int),
            kept@ == ev.take(i as int).filter(f),
        decreases n - i,
    {
        let item = rest.remove(0);
        assert(item == ev[i as int]);
        proof {
            assert(ev.take(i + 1).drop_last() =~= ev.take(i as int));
            assert(ev.take(i + 1).filter(f) == if f(ev[i as int]) {
                ev.take(i as int).filter(f).push(ev[i as int])
            } else {
                ev.take(i as int).filter(f)
            }) by {
                reveal(Seq::filter);
            }
        }
        if ends_with(&chars_of(item.name.as_str()), &zip) {
            kept.push(item);
        }
        assert(rest@ =~= ev.skip(i + 1));
        i = i + 1;
    }
    assert(ev.take(n as int) =~= ev);
    let ghost kv = kept@;
    let mut out: Vec<BackupEntry> = Vec::new();
    let m = kept.len();
    let mut j: usize = 0;
    assert(kv.take(0) =~= Seq::<BackupEntry>::empty());
    while j < m
        invariant
            j <= m,
            m == kv.len(),
            kept@ == kv.skip(j as int),
            out@ == sort_names_desc(kv.take(j as int)),
        decreases m - j,
    {
        let item = kept.remove(0);
        assert(item == kv[j as int]);
        let name = chars_of(item.name.as_str());
        let ghost ov = out@;
        let mut p: usize = 0;
        while p < out.len() && !text_less(&chars_of(out[p].name.as_str()), &name)
            invariant
                p <= out.len(),
                ov == out@,
                name@ == item.name@,
                forall|k: int| 0 <= k < p ==> !text_lt(#[trigger] ov[k].name@, name@),
            decreases out.len() - p,
        {
            p = p + 1;
        }
        proof {
            lemma_name_pos(ov, item.name@, p as int);
            assert(kv.take(j + 1).drop_last() =~= kv.take(j as int));
            assert(kv.take(j + 1).last() == kv[j as int]);
        }
        out.insert(p, item);
        assert(kept@ =~= kv.skip(j + 1));
        j = j + 1;
    }
    assert(kv.take(m as int) =~= kv);
    out
}

/// The backup directories of older versions that still exist, each once:
/// `save_backups` under the current and the legacy configuration
/// directories; only for the game older versions managed alone.
pub fn legacy_save_backup_dirs(profile: &GameProfile) -> (r: Vec<AppPath>)
    ensures
        profile.nexus_domain@ != default_game_domain_spec() ==> r@.len() == 0,
        r@.len() <= 2,
        forall|i: int|
            0 <= i < r@.len() ==> (#[trigger] r@[i]).base is Dir && (parts_of(r@[i]) == seq![
                current_app_dir_name(),
                "save_backups"@,
            ] || parts_of(r@[i]) == seq![legacy_app_dir_name(), "save_backups"@]),
        r@.len() == 2 ==> parts_of(r@[0]) == seq![current_app_dir_name(), "save_backups"@]
            && parts_of(r@[1]) == seq![legacy_app_dir_name(), "save_backups"@],
{
    let mut out: Vec<AppPath> = Vec::new();
    let is_default = match default_game_domain() {
        Some(d) => chars_eq(&chars_of(d.as_str()), &chars_of(profile.nexus_domain.as_str())),
        None => false,
    };
    if !is_default {
        return out;
    }
    match current_config_dir() {
        Some(dir) => {
            let root = join(&dir, "save_backups");
            if path_exists(&root) {
                assert(parts_of(root) =~= seq![current_app_dir_name(), "save_backups"@]);
                out.push(root);
            }
        },
        None => {},
    }
    match legacy_config_dir() {
        Some(dir) => {
            let root = join(&dir, "save_backups");
            if path_exists(&root) {
                assert(parts_of(root) =~= seq![legacy_app_dir_name(), "save_backups"@]);
                out.push(root);
            }
        },
        None => {},
    }
    out
}

// ---------------------------------------------------------------------------
// Import
// ---------------------------------------------------------------------------

/// The first `/`-separated part of an archive entry name.
pub open spec fn top_folder(name: Seq<char>) -> Seq<char> {
    match first_occurrence(name, "/"@) {
        Some(i) => name.take(i),
        None => name,
    }
}

/// The distinct top folders of archive entries, in order of appearance.
pub open spec fn top_folders_of(names: Seq<Seq<char>>) -> Seq<Seq<char>>
    decreases names.len(),
{
    if names.len() == 0 {
        Seq::empty()
    } else {
        let prev = top_folders_of(names.drop_last());
        let f = top_folder(names.last());
        if prev.contains(f) {
            prev
        } else {
            prev.push(f)
        }
    }
}

fn top_folder_exec(name: &Vec<char>) -> (r: Vec<char>)
    ensures
        r@ == top_folder(name@),
{
    let slash = chars_of("/");
    match find(name, &slash) {
        Some(i) => {
            assert(occurs_at(name@, slash@, i as int));
            slice_chars(name, 0, i)
        },
        None => {
            let n = name.len();
            let r = slice_chars(name, 0, n);
            assert(r@ =~= name@);
            r
        },
    }
}

/// The distinct top folders of the entries of an archive.
pub fn top_folders(names: &Vec<String>) -> (r: Vec<String>)
    ensures
        r@.map_values(|s: String| s@) == top_folders_of(names@.map_values(|s: String| s@)),
{
    let ghost nv = names@.map_values(|s: String| s@);
    let mut out: Vec<String> = Vec::new();
    let mut i: usize = 0;
    assert(nv.take(0) =~= Seq::<Seq<char>>::empty());
    assert(out@.map_values(|s: String| s@) =~= Seq::<Seq<char>>::empty());
    while i < names.len()
        invariant
            i <= names.len(),
            nv == names@.map_values(|s: String| s@),
            out@.map_values(|s: String| s@) == top_folders_of(nv.take(i as int)),
        decreases names.len() - i,
    {
        let f = top_folder_exec(&chars_of(names[i].as_str()));
        assert(nv.take(i + 1).drop_last() =~= nv.take(i as int));
        assert(nv.take(i + 1).last() == names@[i as int]@);
        let ghost ov = out@.map_values(|s: String| s@);
        let mut k: usize = 0;
        let mut seen = false;
        while k < out.len()
            invariant
                k <= out.len(),
                ov == out@.map_values(|s: String| s@),
                seen ==> ov.contains(f@),
                !seen ==> forall|t: int| 0 <= t < k ==> ov[t] != f@,
            decreases out.len() - k,
        {
            if chars_eq(&chars_of(out[k].as_str()), &f) {
                assert(ov[k as int] == f@);
                seen = true;
            }
            k = k + 1;
        }
        if !seen {
            let s = string_of(&f);
            out.push(s);
            assert(out@.map_values(|s: String| s@) =~= ov.push(f@));
        }
        i = i + 1;
    }
    assert(nv.take(names.len() as int) =~= nv);
    out
}

/// The folder of an archive that holds the slot: the first top folder
/// starting with `profile`, else the first top folder, else nothing.
pub open spec fn source_slot_of(folders: Seq<Seq<char>>) -> Seq<char> {
    if exists|i: int| 0 <= i < folders.len() && "profile"@.is_prefix_of(folders[i]) {
        let i = choose|i: int|
            0 <= i < folders.len() && "profile"@.is_prefix_of(folders[i]) && forall|j: int|
                0 <= j < i ==> !"profile"@.is_prefix_of(#[trigger] folders[j]);
        folders[i]
    } else if folders.len() > 0 {
        folders[0]
    } else {
        Seq::empty()
    }
}

/// The folder of an archive that holds the slot.
pub fn source_slot(folders: &Vec<String>) -> (r: String)
    ensures
        r@ == source_slot_of(folders@.map_values(|s: String| s@)),
{
    let ghost fv = folders@.map_values(|s: String| s@);
    let pre = chars_of("profile");
    let mut i: usize = 0;
    while i < folders.len()
        invariant
            i <= folders.len(),
            fv == folders@.map_values(|s: String| s@),
            pre@ == "profile"@,
            forall|j: int| 0 <= j < i ==> !"profile"@.is_prefix_of(#[trigger] fv[j]),
        decreases folders.len() - i,
    {
        assert(fv[i as int] == folders@[i as int]@);
        if starts_with(&chars_of(folders[i].as_str()), &pre) {
            proof {
                let c = choose|c: int|
                    0 <= c < fv.len() && "profile"@.is_prefix_of(fv[c]) && forall|j: int|
                        0 <= j < c ==> !"profile"@.is_prefix_of(#[trigger] fv[j]);
                assert(0 <= i < fv.len() && "profile"@.is_prefix_of(fv[i as int]));
                if c < i {
                } else if c > i {
                    assert(!"profile"@.is_prefix_of(fv[i as int]));
                }
            }
            return folders[i].clone();
        }
        i = i + 1;
    }
    if folders.len() > 0 {
        assert(fv[0] == folders@[0]@);
        folders[0].clone()
    } else {
        String::new()
    }
}

/// Where an archive entry goes below the slot directory: archive metadata
/// (`_meta.json`) and directories are skipped; entries inside the source
/// slot folder lose that folder's prefix.
pub open spec fn import_target_of(name: Seq<char>, is_dir: bool, source: Seq<char>) -> Option<
    Seq<char>,
> {
    if is_dir || name == "_meta.json"@ {
        None
    } else if (source + "/"@).is_prefix_of(name) {
        Some(name.skip(source.len() + 1 as int))
    } else {
        Some(name)
    }
}

/// Where an archive entry goes below the slot directory, if anywhere.
pub fn import_target(name: &str, is_dir: bool, source: &str) -> (r: Option<String>)
    ensures
        opt_chars(r) == import_target_of(name@, is_dir, source@),
{
    let n = chars_of(name);
    if is_dir || chars_eq(&n, &chars_of("_meta.json")) {
        return None;
    }
    let prefix = concat_chars(&chars_of(source), &chars_of("/"));
    proof {
        reveal_strlit("/");
    }
    if starts_with(&n, &prefix) {
        let len = n.len();
        let rest = slice_chars(&n, prefix.len(), len);
        assert(rest@ =~= name@.skip(source@.len() + 1 as int));
        Some(string_of(&rest))
    } else {
        Some(string_of(&n))
    }
}


/// A name without `/` is its own top folder.
proof fn lemma_top_folder_plain(h: Seq<char>)
    requires
        !h.contains('/'),
    ensures
        top_folder(h) == h,
{
    reveal(first_occurrence);
    reveal_strlit("/");
    if contains_seq(h, "/"@) {
        let i = choose|i: int| occurs_at(h, "/"@, i);
        assert(h.subrange(i, i + 1)[0] == h[i]);
        assert(h.contains(h[i]));
    }
    assert(h.take(h.len() as int) =~= h);
}

/// The top folder of `slot/rest` is `slot` when `slot` holds no `/`.
proof fn lemma_top_folder_below(slot: Seq<char>, rest: Seq<char>)
    requires
        !slot.contains('/'),
    ensures
        top_folder(slot.push('/') + rest) == slot,
{
    reveal(first_occurrence);
    reveal_strlit("/");
    let h = slot.push('/') + rest;
    let k = slot.len() as int;
    assert(h[k] == '/');
    assert(h.subrange(k, k + 1) =~= "/"@);
    assert(occurs_at(h, "/"@, k));
    assert forall|j: int| 0 <= j < k implies !occurs_at(h, "/"@, j) by {
        assert(h[j] == slot[j]);
        assert(slot.contains(slot[j]));
        if occurs_at(h, "/"@, j) {
            assert(h.subrange(j, j + 1)[0] == h[j]);
        }
    }
    let i = choose|i: int| occurs_at(h, "/"@, i) && forall|j: int| 0 <= j < i ==> !occurs_at(h, "/"@, j);
    assert(occurs_at(h, "/"@, i) && forall|j: int| 0 <= j < i ==> !occurs_at(h, "/"@, j));
    if i < k {
    } else if i > k {
        assert(!occurs_at(h, "/"@, k));
    }
    assert(i == k);
    assert(h.take(k) =~= slot);
}

/// Behind a first name whose top folder differs from `slot`, names that all
/// lie below `slot` add exactly that one folder.
proof fn lemma_top_folders_after_first(first: Seq<char>, xs: Seq<Seq<char>>, slot: Seq<char>)
    requires
        top_folder(first) != slot,
        forall|k: int| 0 <= k < xs.len() ==> top_folder(#[trigger] xs[k]) == slot,
    ensures
        top_folders_of(seq![first] + xs) == (if xs.len() == 0 {
            seq![top_folder(first)]
        } else {
            seq![top_folder(first), slot]
        }),
    decreases xs.len(),
{
    let all = seq![first] + xs;
    if xs.len() == 0 {
        assert(all =~= seq![first]);
        assert(all.drop_last() =~= Seq::<Seq<char>>::empty());
        assert(top_folders_of(Seq::<Seq<char>>::empty()) == Seq::<Seq<char>>::empty());
        assert(!Seq::<Seq<char>>::empty().contains(top_folder(first)));
        assert(Seq::<Seq<char>>::empty().push(top_folder(first)) =~= seq![top_folder(first)]);
    } else {
        assert(top_folder(xs[xs.len() - 1]) == slot);
        assert(all.drop_last() =~= seq![first] + xs.drop_last());
        assert(all.last() == xs.last());
        lemma_top_folders_after_first(first, xs.drop_last(), slot);
        let prev = top_folders_of(all.drop_last());
        if xs.len() == 1 {
            assert(prev == seq![top_folder(first)]);
            assert(!prev.contains(slot)) by {
                if prev.contains(slot) {
                    let t = choose|t: int| 0 <= t < prev.len() && prev[t] == slot;
                }
            }
            assert(prev.push(slot) =~= seq![top_folder(first), slot]);
        } else {
            assert(prev == seq![top_folder(first), slot]);
            assert(prev[1] == slot);
            assert(prev.contains(slot));
        }
    }
}

/// A slot exported and then imported comes back whole. The export writes
/// `_meta.json` and, for each file or directory below the slot folder
/// `slot` (a path `inner` behind the slot and one separator), the entry
/// `entry_name_of(slot + sep + inner, is_dir)`. On import the archive's
/// slot folder is found to be `slot`, `_meta.json` and directories are
/// skipped, and each file goes to its `inner` path (written with `/`)
/// below the target slot directory. An archive with no entry below the
/// slot has no slot folder to find.
pub proof fn lemma_export_import_round_trip(
    slot: Seq<char>,
    sep: char,
    entries: Seq<(Seq<char>, bool)>,
)
    requires
        "profile"@.is_prefix_of(slot),
        !slot.contains('/'),
        !slot.contains('\\'),
        sep == '/' || sep == '\\',
        entries.len() > 0,
    ensures
        source_slot_of(
            top_folders_of(
                seq!["_meta.json"@] + entries.map_values(
                    |e: (Seq<char>, bool)| entry_name_of(slot.push(sep) + e.0, e.1),
                ),
            ),
        ) == slot,
        import_target_of("_meta.json"@, false, slot) is None,
        forall|i: int|
            0 <= i < entries.len() ==> import_target_of(
                #[trigger] entry_name_of(slot.push(sep) + entries[i].0, entries[i].1),
                entries[i].1,
                slot,
            ) == (if entries[i].1 {
                None
            } else {
                Some(forward_slashes(entries[i].0))
            }),
{
    reveal_strlit("_meta.json");
    reveal_strlit("profile");
    reveal_strlit("/");
    let names = entries.map_values(
        |e: (Seq<char>, bool)| entry_name_of(slot.push(sep) + e.0, e.1),
    );
    let meta = "_meta.json"@;
    assert(forward_slashes(slot) =~= slot) by {
        assert forall|j: int| 0 <= j < slot.len() implies slot[j] != '\\' by {
            assert(slot.contains(slot[j]));
        }
    }
    assert forall|i: int| 0 <= i < entries.len() implies #[trigger] names[i] == slot.push('/') + (
    forward_slashes(entries[i].0) + (if entries[i].1 {
        "/"@
    } else {
        Seq::<char>::empty()
    })) by {
        assert(forward_slashes(slot.push(sep) + entries[i].0) =~= forward_slashes(slot).push('/')
            + forward_slashes(entries[i].0));
        assert(names[i] =~= slot.push('/') + (forward_slashes(entries[i].0) + (if entries[i].1 {
            "/"@
        } else {
            Seq::<char>::empty()
        })));
    }
    assert forall|k: int| 0 <= k < names.len() implies top_folder(#[trigger] names[k]) == slot by {
        lemma_top_folder_below(
            slot,
            forward_slashes(entries[k].0) + (if entries[k].1 {
                "/"@
            } else {
                Seq::<char>::empty()
            }),
        );
    }
    assert(!meta.contains('/')) by {
        if meta.contains('/') {
            let t = choose|t: int| 0 <= t < meta.len() && meta[t] == '/';
        }
    }
    lemma_top_folder_plain(meta);
    assert("profile"@[0] == 'p');
    assert(slot.subrange(0, 7) == "profile"@);
    assert(slot[0] == slot.subrange(0, 7)[0]);
    assert(slot[0] == 'p');
    assert(meta != slot) by {
        assert(meta[0] == '_');
    }
    lemma_top_folders_after_first(meta, names, slot);
    let folders = top_folders_of(seq![meta] + names);
    assert(folders == seq![meta, slot]);
    assert(!"profile"@.is_prefix_of(folders[0])) by {
        assert(folders[0] == meta);
        assert(meta[0] == '_');
        if "profile"@.is_prefix_of(meta) {
            assert(meta.subrange(0, 7) == "profile"@);
            assert(meta.subrange(0, 7)[0] == meta[0]);
        }
    }
    assert("profile"@.is_prefix_of(folders[1]));
    let c = choose|c: int|
        0 <= c < folders.len() && "profile"@.is_prefix_of(folders[c]) && forall|j: int|
            0 <= j < c ==> !"profile"@.is_prefix_of(#[trigger] folders[j]);
    assert(0 <= c < folders.len() && "profile"@.is_prefix_of(folders[c]));
    assert(c == 1);
    assert forall|i: int| 0 <= i < entries.len() implies import_target_of(
        #[trigger] entry_name_of(slot.push(sep) + entries[i].0, entries[i].1),
        entries[i].1,
        slot,
    ) == (if entries[i].1 {
        None
    } else {
        Some(forward_slashes(entries[i].0))
    }) by {
        let n = entry_name_of(slot.push(sep) + entries[i].0, entries[i].1);
        assert(n == names[i]);
        if !entries[i].1 {
            assert(n[0] == 'p');
            assert(n != meta);
            assert((slot + "/"@).is_prefix_of(n)) by {
                assert(n.subrange(0, slot.len() + 1 as int) =~= slot + "/"@);
            }
            assert(n.skip(slot.len() + 1 as int) =~= forward_slashes(entries[i].0));
        }
    }
}

} // verus!
