//! The human-readable output of the command-line tool: tables of mods,
//! games, saves and Nexus search results, and the one-line reports of its
//! commands. The JSON output is the data itself and is written elsewhere.

use vstd::prelude::*;
use crate::saves::{BackupEntry, SaveSlot, SavesResult, SimpleResult};
use crate::text::{
    bool_chars, bool_text, chars_eq, chars_of, concat_map, decimal, decimal_chars, owned,
    pad_right, pad_right_chars, push_all, push_repeated, repeated, string_of, trim, trim_end,
    trim_end_chars, trimmed,
};

verus! {

/// A horizontal rule of 80 dashes and a line break.
pub open spec fn rule() -> Seq<char> {
    repeated('-', 80) + "\n"@
}

fn push_rule(out: &mut Vec<char>)
    ensures
        final(out)@ == old(out)@ + rule(),
{
    push_repeated(out, '-', 80);
    push_all(out, &chars_of("\n"));
}

// ---------------------------------------------------------------------------
// Nexus mods
// ---------------------------------------------------------------------------

/// A mod as the Nexus Mods API describes it.
#[derive(Debug, Clone, Default)]
pub struct NexusModInfo {
    pub mod_id: u64,
    pub name: String,
    pub summary: String,
    pub description: Option<String>,
    pub picture_url: Option<String>,
    pub mod_downloads: u64,
    pub mod_unique_downloads: u64,
    pub endorsement_count: u64,
    pub version: String,
    pub author: String,
    pub uploaded_by: String,
    pub category_id: u64,
    pub created_timestamp: u64,
    pub updated_timestamp: u64,
    pub available: bool,
    pub status: String,
}

/// One row of a mod table.
pub open spec fn mod_row(m: NexusModInfo) -> Seq<char> {
    pad_right(decimal(m.mod_id as nat), 10) + " "@ + pad_right(decimal(m.endorsement_count as nat), 12)
        + " "@ + pad_right(decimal(m.mod_downloads as nat), 12) + " "@ + m.name@ + "\n"@
}

/// The table of `mods` under `title`.
pub open spec fn mod_list_text(title: Seq<char>, mods: Seq<NexusModInfo>) -> Seq<char> {
    if mods.len() == 0 {
        title + ": (空)"@
    } else {
        trim_end(
            title + "（共 "@ + decimal(mods.len()) + " 个）\n"@ + pad_right("modId"@, 10) + " "@
                + pad_right("endorsements"@, 12) + " "@ + pad_right("downloads"@, 12) + " "@
                + "name"@ + "\n"@ + rule() + concat_map(mods, |m: NexusModInfo| mod_row(m)),
        )
    }
}

fn mod_row_chars(m: &NexusModInfo) -> (r: Vec<char>)
    ensures
        r@ == mod_row(*m),
{
    let mut out = pad_right_chars(&decimal_chars(m.mod_id), 10);
    push_all(&mut out, &chars_of(" "));
    push_all(&mut out, &pad_right_chars(&decimal_chars(m.endorsement_count), 12));
    push_all(&mut out, &chars_of(" "));
    push_all(&mut out, &pad_right_chars(&decimal_chars(m.mod_downloads), 12));
    push_all(&mut out, &chars_of(" "));
    push_all(&mut out, &chars_of(m.name.as_str()));
    push_all(&mut out, &chars_of("\n"));
    out
}

/// The table of `mods` under `title`: id, endorsements, downloads and name
/// of each; a note when there are none.
pub fn format_mod_list(title: &str, mods: &Vec<NexusModInfo>) -> (r: String)
    ensures
        r@ == mod_list_text(title@, mods@),
{
    let mut out = chars_of(title);
    if mods.len() == 0 {
        push_all(&mut out, &chars_of(": (空)"));
        return string_of(&out);
    }
    push_all(&mut out, &chars_of("（共 "));
    push_all(&mut out, &decimal_chars(mods.len() as u64));
    push_all(&mut out, &chars_of(" 个）\n"));
    push_all(&mut out, &pad_right_chars(&chars_of("modId"), 10));
    push_all(&mut out, &chars_of(" "));
    push_all(&mut out, &pad_right_chars(&chars_of("endorsements"), 12));
    push_all(&mut out, &chars_of(" "));
    push_all(&mut out, &pad_right_chars(&chars_of("downloads"), 12));
    push_all(&mut out, &chars_of(" "));
    push_all(&mut out, &chars_of("name"));
    push_all(&mut out, &chars_of("\n"));
    push_rule(&mut out);
    let ghost head = out@;
    let mut i: usize = 0;
    while i < mods.len()
        invariant
            i <= mods.len(),
            out@ == head + concat_map(mods@.take(i as int), |m: NexusModInfo| mod_row(m)),
        decreases mods.len() - i,
    {
        assert(mods@.take(i + 1).drop_last() =~= mods@.take(i as int));
        push_all(&mut out, &mod_row_chars(&mods[i]));
        assert(out@ =~= head + concat_map(mods@.take(i + 1), |m: NexusModInfo| mod_row(m)));
        i = i + 1;
    }
    assert(mods@.take(mods.len() as int) =~= mods@);
    string_of(&trim_end_chars(&out))
}

/// The lines of a mod's details before trailing whitespace is dropped.
pub open spec fn mod_detail_lines(m: NexusModInfo) -> Seq<char> {
    "Mod #"@ + decimal(m.mod_id as nat) + ": "@ + m.name@ + "\n"@ + "作者: "@ + m.author@ + "\n"@
        + "版本: "@ + m.version@ + "\n"@ + "赞同: "@ + decimal(m.endorsement_count as nat) + "\n"@
        + "下载: "@ + decimal(m.mod_downloads as nat) + "（独立 "@ + decimal(
        m.mod_unique_downloads as nat,
    ) + "）\n"@ + "状态: "@ + m.status@ + " (available: "@ + bool_text(m.available) + ")\n"@
}

/// The details of a mod, one fact per line, the summary last when there is
/// one.
pub open spec fn mod_detail_text(m: NexusModInfo) -> Seq<char> {
    trim_end(
        mod_detail_lines(m) + if m.summary@.len() > 0 {
            "\n摘要:\n"@ + m.summary@ + "\n"@
        } else {
            Seq::<char>::empty()
        },
    )
}

/// The details of a mod: id and name, author, version, endorsements,
/// downloads, status, and the summary when it is not empty.
pub fn format_mod_detail(m: &NexusModInfo) -> (r: String)
    ensures
        r@ == mod_detail_text(*m),
{
    let mut out = chars_of("Mod #");
    push_all(&mut out, &decimal_chars(m.mod_id));
    push_all(&mut out, &chars_of(": "));
    push_all(&mut out, &chars_of(m.name.as_str()));
    push_all(&mut out, &chars_of("\n"));
    push_all(&mut out, &chars_of("作者: "));
    push_all(&mut out, &chars_of(m.author.as_str()));
    push_all(&mut out, &chars_of("\n"));
    push_all(&mut out, &chars_of("版本: "));
    push_all(&mut out, &chars_of(m.version.as_str()));
    push_all(&mut out, &chars_of("\n"));
    push_all(&mut out, &chars_of("赞同: "));
    push_all(&mut out, &decimal_chars(m.endorsement_count));
    push_all(&mut out, &chars_of("\n"));
    push_all(&mut out, &chars_of("下载: "));
    push_all(&mut out, &decimal_chars(m.mod_downloads));
    push_all(&mut out, &chars_of("（独立 "));
    push_all(&mut out, &decimal_chars(m.mod_unique_downloads));
    push_all(&mut out, &chars_of("）\n"));
    push_all(&mut out, &chars_of("状态: "));
    push_all(&mut out, &chars_of(m.status.as_str()));
    push_all(&mut out, &chars_of(" (available: "));
    push_all(&mut out, &bool_chars(m.available));
    push_all(&mut out, &chars_of(")\n"));
    assert(out@ =~= mod_detail_lines(*m));
    let ghost lines = out@;
    let summary = chars_of(m.summary.as_str());
    if summary.len() > 0 {
        push_all(&mut out, &chars_of("\n摘要:\n"));
        push_all(&mut out, &summary);
        push_all(&mut out, &chars_of("\n"));
        assert(out@ =~= lines + ("\n摘要:\n"@ + m.summary@ + "\n"@));
    } else {
        assert(out@ =~= lines + Seq::<char>::empty());
    }
    string_of(&trim_end_chars(&out))
}

/// The report of a search for `query`.
pub open spec fn search_text_spec(query: Seq<char>, matched: Option<NexusModInfo>) -> Seq<char> {
    match matched {
        Some(m) => "查询 `"@ + query + "` 命中 mod_id="@ + decimal(m.mod_id as nat) + " "@ + m.name@
            + "\n"@ + mod_detail_text(m),
        None => "未找到与 `"@ + query + "` 匹配的 mod"@,
    }
}

/// The report of a search for `query`: the matched mod's details, or that
/// nothing matched.
pub fn search_text(query: &str, matched: &Option<NexusModInfo>) -> (r: String)
    ensures
        r@ == search_text_spec(query@, *matched),
{
    match matched {
        Some(m) => {
            let mut out = chars_of("查询 `");
            push_all(&mut out, &chars_of(query));
            push_all(&mut out, &chars_of("` 命中 mod_id="));
            push_all(&mut out, &decimal_chars(m.mod_id));
            push_all(&mut out, &chars_of(" "));
            push_all(&mut out, &chars_of(m.name.as_str()));
            push_all(&mut out, &chars_of("\n"));
            let detail = format_mod_detail(m);
            push_all(&mut out, &chars_of(detail.as_str()));
            string_of(&out)
        },
        None => {
            let mut out = chars_of("未找到与 `");
            push_all(&mut out, &chars_of(query));
            push_all(&mut out, &chars_of("` 匹配的 mod"));
            string_of(&out)
        },
    }
}

// ---------------------------------------------------------------------------
// Games
// ---------------------------------------------------------------------------

/// One configured game in the games table.
#[derive(Debug, Clone)]
pub struct GameEntry {
    pub domain: String,
    pub name: String,
    pub game_path: Option<String>,
    /// Whether this is the selected game.
    pub current: bool,
}

/// The entry of a game: it is current when its domain is the selected one.
pub fn game_entry(domain: String, name: String, game_path: Option<String>, current_domain: &Option<
    String,
>) -> (r: GameEntry)
    ensures
        r.domain == domain && r.name == name && r.game_path == game_path,
        r.current == (current_domain matches Some(c) && c@ == domain@),
{
    let current = match current_domain {
        Some(c) => chars_eq(&chars_of(c.as_str()), &chars_of(domain.as_str())),
        None => false,
    };
    GameEntry { domain, name, game_path, current }
}

/// A text, or `(未设置)` when there is none.
pub open spec fn or_unset(o: Option<String>) -> Seq<char> {
    match o {
        Some(s) => s@,
        None => "(未设置)"@,
    }
}

fn or_unset_chars(o: &Option<String>) -> (r: Vec<char>)
    ensures
        r@ == or_unset(*o),
{
    match o {
        Some(s) => chars_of(s.as_str()),
        None => chars_of("(未设置)"),
    }
}

/// One row of the games table, the current game marked with `*`.
pub open spec fn game_row(g: GameEntry) -> Seq<char> {
    (if g.current {
        "*"@
    } else {
        " "@
    }) + " "@ + pad_right(g.domain@, 18) + " "@ + pad_right(g.name@, 24) + " "@ + or_unset(
        g.game_path,
    ) + "\n"@
}

/// The games table.
pub open spec fn games_listing_text(current_game: Option<String>, games: Seq<GameEntry>) -> Seq<
    char,
> {
    trim_end(
        "当前游戏: "@ + or_unset(current_game) + "\n"@ + pad_right("domain"@, 20) + " "@ + pad_right(
            "name"@,
            24,
        ) + " "@ + "gamePath"@ + "\n"@ + rule() + concat_map(games, |g: GameEntry| game_row(g)),
    )
}

fn game_row_chars(g: &GameEntry) -> (r: Vec<char>)
    ensures
        r@ == game_row(*g),
{
    let mut out = if g.current {
        chars_of("*")
    } else {
        chars_of(" ")
    };
    push_all(&mut out, &chars_of(" "));
    push_all(&mut out, &pad_right_chars(&chars_of(g.domain.as_str()), 18));
    push_all(&mut out, &chars_of(" "));
    push_all(&mut out, &pad_right_chars(&chars_of(g.name.as_str()), 24));
    push_all(&mut out, &chars_of(" "));
    push_all(&mut out, &or_unset_chars(&g.game_path));
    push_all(&mut out, &chars_of("\n"));
    out
}

/// The games table: the selected game, then domain, name and directory of
/// each configured game.
pub fn games_listing(current_game: &Option<String>, games: &Vec<GameEntry>) -> (r: String)
    ensures
        r@ == games_listing_text(*current_game, games@),
{
    let mut out = chars_of("当前游戏: ");
    push_all(&mut out, &or_unset_chars(current_game));
    push_all(&mut out, &chars_of("\n"));
    push_all(&mut out, &pad_right_chars(&chars_of("domain"), 20));
    push_all(&mut out, &chars_of(" "));
    push_all(&mut out, &pad_right_chars(&chars_of("name"), 24));
    push_all(&mut out, &chars_of(" "));
    push_all(&mut out, &chars_of("gamePath"));
    push_all(&mut out, &chars_of("\n"));
    push_rule(&mut out);
    let ghost head = out@;
    let mut i: usize = 0;
    while i < games.len()
        invariant
            i <= games.len(),
            out@ == head + concat_map(games@.take(i as int), |g: GameEntry| game_row(g)),
        decreases games.len() - i,
    {
        assert(games@.take(i + 1).drop_last() =~= games@.take(i as int));
        push_all(&mut out, &game_row_chars(&games[i]));
        assert(out@ =~= head + concat_map(games@.take(i + 1), |g: GameEntry| game_row(g)));
        i = i + 1;
    }
    assert(games@.take(games.len() as int) =~= games@);
    string_of(&trim_end_chars(&out))
}

// ---------------------------------------------------------------------------
// Installed mods
// ---------------------------------------------------------------------------

/// An installed mod as the mods scan reports it.
#[derive(Debug, Clone)]
pub struct InstalledMod {
    /// The display name from its manifest, when it has one.
    pub name: Option<String>,
    pub folder_name: String,
    pub enabled: bool,
    pub size: u64,
    pub is_folder: bool,
}

/// A mod as the mods table lists it.
#[derive(Debug, Clone)]
pub struct ModEntry {
    pub name: String,
    pub enabled: bool,
    pub size: u64,
    pub is_folder: bool,
}

/// Whether the filter keeps `m`: only enabled mods, else only disabled
/// ones, else all.
pub open spec fn listed(m: InstalledMod, only_enabled: bool, only_disabled: bool) -> bool {
    if only_enabled {
        m.enabled
    } else if only_disabled {
        !m.enabled
    } else {
        true
    }
}

/// The entry of a listed mod: its display name, else its folder name.
pub open spec fn entry_of(m: InstalledMod) -> (Seq<char>, bool, u64, bool) {
    (
        match m.name {
            Some(n) => n@,
            None => m.folder_name@,
        },
        m.enabled,
        m.size,
        m.is_folder,
    )
}

/// The view of a mod entry.
pub open spec fn mod_entry_view(e: ModEntry) -> (Seq<char>, bool, u64, bool) {
    (e.name@, e.enabled, e.size, e.is_folder)
}

/// The entries the mods table lists, in scan order.
pub open spec fn listed_entries(mods: Seq<InstalledMod>, only_enabled: bool, only_disabled: bool) -> Seq<
    (Seq<char>, bool, u64, bool),
>
    decreases mods.len(),
{
    if mods.len() == 0 {
        seq![]
    } else {
        let prev = listed_entries(mods.drop_last(), only_enabled, only_disabled);
        if listed(mods.last(), only_enabled, only_disabled) {
            prev.push(entry_of(mods.last()))
        } else {
            prev
        }
    }
}

/// The mods to list: those the filter keeps, named by their display name
/// or else their folder name.
pub fn mods_to_list(mods: &Vec<InstalledMod>, only_enabled: bool, only_disabled: bool) -> (r: Vec<
    ModEntry,
>)
    ensures
        r@.map_values(|e: ModEntry| mod_entry_view(e)) == listed_entries(
            mods@,
            only_enabled,
            only_disabled,
        ),
{
    let mut out: Vec<ModEntry> = Vec::new();
    let mut i: usize = 0;
    while i < mods.len()
        invariant
            i <= mods.len(),
            out@.map_values(|e: ModEntry| mod_entry_view(e)) == listed_entries(
                mods@.take(i as int),
                only_enabled,
                only_disabled,
            ),
        decreases mods.len() - i,
    {
        assert(mods@.take(i + 1).drop_last() =~= mods@.take(i as int));
        assert(mods@.take(i + 1).last() == mods@[i as int]);
        let m = &mods[i];
        let keep = if only_enabled {
            m.enabled
        } else if only_disabled {
            !m.enabled
        } else {
            true
        };
        if keep {
            let ghost before = out@;
            let name = match &m.name {
                Some(n) => n.clone(),
                None => m.folder_name.clone(),
            };
            let e = ModEntry { name, enabled: m.enabled, size: m.size, is_folder: m.is_folder };
            out.push(e);
            assert(out@.map_values(|e: ModEntry| mod_entry_view(e)) =~= before.map_values(
                |e: ModEntry| mod_entry_view(e),
            ).push(mod_entry_view(e)));
        }
        i = i + 1;
    }
    assert(mods@.take(mods.len() as int) =~= mods@);
    out
}

/// A mod entry with its size already written out (the size is written with
/// one decimal in binary units, which is floating-point work done outside).
#[derive(Debug, Clone)]
pub struct ModRow {
    pub name: String,
    pub enabled: bool,
    pub size_text: String,
}

/// A check mark for yes, a cross for no.
pub open spec fn mark(b: bool) -> Seq<char> {
    if b {
        "✓"@
    } else {
        "✗"@
    }
}

fn mark_chars(b: bool) -> (r: Vec<char>)
    ensures
        r@ == mark(b),
{
    if b {
        chars_of("✓")
    } else {
        chars_of("✗")
    }
}

/// One row of the mods table.
pub open spec fn installed_row(m: ModRow) -> Seq<char> {
    pad_right(mark(m.enabled), 8) + " "@ + pad_right(m.size_text@, 12) + " "@ + m.name@ + "\n"@
}

/// The mods table.
pub open spec fn mods_listing_text(mods_dir: Seq<char>, rows: Seq<ModRow>) -> Seq<char> {
    trim_end(
        "mods 目录: "@ + mods_dir + "\n"@ + "共 "@ + decimal(rows.len()) + " 个 mod\n"@ + pad_right(
            "enabled"@,
            8,
        ) + " "@ + pad_right("size"@, 12) + " "@ + "name"@ + "\n"@ + rule() + concat_map(
            rows,
            |m: ModRow| installed_row(m),
        ),
    )
}

fn installed_row_chars(m: &ModRow) -> (r: Vec<char>)
    ensures
        r@ == installed_row(*m),
{
    let mut out = pad_right_chars(&mark_chars(m.enabled), 8);
    push_all(&mut out, &chars_of(" "));
    push_all(&mut out, &pad_right_chars(&chars_of(m.size_text.as_str()), 12));
    push_all(&mut out, &chars_of(" "));
    push_all(&mut out, &chars_of(m.name.as_str()));
    push_all(&mut out, &chars_of("\n"));
    out
}

/// The mods table: the mods directory, the count, and the state, size and
/// name of each mod.
pub fn mods_listing(mods_dir: &str, rows: &Vec<ModRow>) -> (r: String)
    ensures
        r@ == mods_listing_text(mods_dir@, rows@),
{
    let mut out = chars_of("mods 目录: ");
    push_all(&mut out, &chars_of(mods_dir));
    push_all(&mut out, &chars_of("\n"));
    push_all(&mut out, &chars_of("共 "));
    push_all(&mut out, &decimal_chars(rows.len() as u64));
    push_all(&mut out, &chars_of(" 个 mod\n"));
    push_all(&mut out, &pad_right_chars(&chars_of("enabled"), 8));
    push_all(&mut out, &chars_of(" "));
    push_all(&mut out, &pad_right_chars(&chars_of("size"), 12));
    push_all(&mut out, &chars_of(" "));
    push_all(&mut out, &chars_of("name"));
    push_all(&mut out, &chars_of("\n"));
    push_rule(&mut out);
    let ghost head = out@;
    let mut i: usize = 0;
    while i < rows.len()
        invariant
            i <= rows.len(),
            out@ == head + concat_map(rows@.take(i as int), |m: ModRow| installed_row(m)),
        decreases rows.len() - i,
    {
        assert(rows@.take(i + 1).drop_last() =~= rows@.take(i as int));
        push_all(&mut out, &installed_row_chars(&rows[i]));
        assert(out@ =~= head + concat_map(rows@.take(i + 1), |m: ModRow| installed_row(m)));
        i = i + 1;
    }
    assert(rows@.take(rows.len() as int) =~= rows@);
    string_of(&trim_end_chars(&out))
}

// ---------------------------------------------------------------------------
// Saves
// ---------------------------------------------------------------------------

/// The id of a slot as the command line writes it.
pub open spec fn slot_id(slot: SaveSlot) -> Seq<char> {
    if slot.modded {
        "modded:"@ + slot.slot@
    } else {
        slot.slot@
    }
}

/// A text, or `-` when there is none.
pub open spec fn or_dash(o: Option<String>) -> Seq<char> {
    match o {
        Some(s) => s@,
        None => "-"@,
    }
}

/// One row of the slots table.
pub open spec fn slot_row(slot: SaveSlot) -> Seq<char> {
    pad_right(slot_id(slot), 22) + " "@ + pad_right(mark(slot.empty), 8) + " "@ + pad_right(
        decimal(slot.size as nat),
        10,
    ) + " "@ + or_dash(slot.last_modified) + "\n"@
}

/// One line of the backups list.
pub open spec fn backup_line(b: BackupEntry) -> Seq<char> {
    "  "@ + b.name@ + " ("@ + decimal(b.size as nat) + " bytes, "@ + b.time@ + ")\n"@
}

/// The saves listing.
pub open spec fn saves_listing_text(r: SavesResult) -> Seq<char> {
    trim_end(
        "存档槽位（共 "@ + decimal(r.slots@.len()) + " 个）\n"@ + pad_right("saveId"@, 22) + " "@
            + pad_right("empty"@, 8) + " "@ + pad_right("size"@, 10) + " "@ + "lastModified"@
            + "\n"@ + rule() + concat_map(r.slots@, |x: SaveSlot| slot_row(x)) + "\n备份（共 "@
            + decimal(r.backups@.len()) + " 个）\n"@ + concat_map(
            r.backups@,
            |b: BackupEntry| backup_line(b),
        ),
    )
}

fn slot_row_chars(slot: &SaveSlot) -> (r: Vec<char>)
    ensures
        r@ == slot_row(*slot),
{
    let mut id = if slot.modded {
        chars_of("modded:")
    } else {
        Vec::new()
    };
    push_all(&mut id, &chars_of(slot.slot.as_str()));
    let mut out = pad_right_chars(&id, 22);
    push_all(&mut out, &chars_of(" "));
    push_all(&mut out, &pad_right_chars(&mark_chars(slot.empty), 8));
    push_all(&mut out, &chars_of(" "));
    push_all(&mut out, &pad_right_chars(&decimal_chars(slot.size), 10));
    push_all(&mut out, &chars_of(" "));
    match &slot.last_modified {
        Some(t) => push_all(&mut out, &chars_of(t.as_str())),
        None => push_all(&mut out, &chars_of("-")),
    }
    push_all(&mut out, &chars_of("\n"));
    out
}

fn backup_line_chars(b: &BackupEntry) -> (r: Vec<char>)
    ensures
        r@ == backup_line(*b),
{
    let mut out = chars_of("  ");
    push_all(&mut out, &chars_of(b.name.as_str()));
    push_all(&mut out, &chars_of(" ("));
    push_all(&mut out, &decimal_chars(b.size));
    push_all(&mut out, &chars_of(" bytes, "));
    push_all(&mut out, &chars_of(b.time.as_str()));
    push_all(&mut out, &chars_of(")\n"));
    out
}

/// The saves listing: a table of the slots (id, whether empty, size, last
/// change) and then the backups with their sizes and times.
pub fn saves_listing(r: &SavesResult) -> (t: String)
    ensures
        t@ == saves_listing_text(*r),
{
    let mut out = chars_of("存档槽位（共 ");
    push_all(&mut out, &decimal_chars(r.slots.len() as u64));
    push_all(&mut out, &chars_of(" 个）\n"));
    push_all(&mut out, &pad_right_chars(&chars_of("saveId"), 22));
    push_all(&mut out, &chars_of(" "));
    push_all(&mut out, &pad_right_chars(&chars_of("empty"), 8));
    push_all(&mut out, &chars_of(" "));
    push_all(&mut out, &pad_right_chars(&chars_of("size"), 10));
    push_all(&mut out, &chars_of(" "));
    push_all(&mut out, &chars_of("lastModified"));
    push_all(&mut out, &chars_of("\n"));
    push_rule(&mut out);
    let ghost head = out@;
    let mut i: usize = 0;
    while i < r.slots.len()
        invariant
            i <= r.slots.len(),
            out@ == head + concat_map(r.slots@.take(i as int), |x: SaveSlot| slot_row(x)),
        decreases r.slots.len() - i,
    {
        assert(r.slots@.take(i + 1).drop_last() =~= r.slots@.take(i as int));
        push_all(&mut out, &slot_row_chars(&r.slots[i]));
        assert(out@ =~= head + concat_map(r.slots@.take(i + 1), |x: SaveSlot| slot_row(x)));
        i = i + 1;
    }
    assert(r.slots@.take(r.slots.len() as int) =~= r.slots@);
    push_all(&mut out, &chars_of("\n备份（共 "));
    push_all(&mut out, &decimal_chars(r.backups.len() as u64));
    push_all(&mut out, &chars_of(" 个）\n"));
    let ghost head2 = out@;
    let mut k: usize = 0;
    while k < r.backups.len()
        invariant
            k <= r.backups.len(),
            out@ == head2 + concat_map(r.backups@.take(k as int), |b: BackupEntry| backup_line(b)),
        decreases r.backups.len() - k,
    {
        assert(r.backups@.take(k + 1).drop_last() =~= r.backups@.take(k as int));
        push_all(&mut out, &backup_line_chars(&r.backups[k]));
        assert(out@ =~= head2 + concat_map(
            r.backups@.take(k + 1),
            |b: BackupEntry| backup_line(b),
        ));
        k = k + 1;
    }
    assert(r.backups@.take(r.backups.len() as int) =~= r.backups@);
    string_of(&trim_end_chars(&out))
}

/// The error when no backup has the id `id`, listing the available ones.
pub open spec fn backup_not_found_text(id: Seq<char>, backups: Seq<BackupEntry>) -> Seq<char> {
    "未找到 backup id `"@ + id + "`"@ + if backups.len() == 0 {
        Seq::<char>::empty()
    } else {
        "\n可用 backup id："@ + concat_map(backups, |b: BackupEntry| "\n  "@ + b.name@)
    }
}

/// The backup named `id`: the position of the first backup with that name,
/// or the error listing the available names.
pub fn find_backup(backups: &Vec<BackupEntry>, id: &str) -> (r: Result<usize, String>)
    ensures
        r matches Ok(i) ==> i < backups.len() && backups@[i as int].name@ == id@ && forall|j: int|
            0 <= j < i ==> (#[trigger] backups@[j]).name@ != id@,
        r is Err ==> forall|j: int| 0 <= j < backups.len() ==> (#[trigger] backups@[j]).name@ != id@,
        r matches Err(e) ==> e@ == backup_not_found_text(id@, backups@),
{
    let want = chars_of(id);
    let mut i: usize = 0;
    while i < backups.len()
        invariant
            i <= backups.len(),
            want@ == id@,
            forall|j: int| 0 <= j < i ==> (#[trigger] backups@[j]).name@ != id@,
        decreases backups.len() - i,
    {
        if chars_eq(&chars_of(backups[i].name.as_str()), &want) {
            return Ok(i);
        }
        i = i + 1;
    }
    let mut out = chars_of("未找到 backup id `");
    push_all(&mut out, &want);
    push_all(&mut out, &chars_of("`"));
    if backups.len() > 0 {
        push_all(&mut out, &chars_of("\n可用 backup id："));
        let ghost head = out@;
        let mut k: usize = 0;
        while k < backups.len()
            invariant
                k <= backups.len(),
                out@ == head + concat_map(
                    backups@.take(k as int),
                    |b: BackupEntry| "\n  "@ + b.name@,
                ),
            decreases backups.len() - k,
        {
            assert(backups@.take(k + 1).drop_last() =~= backups@.take(k as int));
            push_all(&mut out, &chars_of("\n  "));
            push_all(&mut out, &chars_of(backups[k].name.as_str()));
            assert(out@ =~= head + concat_map(
                backups@.take(k + 1),
                |b: BackupEntry| "\n  "@ + b.name@,
            ));
            k = k + 1;
        }
        assert(backups@.take(backups.len() as int) =~= backups@);
    }
    Err(string_of(&out))
}

/// An operation's outcome as a command result: its error, or `fallback`
/// when it failed without one.
pub fn outcome_to_result(outcome: SimpleResult, fallback: &str) -> (r: Result<(), String>)
    ensures
        r is Ok <==> outcome.success,
        r matches Err(e) ==> e@ == (match outcome.error {
            Some(m) => m@,
            None => fallback@,
        }),
{
    if outcome.success {
        Ok(())
    } else {
        match outcome.error {
            Some(e) => Err(e),
            None => Err(owned(fallback)),
        }
    }
}

/// The refusal when the selected game has no save management.
pub fn saves_disabled_message(domain: &str) -> (r: String)
    ensures
        r@ == "当前游戏 "@ + domain@ + " 未启用存档管理（saves_enabled = false）"@,
{
    let mut out = chars_of("当前游戏 ");
    push_all(&mut out, &chars_of(domain));
    push_all(&mut out, &chars_of(" 未启用存档管理（saves_enabled = false）"));
    string_of(&out)
}

/// `<verb> <from> → <to>`, the report of a copy.
pub fn transfer_message(verb: &str, from: &str, to: &str) -> (r: String)
    ensures
        r@ == verb@ + " "@ + from@ + " → "@ + to@,
{
    let mut out = chars_of(verb);
    push_all(&mut out, &chars_of(" "));
    push_all(&mut out, &chars_of(from));
    push_all(&mut out, &chars_of(" → "));
    push_all(&mut out, &chars_of(to));
    string_of(&out)
}

/// The report of a deleted backup.
pub fn deleted_backup_message(id: &str) -> (r: String)
    ensures
        r@ == "已删除备份: "@ + id@,
{
    let mut out = chars_of("已删除备份: ");
    push_all(&mut out, &chars_of(id));
    string_of(&out)
}

// ---------------------------------------------------------------------------
// Configuration
// ---------------------------------------------------------------------------

/// The API key worth showing: the configured one unless it is blank.
pub fn visible_api_key(key: Option<String>) -> (r: Option<String>)
    ensures
        r == (match key {
            Some(k) => if trim(k@).len() > 0 {
                Some(k)
            } else {
                None
            },
            None => None,
        }),
{
    match key {
        Some(k) => if trimmed(k.as_str()).len() > 0 {
            Some(k)
        } else {
            None
        },
        None => None,
    }
}

/// The line that shows the API key.
pub fn api_key_line(key: &Option<String>) -> (r: String)
    ensures
        r@ == "Nexus API Key: "@ + or_unset(*key),
{
    let mut out = chars_of("Nexus API Key: ");
    push_all(&mut out, &or_unset_chars(key));
    string_of(&out)
}

/// The API key to store: the given one trimmed, which must not be blank.
pub fn new_api_key(key: &str) -> (r: Result<String, String>)
    ensures
        trim(key@).len() > 0 ==> (r matches Ok(k) && k@ == trim(key@)),
        trim(key@).len() == 0 ==> (r matches Err(e) && e@ == "API key 不能为空"@),
{
    let t = trimmed(key);
    if t.len() == 0 {
        Err(owned("API key 不能为空"))
    } else {
        Ok(string_of(&t))
    }
}

} // verus!
