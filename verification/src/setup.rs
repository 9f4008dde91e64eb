//! Start-up guards of the command-line tool: write commands are refused
//! while the GUI runs, and a `--game` override must name a configured game.

use vstd::prelude::*;
use crate::text::{chars_of, index_of_text, owned, push_all, string_of, trim, trimmed};
use crate::game_profile::{is_preset_domain, preset_table, GameProfile};

verus! {

/// The refusal of a write command while the GUI runs.
pub open spec fn gui_running_message() -> Seq<char> {
    "Nexus Mod Manager GUI 正在运行，写命令被拒绝以避免 SQLite 并发冲突。\n请先关闭 GUI，或通过 GUI 完成此操作。"@
}

/// Whether the GUI holds its single-instance lock. Only Windows has that
/// lock; elsewhere the answer is always `false`.
pub fn detect_gui_running() -> (r: bool)
    ensures
        !r,
{
    false
}

/// The answer to a write command: refused while the GUI runs, allowed
/// otherwise.
pub fn write_access_for(gui_running: bool) -> (r: Result<(), String>)
    ensures
        r is Ok <==> !gui_running,
        r matches Err(e) ==> e@ == gui_running_message(),
{
    if gui_running {
        Err(
            owned(
                "Nexus Mod Manager GUI 正在运行，写命令被拒绝以避免 SQLite 并发冲突。\n请先关闭 GUI，或通过 GUI 完成此操作。",
            ),
        )
    } else {
        Ok(())
    }
}

/// Write commands go ahead unless the GUI runs, which `detect_gui_running`
/// never reports here.
pub fn require_write_access() -> (r: Result<(), String>)
    ensures
        r is Ok,
{
    write_access_for(detect_gui_running())
}

/// The refusal of a `--game` override naming an unconfigured game.
pub open spec fn unknown_game_message(domain: Seq<char>) -> Seq<char> {
    "未知游戏 domain: "@ + domain + "\n请先用 `nmm games add <domain> <path>` 配置该游戏"@
}

/// The game a command runs against: the override when it names one of the
/// configured games, the current game when there is no override, and the
/// refusal otherwise.
pub fn game_for_command(configured: &Vec<String>, current: Option<String>, game_override: Option<
    String,
>) -> (r: Result<Option<String>, String>)
    ensures
        game_override is None ==> r == Ok::<Option<String>, String>(current),
        game_override matches Some(d) ==> ((exists|i: int|
            0 <= i < configured.len() && (#[trigger] configured@[i])@ == d@) ==> r == Ok::<
            Option<String>,
            String,
        >(Some(d))),
        game_override matches Some(d) ==> (!(exists|i: int|
            0 <= i < configured.len() && (#[trigger] configured@[i])@ == d@) ==> (r matches Err(
            e,
        ) && e@ == unknown_game_message(d@))),
{
    if game_override.is_none() {
        return Ok(current);
    }
    let d = game_override.unwrap();
    let dc = chars_of(d.as_str());
    if let Some(i) = index_of_text(configured, &dc) {
        return Ok(Some(d));
    }
    let mut msg = chars_of("未知游戏 domain: ");
    push_all(&mut msg, &dc);
    push_all(&mut msg, &chars_of("\n请先用 `nmm games add <domain> <path>` 配置该游戏"));
    Err(string_of(&msg))
}

/// The refusal of a headless `--game-domain` naming an unconfigured game.
pub open spec fn headless_unknown_game_message(domain: Seq<char>) -> Seq<char> {
    "--game-domain `"@ + domain
        + "` 不在 config.json 的 games 列表里；请先 `nmm games add` 或检查 CLI 端 --game flag"@
}

/// The refusal when a headless run has no game to work on.
pub open spec fn headless_no_game_message() -> Seq<char> {
    "config.json 没有 current_game，且 --game-domain 也未指定"@
}

/// The game a headless download works on: the `--game-domain` override,
/// which must be configured, else the current game, which must be
/// configured too.
pub fn headless_game_domain(configured: &Vec<String>, current: Option<String>, game_domain: Option<
    String,
>) -> (r: Result<String, String>)
    ensures
        game_domain matches Some(d) ==> ((exists|i: int|
            0 <= i < configured.len() && (#[trigger] configured@[i])@ == d@) ==> r == Ok::<
            String,
            String,
        >(d)),
        game_domain matches Some(d) ==> (!(exists|i: int|
            0 <= i < configured.len() && (#[trigger] configured@[i])@ == d@) ==> (r matches Err(
            e,
        ) && e@ == headless_unknown_game_message(d@))),
        game_domain is None ==> match current {
            Some(c) => if exists|i: int| 0 <= i < configured.len() && (#[trigger] configured@[i])@
                == c@ {
                r == Ok::<String, String>(c)
            } else {
                r matches Err(e) && e@ == headless_no_game_message()
            },
            None => r matches Err(e) && e@ == headless_no_game_message(),
        },
{
    if game_domain.is_some() {
        let d = game_domain.unwrap();
        let dc = chars_of(d.as_str());
        if let Some(_) = index_of_text(configured, &dc) {
            return Ok(d);
        }
        let mut msg = chars_of("--game-domain `");
        push_all(&mut msg, &dc);
        push_all(
            &mut msg,
            &chars_of(
                "` 不在 config.json 的 games 列表里；请先 `nmm games add` 或检查 CLI 端 --game flag",
            ),
        );
        return Err(string_of(&msg));
    }
    if current.is_some() {
        let c = current.unwrap();
        if let Some(_) = index_of_text(configured, &chars_of(c.as_str())) {
            return Ok(c);
        }
    }
    Err(owned("config.json 没有 current_game，且 --game-domain 也未指定"))
}


/// The refusal of an empty game domain.
pub open spec fn empty_domain_message() -> Seq<char> {
    "game domain cannot be empty"@
}

/// The refusal of a game domain that is neither configured nor a preset.
pub open spec fn unknown_domain_message(domain: Seq<char>) -> Seq<char> {
    "unknown game domain: "@ + domain
}

/// Where switching to the game `nexus_domain` leads, given the configured
/// domains: the domain is trimmed; an empty one is refused; a configured
/// one is switched to as it is; otherwise its preset is added (the second
/// part of the answer) and switched to, and a domain without a preset is
/// refused.
pub fn switch_game_target(configured: &Vec<String>, nexus_domain: &str) -> (r: Result<
    (String, Option<GameProfile>),
    String,
>)
    ensures
        trim(nexus_domain@).len() == 0 ==> (r matches Err(e) && e@ == empty_domain_message()),
        trim(nexus_domain@).len() > 0 && (exists|i: int|
            0 <= i < configured.len() && (#[trigger] configured@[i])@ == trim(nexus_domain@))
            ==> (r matches Ok((d, p)) && d@ == trim(nexus_domain@) && p is None),
        trim(nexus_domain@).len() > 0 && !(exists|i: int|
            0 <= i < configured.len() && (#[trigger] configured@[i])@ == trim(nexus_domain@))
            ==> (if is_preset_domain(trim(nexus_domain@)) {
            r matches Ok((d, Some(p))) && d@ == trim(nexus_domain@) && exists|k: int|
                0 <= k < preset_table().len() && preset_table()[k] == p@ && p@.nexus_domain == d@
        } else {
            r matches Err(e) && e@ == unknown_domain_message(trim(nexus_domain@))
        }),
{
    let t = trimmed(nexus_domain);
    if t.len() == 0 {
        return Err(owned("game domain cannot be empty"));
    }
    let d = string_of(&t);
    if index_of_text(configured, &t).is_some() {
        return Ok((d, None));
    }
    match GameProfile::default_for(d.as_str()) {
        Some(p) => Ok((d, Some(p))),
        None => {
            let mut m = chars_of("unknown game domain: ");
            push_all(&mut m, &t);
            Err(string_of(&m))
        },
    }
}

} // verus!
