//! The `--headless-download` mode: its command line and its final result.
//!
//! Form: `nexus-mod-manager.exe --headless-download <mod-id> [--file-id <id>]
//! [--game-domain <domain>]`. The first argument (the program) is skipped, a
//! flag always takes the next argument as its value, and unknown arguments are
//! ignored.

use vstd::prelude::*;
use crate::text::opt_chars;
use crate::text::{
    chars_eq, chars_of, decimal, decimal_chars, lemma_parse_decimal, owned, parse_u64, parse_u64_exec,
    push_all, string_of,
};

verus! {

/// The options of a headless download run.
#[derive(Debug, Clone)]
pub struct HeadlessOptions {
    pub mod_id: u64,
    pub file_id: Option<u64>,
    pub game_domain: Option<String>,
}

/// What a parsed command line says, in mathematical form.
pub struct OptionsModel {
    pub mod_id: u64,
    pub file_id: Option<u64>,
    pub game_domain: Option<Seq<char>>,
}

/// The ways a command line can be refused.
pub enum ArgsFault {
    /// `--headless-download` is the last argument.
    MissingModId,
    /// The value after `--headless-download` is not a `u64`.
    BadModId(Seq<char>),
    /// `--file-id` is the last argument.
    MissingFileId,
    /// The value after `--file-id` is not a `u64`.
    BadFileId(Seq<char>),
    /// `--game-domain` is the last argument.
    MissingGameDomain,
    /// `--headless-download` does not occur.
    NoHeadlessFlag,
    /// The flag occurred but left no mod id.
    NoModId,
}

/// The state of a left-to-right scan of the arguments.
pub struct ScanState {
    pub mod_id: Option<u64>,
    pub file_id: Option<u64>,
    pub game_domain: Option<Seq<char>>,
    pub seen_flag: bool,
}

/// The state before any argument is read.
pub open spec fn scan_start() -> ScanState {
    ScanState { mod_id: None, file_id: None, game_domain: None, seen_flag: false }
}

/// Scans `rest` from the state `st`: each flag consumes the next argument.
pub open spec fn scan_args(rest: Seq<Seq<char>>, st: ScanState) -> Result<ScanState, ArgsFault>
    decreases rest.len(),
{
    if rest.len() == 0 {
        Ok(st)
    } else {
        let arg = rest[0];
        if arg == "--headless-download"@ {
            if rest.len() < 2 {
                Err(ArgsFault::MissingModId)
            } else {
                match parse_u64(rest[1]) {
                    Some(id) => scan_args(
                        rest.skip(2),
                        ScanState { mod_id: Some(id), seen_flag: true, ..st },
                    ),
                    None => Err(ArgsFault::BadModId(rest[1])),
                }
            }
        } else if arg == "--file-id"@ {
            if rest.len() < 2 {
                Err(ArgsFault::MissingFileId)
            } else {
                match parse_u64(rest[1]) {
                    Some(id) => scan_args(rest.skip(2), ScanState { file_id: Some(id), ..st }),
                    None => Err(ArgsFault::BadFileId(rest[1])),
                }
            }
        } else if arg == "--game-domain"@ {
            if rest.len() < 2 {
                Err(ArgsFault::MissingGameDomain)
            } else {
                scan_args(rest.skip(2), ScanState { game_domain: Some(rest[1]), ..st })
            }
        } else {
            scan_args(rest.drop_first(), st)
        }
    }
}

/// The meaning of a whole command line (program name first).
pub open spec fn parse_args_spec(args: Seq<Seq<char>>) -> Result<OptionsModel, ArgsFault> {
    let rest = if args.len() == 0 {
        args
    } else {
        args.drop_first()
    };
    match scan_args(rest, scan_start()) {
        Err(f) => Err(f),
        Ok(st) => if !st.seen_flag {
            Err(ArgsFault::NoHeadlessFlag)
        } else if st.mod_id is None {
            Err(ArgsFault::NoModId)
        } else {
            Ok(OptionsModel { mod_id: st.mod_id->0, file_id: st.file_id, game_domain: st.game_domain })
        },
    }
}

/// `a` is none of the flags the command line knows.
pub open spec fn unknown_arg(a: Seq<char>) -> bool {
    a != "--headless-download"@ && a != "--file-id"@ && a != "--game-domain"@
}

proof fn lemma_scan_ignores_trailing(rest: Seq<Seq<char>>, st: ScanState, f: Seq<char>, v: Seq<char>)
    requires
        unknown_arg(f),
        unknown_arg(v),
        scan_args(rest, st) is Ok,
    ensures
        scan_args(rest + seq![f, v], st) == scan_args(rest, st),
    decreases rest.len(),
{
    let ext = rest + seq![f, v];
    if rest.len() == 0 {
        assert(ext =~= seq![f, v]);
        assert(ext.drop_first() =~= seq![v]);
        assert(ext.drop_first().drop_first() =~= Seq::<Seq<char>>::empty());
        assert(scan_args(ext.drop_first().drop_first(), st) == Ok::<ScanState, ArgsFault>(st));
        assert(scan_args(ext.drop_first(), st) == Ok::<ScanState, ArgsFault>(st));
        assert(scan_args(ext, st) == Ok::<ScanState, ArgsFault>(st));
    } else {
        assert(ext[0] == rest[0]);
        let arg = rest[0];
        if arg == "--headless-download"@ || arg == "--file-id"@ || arg == "--game-domain"@ {
            assert(rest.len() >= 2);
            assert(ext[1] == rest[1]);
            assert(ext.skip(2) =~= rest.skip(2) + seq![f, v]);
            if arg == "--headless-download"@ {
                let id = parse_u64(rest[1])->0;
                lemma_scan_ignores_trailing(rest.skip(2), ScanState { mod_id: Some(id), seen_flag: true, ..st }, f, v);
            } else if arg == "--file-id"@ {
                let id = parse_u64(rest[1])->0;
                lemma_scan_ignores_trailing(rest.skip(2), ScanState { file_id: Some(id), ..st }, f, v);
            } else {
                lemma_scan_ignores_trailing(rest.skip(2), ScanState { game_domain: Some(rest[1]), ..st }, f, v);
            }
        } else {
            assert(ext.drop_first() =~= rest.drop_first() + seq![f, v]);
            lemma_scan_ignores_trailing(rest.drop_first(), st, f, v);
        }
    }
}

/// An unknown flag with an unknown value at the end of a command line is
/// ignored: the line means what it meant without them, unless it ended in
/// a flag that lacked its value.
pub proof fn lemma_unknown_flag_ignored(args: Seq<Seq<char>>, f: Seq<char>, v: Seq<char>)
    requires
        args.len() >= 1,
        unknown_arg(f),
        unknown_arg(v),
        scan_args(args.drop_first(), scan_start()) is Ok,
    ensures
        parse_args_spec(args + seq![f, v]) == parse_args_spec(args),
{
    assert((args + seq![f, v]).drop_first() =~= args.drop_first() + seq![f, v]);
    lemma_scan_ignores_trailing(args.drop_first(), scan_start(), f, v);
}

/// The message that reports a refused command line.
pub open spec fn fault_message(f: ArgsFault) -> Seq<char> {
    match f {
        ArgsFault::MissingModId => "--headless-download 需要 mod-id 参数（用法：nexus-mod-manager.exe --headless-download <mod-id> [--file-id <id>] [--game-domain <domain>]）"@,
        ArgsFault::BadModId(v) => "mod-id 参数必须是无符号整数，实际收到 `"@ + v + "`"@,
        ArgsFault::MissingFileId => "--file-id 需要一个无符号整数参数"@,
        ArgsFault::BadFileId(v) => "--file-id 必须是无符号整数，实际收到 `"@ + v + "`"@,
        ArgsFault::MissingGameDomain => "--game-domain 需要一个 domain 参数（如 `stalker2`）"@,
        ArgsFault::NoHeadlessFlag => "未识别到 --headless-download flag（内部错误）"@,
        ArgsFault::NoModId => "--headless-download 需要 mod-id 参数"@,
    }
}

/// The views of the arguments.
pub open spec fn arg_views(args: Seq<String>) -> Seq<Seq<char>> {
    args.map_values(|a: String| a@)
}

fn message_with_value(prefix: &str, value: &String) -> (r: String)
    ensures
        r@ == prefix@ + value@ + "`"@,
{
    let mut m = chars_of(prefix);
    let v = chars_of(value.as_str());
    push_all(&mut m, &v);
    let tick = chars_of("`");
    push_all(&mut m, &tick);
    string_of(&m)
}

fn is_flag(arg: &String, flag: &str) -> (r: bool)
    ensures
        r == (arg@ == flag@),
{
    let a = chars_of(arg.as_str());
    let f = chars_of(flag);
    chars_eq(&a, &f)
}

/// Parses a headless-download command line; `Err` holds the message that
/// explains the refusal.
pub fn parse_args(args: &Vec<String>) -> (r: Result<HeadlessOptions, String>)
    ensures
        match parse_args_spec(arg_views(args@)) {
            Ok(m) => r matches Ok(o) && o.mod_id == m.mod_id && o.file_id == m.file_id
                && opt_chars(o.game_domain) == m.game_domain,
            Err(f) => r matches Err(msg) && msg@ == fault_message(f),
        },
{
    let ghost all = arg_views(args@);
    let ghost rest0 = if all.len() == 0 {
        all
    } else {
        all.drop_first()
    };
    let mut i: usize = if args.len() == 0 {
        0
    } else {
        1
    };
    let mut mod_id: Option<u64> = None;
    let mut file_id: Option<u64> = None;
    let mut game_domain: Option<String> = None;
    let mut seen_flag = false;
    assert(all.skip(i as int) =~= rest0);
    while i < args.len()
        invariant
            i <= args.len(),
            all == arg_views(args@),
            all.len() == args.len(),
            rest0 == (if all.len() == 0 {
                all
            } else {
                all.drop_first()
            }),
            scan_args(rest0, scan_start()) == scan_args(
                all.skip(i as int),
                ScanState { mod_id, file_id, game_domain: opt_chars(game_domain), seen_flag },
            ),
        decreases args.len() - i,
    {
        let ghost rest = all.skip(i as int);
        let ghost st = ScanState {
            mod_id,
            file_id,
            game_domain: opt_chars(game_domain),
            seen_flag,
        };
        assert(rest[0] == args@[i as int]@);
        let arg = &args[i];
        if is_flag(arg, "--headless-download") {
            if i + 1 >= args.len() {
                assert(scan_args(rest, st) == Err::<ScanState, ArgsFault>(ArgsFault::MissingModId));
                assert(parse_args_spec(all) == Err::<OptionsModel, ArgsFault>(ArgsFault::MissingModId));
                return Err(string_of(&chars_of("--headless-download 需要 mod-id 参数（用法：nexus-mod-manager.exe --headless-download <mod-id> [--file-id <id>] [--game-domain <domain>]）")));
            }
            let value = &args[i + 1];
            assert(rest[1] == value@);
            match parse_u64_exec(&chars_of(value.as_str())) {
                Some(id) => {
                    mod_id = Some(id);
                    seen_flag = true;
                },
                None => {
                    assert(scan_args(rest, st) == Err::<ScanState, ArgsFault>(ArgsFault::BadModId(value@)));
                    assert(parse_args_spec(all) == Err::<OptionsModel, ArgsFault>(ArgsFault::BadModId(value@)));
                    return Err(message_with_value("mod-id 参数必须是无符号整数，实际收到 `", value));
                },
            }
            assert(rest.skip(2) =~= all.skip(i + 2));
            i = i + 2;
        } else if is_flag(arg, "--file-id") {
            if i + 1 >= args.len() {
                return Err(string_of(&chars_of("--file-id 需要一个无符号整数参数")));
            }
            let value = &args[i + 1];
            assert(rest[1] == value@);
            match parse_u64_exec(&chars_of(value.as_str())) {
                Some(id) => {
                    file_id = Some(id);
                },
                None => {
                    return Err(message_with_value("--file-id 必须是无符号整数，实际收到 `", value));
                },
            }
            assert(rest.skip(2) =~= all.skip(i + 2));
            i = i + 2;
        } else if is_flag(arg, "--game-domain") {
            if i + 1 >= args.len() {
                return Err(string_of(&chars_of("--game-domain 需要一个 domain 参数（如 `stalker2`）")));
            }
            let value = &args[i + 1];
            assert(rest[1] == value@);
            game_domain = Some(value.clone());
            assert(rest.skip(2) =~= all.skip(i + 2));
            i = i + 2;
        } else {
            assert(rest.drop_first() =~= all.skip(i + 1));
            i = i + 1;
        }
    }
    assert(all.skip(i as int).len() == 0);
    if !seen_flag {
        return Err(string_of(&chars_of("未识别到 --headless-download flag（内部错误）")));
    }
    match mod_id {
        Some(id) => Ok(HeadlessOptions { mod_id: id, file_id, game_domain }),
        None => Err(string_of(&chars_of("--headless-download 需要 mod-id 参数"))),
    }
}

/// The final outcome of a headless download, as the child process reports it.
#[derive(Debug, Clone)]
pub struct HeadlessResult {
    pub mod_id: u64,
    pub file_id: Option<u64>,
}

/// A result record whose `modId` field held a `u64` becomes a result; one
/// without it is not a result.
pub fn result_from_fields(mod_id: Option<u64>, file_id: Option<u64>) -> (r: Option<
    HeadlessResult,
>)
    ensures
        r is Some <==> mod_id is Some,
        r matches Some(h) ==> h.mod_id == mod_id->0 && h.file_id == file_id,
{
    match mod_id {
        Some(m) => Some(HeadlessResult { mod_id: m, file_id }),
        None => None,
    }
}

/// The arguments a headless download is started with (the program itself
/// not included): the mod id, the game domain, and the file id when one is
/// named.
pub open spec fn child_args_spec(mod_id: u64, file_id: Option<u64>, game_domain: Seq<char>) -> Seq<
    Seq<char>,
> {
    seq!["--headless-download"@, decimal(mod_id as nat), "--game-domain"@, game_domain] + (
    match file_id {
        Some(f) => seq!["--file-id"@, decimal(f as nat)],
        None => Seq::<Seq<char>>::empty(),
    })
}

/// The arguments that start a headless download of `mod_id` for the game
/// `game_domain`, with `file_id` when one is named.
pub fn child_args(mod_id: u64, file_id: Option<u64>, game_domain: &str) -> (r: Vec<String>)
    ensures
        arg_views(r@) == child_args_spec(mod_id, file_id, game_domain@),
{
    let mut r: Vec<String> = Vec::new();
    r.push(owned("--headless-download"));
    r.push(string_of(&decimal_chars(mod_id)));
    r.push(owned("--game-domain"));
    r.push(owned(game_domain));
    match file_id {
        Some(f) => {
            r.push(owned("--file-id"));
            r.push(string_of(&decimal_chars(f)));
        },
        None => {},
    }
    assert(arg_views(r@) =~= child_args_spec(mod_id, file_id, game_domain@));
    r
}

/// The arguments a headless download is started with read back, behind any
/// program name, as the download they were built for.
pub proof fn lemma_child_args_round_trip(
    program: Seq<char>,
    mod_id: u64,
    file_id: Option<u64>,
    game_domain: Seq<char>,
)
    ensures
        parse_args_spec(seq![program] + child_args_spec(mod_id, file_id, game_domain)) == Ok::<
            OptionsModel,
            ArgsFault,
        >(OptionsModel { mod_id, file_id, game_domain: Some(game_domain) }),
{
    reveal_strlit("--headless-download");
    reveal_strlit("--game-domain");
    reveal_strlit("--file-id");
    let args = child_args_spec(mod_id, file_id, game_domain);
    let all = seq![program] + args;
    assert(all.drop_first() =~= args);
    lemma_parse_decimal(mod_id);
    let tail: Seq<Seq<char>> = match file_id {
        Some(f) => seq!["--file-id"@, decimal(f as nat)],
        None => Seq::<Seq<char>>::empty(),
    };
    let st1 = ScanState { mod_id: Some(mod_id), seen_flag: true, ..scan_start() };
    let st2 = ScanState { game_domain: Some(game_domain), ..st1 };
    assert(args[0] == "--headless-download"@);
    assert(args[1] == decimal(mod_id as nat));
    assert(args.skip(2) =~= seq!["--game-domain"@, game_domain] + tail);
    let a2 = args.skip(2);
    assert(a2[0] == "--game-domain"@);
    assert(a2[0] != "--headless-download"@);
    assert("--game-domain"@.len() != "--file-id"@.len());
    assert(a2[0] != "--file-id"@);
    assert(a2.skip(2) =~= tail);
    match file_id {
        Some(f) => {
            lemma_parse_decimal(f);
            assert(tail[0] == "--file-id"@);
            assert("--file-id"@.len() != "--headless-download"@.len());
            assert(tail[0] != "--headless-download"@);
            assert(tail[1] == decimal(f as nat));
            assert(tail.skip(2) =~= Seq::<Seq<char>>::empty());
            let st3 = ScanState { file_id: Some(f), ..st2 };
            assert(scan_args(tail.skip(2), st3) == Ok::<ScanState, ArgsFault>(st3));
            assert(scan_args(tail, st2) == Ok::<ScanState, ArgsFault>(st3));
        },
        None => {
            assert(scan_args(tail, st2) == Ok::<ScanState, ArgsFault>(st2));
        },
    }
    assert(scan_args(a2, st1) == scan_args(tail, st2));
    assert(scan_args(args, scan_start()) == scan_args(a2, st1));
}

/// The text of a process exit code, `<no exit code>` when there is none.
pub open spec fn exit_code_text(code: Option<i32>) -> Seq<char> {
    match code {
        Some(c) => if c < 0 {
            "-"@ + decimal((-c) as nat)
        } else {
            decimal(c as nat)
        },
        None => "<no exit code>"@,
    }
}

/// The refusal of a child that exited unsuccessfully.
pub open spec fn child_failed_message(code: Option<i32>) -> Seq<char> {
    "GUI 子进程下载失败，退出码 "@ + exit_code_text(code) + "（stderr 见上方 GUI 内部日志）"@
}

/// The refusal of a child that exited successfully without a result line.
pub open spec fn no_result_message() -> Seq<char> {
    "GUI 子进程退出码 0，但未输出 `type:\"result\"` 终结行（内部协议异常）"@
}

fn exit_code_chars(code: Option<i32>) -> (r: Vec<char>)
    ensures
        r@ == exit_code_text(code),
{
    match code {
        Some(c) => if c < 0 {
            let mut v = chars_of("-");
            let m: i64 = 0i64 - (c as i64);
            push_all(&mut v, &decimal_chars(m as u64));
            v
        } else {
            decimal_chars(c as u64)
        },
        None => chars_of("<no exit code>"),
    }
}

/// What a finished child process amounts to: a failure when it exited
/// unsuccessfully, else the result line it wrote, and a protocol failure
/// when it wrote none.
pub fn child_outcome(exited_ok: bool, code: Option<i32>, final_result: Option<HeadlessResult>) -> (r:
    Result<HeadlessResult, String>)
    ensures
        !exited_ok ==> (r matches Err(e) && e@ == child_failed_message(code)),
        exited_ok && final_result is None ==> (r matches Err(e) && e@ == no_result_message()),
        exited_ok ==> (final_result matches Some(h) ==> (r matches Ok(g) && g.mod_id == h.mod_id
            && g.file_id == h.file_id)),
{
    if !exited_ok {
        let mut v = chars_of("GUI 子进程下载失败，退出码 ");
        push_all(&mut v, &exit_code_chars(code));
        push_all(&mut v, &chars_of("（stderr 见上方 GUI 内部日志）"));
        return Err(string_of(&v));
    }
    match final_result {
        Some(h) => Ok(h),
        None => Err(owned("GUI 子进程退出码 0，但未输出 `type:\"result\"` 终结行（内部协议异常）")),
    }
}

} // verus!
