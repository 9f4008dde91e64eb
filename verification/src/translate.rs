//! Translation: the result record, the public MyMemory service (request and
//! reply), and the routing between the cache, MyMemory and a language model.

use vstd::prelude::*;
use crate::text::opt_chars;
use crate::json::{at_number, at_text, json_at, json_value_at, number_at, text_at, JsonAt};
use vstd::utf8::encode_utf8;
use crate::text::{chars_eq, chars_of, join, push_all, string_of, trim, trim_chars, trimmed};

verus! {

/// The outcome of a translation request.
#[derive(Debug, Clone)]
pub struct TranslateResult {
    pub success: bool,
    pub translated: Option<String>,
    pub error: Option<String>,
    pub provider: Option<String>,
}

impl TranslateResult {
    /// A translation `translated` made by `provider`.
    pub fn success(translated: String, provider: &str) -> (r: TranslateResult)
        ensures
            r.success,
            r.translated == Some(translated),
            r.error is None,
            r.provider matches Some(p) && p@ == provider@,
    {
        TranslateResult {
            success: true,
            translated: Some(translated),
            error: None,
            provider: Some(string_of(&chars_of(provider))),
        }
    }

    /// A failed translation with the reason `error`.
    pub fn failure(error: String) -> (r: TranslateResult)
        ensures
            !r.success,
            r.translated is None,
            r.error == Some(error),
            r.provider is None,
    {
        TranslateResult { success: false, translated: None, error: Some(error), provider: None }
    }

    /// The result of one engine: its translation, or its error.
    pub fn from_engine(result: Result<String, String>, provider: &str) -> (r: TranslateResult)
        ensures
            match result {
                Ok(t) => r.success && r.translated == Some(t) && r.error is None && (
                r.provider matches Some(p) && p@ == provider@),
                Err(e) => !r.success && r.translated is None && r.error == Some(e)
                    && r.provider is None,
            },
    {
        match result {
            Ok(t) => TranslateResult::success(t, provider),
            Err(e) => TranslateResult::failure(e),
        }
    }
}

// ---------------------------------------------------------------------------
// MyMemory
// ---------------------------------------------------------------------------

/// A byte left as it is by URL encoding: ASCII letters and digits, `-`,
/// `.`, `_` and `~`.
pub open spec fn is_unreserved(b: u8) -> bool {
    (48 <= b <= 57) || (65 <= b <= 90) || (97 <= b <= 122) || b == 45 || b == 46 || b == 95
        || b == 126
}

/// An upper-case hexadecimal digit.
pub open spec fn hex_digit(d: u8) -> char {
    if d < 10 {
        (48 + d) as char
    } else {
        (55 + d) as char
    }
}

/// Percent-encoding of bytes: unreserved bytes as themselves, every other
/// byte as `%` and two upper-case hexadecimal digits.
pub open spec fn percent_encode(bytes: Seq<u8>) -> Seq<char>
    decreases bytes.len(),
{
    if bytes.len() == 0 {
        Seq::empty()
    } else {
        let b = bytes[0];
        let head = if is_unreserved(b) {
            seq![b as char]
        } else {
            seq!['%', hex_digit(b / 16), hex_digit(b % 16)]
        };
        head + percent_encode(bytes.drop_first())
    }
}

/// The URL encoding of a text: the percent-encoding of its UTF-8 bytes.
pub open spec fn url_encoded(s: Seq<char>) -> Seq<char> {
    percent_encode(encode_utf8(s))
}

/// `urlencoding::encode`: percent-encodes every byte of the UTF-8 text except
/// ASCII letters, digits, `-`, `_`, `.` and `~`, with upper-case hexadecimal
/// digits.
#[verifier::external_body]
fn url_encode(text: &str) -> (r: String)
    ensures
        r@ == url_encoded(text@),
{
    urlencoding::encode(text).into_owned()
}

/// The MyMemory request for English text to Simplified Chinese.
pub open spec fn mymemory_url_of(text: Seq<char>) -> Seq<char> {
    "https://api.mymemory.translated.net/get?q="@ + url_encoded(trim(text)) + "&langpair=en|zh-CN"@
}

/// The MyMemory request URL for `text`; `Err` for text that is only
/// whitespace.
pub fn mymemory_url(text: &str) -> (r: Result<String, String>)
    ensures
        trim(text@).len() == 0 ==> (r matches Err(e) && e@ == "无内容"@),
        trim(text@).len() > 0 ==> (r matches Ok(u) && u@ == mymemory_url_of(text@)),
{
    let t = trimmed(text);
    if t.len() == 0 {
        return Err(string_of(&chars_of("无内容")));
    }
    let ts = string_of(&t);
    let encoded = url_encode(ts.as_str());
    let mut u = chars_of("https://api.mymemory.translated.net/get?q=");
    push_all(&mut u, &chars_of(encoded.as_str()));
    push_all(&mut u, &chars_of("&langpair=en|zh-CN"));
    Ok(string_of(&u))
}

/// What a MyMemory reply means: a status other than 200 (or none) is an
/// error with the reply's details (or a generic message); otherwise the
/// trimmed translation, unless it is empty.
pub open spec fn mymemory_reply(
    status: Option<u64>,
    details: Option<Seq<char>>,
    translated: Option<Seq<char>>,
) -> Result<Seq<char>, Seq<char>> {
    let code: u64 = match status {
        Some(s) => s,
        None => 0,
    };
    if code != 200 {
        Err(
            match details {
                Some(d) => d,
                None => "翻译失败"@,
            },
        )
    } else {
        match translated {
            Some(t) => if trim(t).len() > 0 {
                Ok(trim(t))
            } else {
                Err("翻译结果为空"@)
            },
            None => Err("翻译结果为空"@),
        }
    }
}

/// The characters of a result's text.
pub open spec fn result_text(r: Result<String, String>) -> Result<Seq<char>, Seq<char>> {
    match r {
        Ok(s) => Ok(s@),
        Err(e) => Err(e@),
    }
}

/// Interprets the fields of a MyMemory reply: `responseStatus`,
/// `responseDetails` and `responseData.translatedText`.
pub fn interpret_mymemory_reply(
    status: Option<u64>,
    details: Option<String>,
    translated: Option<String>,
) -> (r: Result<String, String>)
    ensures
        result_text(r) == mymemory_reply(status, opt_chars(details), opt_chars(translated)),
{
    let code: u64 = match status {
        Some(s) => s,
        None => 0,
    };
    if code != 200 {
        return Err(
            match details {
                Some(d) => d,
                None => string_of(&chars_of("翻译失败")),
            },
        );
    }
    match translated {
        Some(t) => {
            let tt = trim_chars(&chars_of(t.as_str()));
            if tt.len() > 0 {
                Ok(string_of(&tt))
            } else {
                Err(string_of(&chars_of("翻译结果为空")))
            }
        },
        None => Err(string_of(&chars_of("翻译结果为空"))),
    }
}

/// What the body of a MyMemory reply means: not JSON is an error; JSON is
/// read as `mymemory_reply` of its `responseStatus`, `responseDetails` and
/// `responseData.translatedText`.
pub fn read_mymemory_reply(body: &str) -> (r: Result<String, String>)
    ensures
        json_at(body@, ""@) is Invalid ==> r is Err,
        !(json_at(body@, ""@) is Invalid) ==> result_text(r) == mymemory_reply(
            at_number(json_at(body@, "/responseStatus"@)),
            at_text(json_at(body@, "/responseDetails"@)),
            at_text(json_at(body@, "/responseData/translatedText"@)),
        ),
{
    if let JsonAt::Invalid(e) = json_value_at(body, "") {
        return Err(e);
    }
    interpret_mymemory_reply(
        number_at(body, "/responseStatus"),
        text_at(body, "/responseDetails"),
        text_at(body, "/responseData/translatedText"),
    )
}

// ---------------------------------------------------------------------------
// Routing
// ---------------------------------------------------------------------------

/// The engine mode in force: `mymemory` as configured; `llm` or `dual` as
/// configured when the model is enabled; otherwise `dual` when the model is
/// enabled and `mymemory` when it is not.
pub open spec fn llm_mode_of(engine_mode: Seq<char>, enabled: bool) -> Seq<char> {
    if engine_mode == "mymemory"@ {
        "mymemory"@
    } else if engine_mode == "llm"@ && enabled {
        "llm"@
    } else if engine_mode == "dual"@ && enabled {
        "dual"@
    } else if enabled {
        "dual"@
    } else {
        "mymemory"@
    }
}

/// The engine mode in force for a configured mode and model switch.
pub fn llm_mode(engine_mode: &str, enabled: bool) -> (r: &'static str)
    ensures
        r@ == llm_mode_of(engine_mode@, enabled),
{
    let m = chars_of(engine_mode);
    if chars_eq(&m, &chars_of("mymemory")) {
        "mymemory"
    } else if chars_eq(&m, &chars_of("llm")) && enabled {
        "llm"
    } else if chars_eq(&m, &chars_of("dual")) && enabled {
        "dual"
    } else if enabled {
        "dual"
    } else {
        "mymemory"
    }
}

/// The engines to try, in order, for a mode.
pub open spec fn engine_order_of(mode: Seq<char>) -> Seq<Seq<char>> {
    if mode == "mymemory"@ {
        seq!["mymemory"@]
    } else if mode == "llm"@ {
        seq!["llm"@]
    } else {
        seq!["mymemory"@, "llm"@]
    }
}

/// The engines to try, in order, for a mode.
pub fn engine_order(mode: &str) -> (r: Vec<&'static str>)
    ensures
        r@.map_values(|s: &'static str| s@) == engine_order_of(mode@),
{
    let m = chars_of(mode);
    let mut r: Vec<&'static str> = Vec::new();
    if chars_eq(&m, &chars_of("mymemory")) {
        r.push("mymemory");
    } else if chars_eq(&m, &chars_of("llm")) {
        r.push("llm");
    } else {
        r.push("mymemory");
        r.push("llm");
    }
    assert(r@.map_values(|s: &'static str| s@) =~= engine_order_of(mode@));
    r
}

/// What a smart translation starts with: the trimmed text to translate, or
/// the failure for text that is only whitespace.
pub fn smart_start(text: &str) -> (r: Result<String, TranslateResult>)
    ensures
        trim(text@).len() == 0 ==> (r matches Err(f) && !f.success && (f.error matches Some(e)
            && e@ == "无内容"@)),
        trim(text@).len() > 0 ==> (r matches Ok(t) && t@ == trim(text@)),
{
    let t = trimmed(text);
    if t.len() == 0 {
        Err(TranslateResult::failure(string_of(&chars_of("无内容"))))
    } else {
        Ok(string_of(&t))
    }
}

/// A cached translation answers the request at once.
pub fn smart_cache_answer(cached: Option<String>) -> (r: Option<TranslateResult>)
    ensures
        r is Some <==> cached is Some,
        r matches Some(t) ==> t.success && t.translated == cached && (t.provider matches Some(p)
            && p@ == "cache"@),
{
    match cached {
        Some(c) => Some(TranslateResult::success(c, "cache")),
        None => None,
    }
}

/// The error line recorded for a failed engine: `<provider>: <error>`.
pub fn engine_error_line(provider: &str, error: &str) -> (r: String)
    ensures
        r@ == provider@ + ": "@ + error@,
{
    let mut v = chars_of(provider);
    push_all(&mut v, &chars_of(": "));
    push_all(&mut v, &chars_of(error));
    string_of(&v)
}

/// What one engine's answer does to a smart translation: a translation ends
/// the request (and is written to the cache under that engine's name); an
/// error is recorded as `<provider>: <error>` and the next engine is tried.
pub fn after_engine(provider: &str, result: Result<String, String>, errors: &mut Vec<String>) -> (r:
    Option<TranslateResult>)
    ensures
        result matches Ok(t) ==> (r matches Some(tr) && tr.success && tr.translated == Some(t)
            && tr.error is None && (tr.provider matches Some(p) && p@ == provider@)),
        result is Ok ==> final(errors)@ == old(errors)@,
        result matches Err(e) ==> r is None && final(errors)@.map_values(|s: String| s@) == old(
            errors,
        )@.map_values(|s: String| s@).push(provider@ + ": "@ + e@),
{
    match result {
        Ok(t) => Some(TranslateResult::success(t, provider)),
        Err(e) => {
            let ghost before = errors@;
            errors.push(engine_error_line(provider, e.as_str()));
            assert(errors@.map_values(|s: String| s@) =~= before.map_values(|s: String| s@).push(
                provider@ + ": "@ + e@,
            ));
            None
        },
    }
}

/// The failure reported when every engine failed.
pub open spec fn all_failed_message(errors: Seq<Seq<char>>) -> Seq<char> {
    if errors.len() == 0 {
        "所有翻译渠道均失败"@
    } else {
        "所有翻译渠道均失败: "@ + join(errors, " | "@)
    }
}

/// The failure reported when every engine failed, with their errors.
pub fn all_engines_failed(errors: &Vec<String>) -> (r: TranslateResult)
    ensures
        !r.success,
        r.translated is None,
        r.provider is None,
        r.error matches Some(e) && e@ == all_failed_message(errors@.map_values(|s: String| s@)),
{
    if errors.len() == 0 {
        TranslateResult::failure(string_of(&chars_of("所有翻译渠道均失败")))
    } else {
        let mut v = chars_of("所有翻译渠道均失败: ");
        let joined = crate::text::join_strings(errors, " | ");
        push_all(&mut v, &joined);
        TranslateResult::failure(string_of(&v))
    }
}

// ---------------------------------------------------------------------------
// Saved translations of mod names and descriptions
// ---------------------------------------------------------------------------

/// A saved translation as the front end reads it: the translated name and
/// description that exist; nothing when neither does.
pub fn saved_translation_entry(name_translated: Option<String>, desc_translated: Option<String>) -> (r:
    Option<(Option<String>, Option<String>)>)
    ensures
        r is None <==> (name_translated is None && desc_translated is None),
        r matches Some(e) ==> e == (name_translated, desc_translated),
{
    if name_translated.is_none() && desc_translated.is_none() {
        None
    } else {
        Some((name_translated, desc_translated))
    }
}

/// The translation-cache entries (source text, translation) a saved
/// translation adds: one for the name and one for the description, each
/// when both its source text and its translation are known.
pub open spec fn compat_writes(
    translated_name: Option<String>,
    translated_desc: Option<String>,
    source_name: Option<String>,
    source_desc: Option<String>,
) -> Seq<(String, String)> {
    (if source_name is Some && translated_name is Some {
        seq![(source_name->0, translated_name->0)]
    } else {
        Seq::<(String, String)>::empty()
    }) + (if source_desc is Some && translated_desc is Some {
        seq![(source_desc->0, translated_desc->0)]
    } else {
        Seq::<(String, String)>::empty()
    })
}

/// Every cache entry a saved translation writes maps a source text to its
/// own translation: the source name to the translated name, or the source
/// description to the translated description. Each known pair is written,
/// the name's first, and nothing else.
pub proof fn lemma_cache_entries_map_source_to_translation(
    translated_name: Option<String>,
    translated_desc: Option<String>,
    source_name: Option<String>,
    source_desc: Option<String>,
)
    ensures
        ({
            let w = compat_writes(translated_name, translated_desc, source_name, source_desc);
            let name_pair = source_name is Some && translated_name is Some;
            let desc_pair = source_desc is Some && translated_desc is Some;
            &&& forall|i: int|
                0 <= i < w.len() ==> (name_pair && #[trigger] w[i] == (
                    source_name->0,
                    translated_name->0,
                )) || (desc_pair && w[i] == (source_desc->0, translated_desc->0))
            &&& name_pair ==> w[0] == (source_name->0, translated_name->0)
            &&& desc_pair ==> w.last() == (source_desc->0, translated_desc->0)
            &&& w.len() == (if name_pair {
                1int
            } else {
                0
            }) + (if desc_pair {
                1int
            } else {
                0
            })
        }),
{
}

/// The translation-cache entries a saved translation adds.
pub fn compat_cache_writes(
    translated_name: Option<String>,
    translated_desc: Option<String>,
    source_name: Option<String>,
    source_desc: Option<String>,
) -> (r: Vec<(String, String)>)
    ensures
        r@ == compat_writes(translated_name, translated_desc, source_name, source_desc),
        forall|i: int|
            0 <= i < r@.len() ==> (source_name is Some && translated_name is Some && #[trigger] r@[i]
                == (source_name->0, translated_name->0)) || (source_desc is Some && translated_desc
                is Some && r@[i] == (source_desc->0, translated_desc->0)),
{
    let mut out: Vec<(String, String)> = Vec::new();
    let ghost spec_name = translated_name;
    let ghost spec_desc = translated_desc;
    let ghost spec_sname = source_name;
    let ghost spec_sdesc = source_desc;
    match (source_name, translated_name) {
        (Some(s), Some(t)) => out.push((s, t)),
        _ => {},
    }
    let ghost first = out@;
    match (source_desc, translated_desc) {
        (Some(s), Some(t)) => out.push((s, t)),
        _ => {},
    }
    assert(out@ =~= compat_writes(spec_name, spec_desc, spec_sname, spec_sdesc));
    proof {
        lemma_cache_entries_map_source_to_translation(spec_name, spec_desc, spec_sname, spec_sdesc);
    }
    out
}

} // verus!
