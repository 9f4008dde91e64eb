//! Reading what a headless child process writes: one JSON object per line,
//! either a progress record (`"type": "progress"`) or the final result
//! (`"type": "result"`).

use vstd::prelude::*;
use crate::text::opt_chars;
use crate::json::{at_number, at_text, json_at, json_value_at, number_at, text_at, JsonAt, JsonAtModel};
use crate::events::{event_from_fields, event_model, event_of_fields, EventModel, NexusDownloadEvent};
use crate::headless::{result_from_fields, HeadlessResult};
use crate::text::{chars_eq, chars_of, push_all, string_of, trim, trimmed};

verus! {

/// What a line's JSON object holds of the fields a child writes: each text
/// or number field, absent when missing or of another JSON type.
#[derive(Debug, Clone)]
pub struct LineFields {
    pub kind_tag: Option<String>,
    pub phase: Option<String>,
    pub message: Option<String>,
    pub file_name: Option<String>,
    pub kind: Option<String>,
    pub mod_id: Option<u64>,
    pub file_id: Option<u64>,
}

/// What JSON parsing made of a line.
#[derive(Debug, Clone)]
pub enum JsonLine {
    /// Not JSON; the parser's message.
    Malformed(String),
    /// JSON, but not an object.
    NotObject,
    /// A JSON object.
    Object(LineFields),
}

/// The fields of a line, as character sequences.
pub struct FieldsModel {
    pub kind_tag: Option<Seq<char>>,
    pub phase: Option<Seq<char>>,
    pub message: Option<Seq<char>>,
    pub file_name: Option<Seq<char>>,
    pub kind: Option<Seq<char>>,
    pub mod_id: Option<u64>,
    pub file_id: Option<u64>,
}

/// What JSON parsing made of a line, as a model.
pub enum JsonLineModel {
    /// Not JSON; the parser's message.
    Malformed(Seq<char>),
    NotObject,
    Object(FieldsModel),
}

/// The model of parsed fields.
pub open spec fn fields_model(f: LineFields) -> FieldsModel {
    FieldsModel {
        kind_tag: opt_chars(f.kind_tag),
        phase: opt_chars(f.phase),
        message: opt_chars(f.message),
        file_name: opt_chars(f.file_name),
        kind: opt_chars(f.kind),
        mod_id: f.mod_id,
        file_id: f.file_id,
    }
}

/// The model of a parsed line.
pub open spec fn json_line_model(j: JsonLine) -> JsonLineModel {
    match j {
        JsonLine::Malformed(m) => JsonLineModel::Malformed(m@),
        JsonLine::NotObject => JsonLineModel::NotObject,
        JsonLine::Object(f) => JsonLineModel::Object(fields_model(f)),
    }
}

/// What JSON parsing makes of the text `s`, read down to the fields a child
/// writes: malformed, with the parser's message, when it is not JSON; an
/// object's text fields `type`, `phase`, `message`, `fileName`, `kind` and
/// unsigned fields `modId`, `fileId` (each absent when missing or of
/// another kind); and not an object otherwise.
pub open spec fn parsed_json_line(s: Seq<char>) -> JsonLineModel {
    match json_at(s, ""@) {
        JsonAtModel::Invalid(m) => JsonLineModel::Malformed(m),
        JsonAtModel::Object(_) => JsonLineModel::Object(
            FieldsModel {
                kind_tag: at_text(json_at(s, "/type"@)),
                phase: at_text(json_at(s, "/phase"@)),
                message: at_text(json_at(s, "/message"@)),
                file_name: at_text(json_at(s, "/fileName"@)),
                kind: at_text(json_at(s, "/kind"@)),
                mod_id: at_number(json_at(s, "/modId"@)),
                file_id: at_number(json_at(s, "/fileId"@)),
            },
        ),
        _ => JsonLineModel::NotObject,
    }
}

/// Parses `text` as JSON and reads the fields a child writes (see
/// `parsed_json_line`); a malformed line keeps the parser's message.
pub fn read_json_line(text: &str) -> (r: JsonLine)
    ensures
        json_line_model(r) == parsed_json_line(text@),
{
    match json_value_at(text, "") {
        JsonAt::Invalid(e) => JsonLine::Malformed(e),
        JsonAt::Object(_) => JsonLine::Object(
            LineFields {
                kind_tag: text_at(text, "/type"),
                phase: text_at(text, "/phase"),
                message: text_at(text, "/message"),
                file_name: text_at(text, "/fileName"),
                kind: text_at(text, "/kind"),
                mod_id: number_at(text, "/modId"),
                file_id: number_at(text, "/fileId"),
            },
        ),
        _ => JsonLine::NotObject,
    }
}

/// What a child's output line is.
#[derive(Debug)]
pub enum ParsedLine {
    /// A progress record.
    Progress(NexusDownloadEvent),
    /// The final result.
    Result(HeadlessResult),
    /// Valid JSON without a recognised `type`, or not an object, or blank.
    Unknown,
    /// Not JSON at all; the parser's message.
    Malformed(String),
}

/// What a line is, as a model.
pub enum LineMeaning {
    Progress(EventModel),
    Result(u64, Option<u64>),
    Unknown,
    /// Not JSON; the parser's message.
    Malformed(Seq<char>),
}

/// The model of a classified line.
pub open spec fn parsed_line_model(p: ParsedLine) -> LineMeaning {
    match p {
        ParsedLine::Progress(e) => LineMeaning::Progress(event_model(e)),
        ParsedLine::Result(r) => LineMeaning::Result(r.mod_id, r.file_id),
        ParsedLine::Unknown => LineMeaning::Unknown,
        ParsedLine::Malformed(m) => LineMeaning::Malformed(m@),
    }
}

/// What a parsed line is: a progress record when its `type` is `progress`
/// and its fields make an event, the result when its `type` is `result` and
/// it has a `modId`, malformed when it was not JSON, unknown otherwise.
pub open spec fn classify_spec(j: JsonLineModel) -> LineMeaning {
    match j {
        JsonLineModel::Malformed(m) => LineMeaning::Malformed(m),
        JsonLineModel::NotObject => LineMeaning::Unknown,
        JsonLineModel::Object(f) => if f.kind_tag == Some("progress"@) {
            match event_of_fields(f.phase, f.message, f.file_name, f.kind) {
                Some(m) => LineMeaning::Progress(m),
                None => LineMeaning::Unknown,
            }
        } else if f.kind_tag == Some("result"@) {
            match f.mod_id {
                Some(m) => LineMeaning::Result(m, f.file_id),
                None => LineMeaning::Unknown,
            }
        } else {
            LineMeaning::Unknown
        },
    }
}

fn tag_is(tag: &Option<String>, want: &str) -> (r: bool)
    ensures
        r == (opt_chars(*tag) == Some(want@)),
{
    match tag {
        Some(t) => chars_eq(&chars_of(t.as_str()), &chars_of(want)),
        None => false,
    }
}

/// What the parsed line `j` is.
pub fn classify_line(j: JsonLine) -> (r: ParsedLine)
    ensures
        parsed_line_model(r) == classify_spec(json_line_model(j)),
        j matches JsonLine::Malformed(m) ==> r == ParsedLine::Malformed(m),
{
    match j {
        JsonLine::Malformed(m) => ParsedLine::Malformed(m),
        JsonLine::NotObject => ParsedLine::Unknown,
        JsonLine::Object(f) => {
            if tag_is(&f.kind_tag, "progress") {
                match event_from_fields(f.phase, f.message, f.file_name, f.kind) {
                    Some(e) => ParsedLine::Progress(e),
                    None => ParsedLine::Unknown,
                }
            } else if tag_is(&f.kind_tag, "result") {
                match result_from_fields(f.mod_id, f.file_id) {
                    Some(r) => ParsedLine::Result(r),
                    None => ParsedLine::Unknown,
                }
            } else {
                ParsedLine::Unknown
            }
        },
    }
}

/// What the child's output line `text` is: blank lines are unknown; other
/// lines are parsed as JSON once trimmed and classified.
pub fn parse_event_line(text: &str) -> (r: ParsedLine)
    ensures
        trim(text@).len() == 0 ==> parsed_line_model(r) == LineMeaning::Unknown,
        trim(text@).len() > 0 ==> parsed_line_model(r) == classify_spec(parsed_json_line(trim(text@))),
{
    let t = trimmed(text);
    if t.len() == 0 {
        return ParsedLine::Unknown;
    }
    let s = string_of(&t);
    classify_line(read_json_line(s.as_str()))
}


/// The note about a line that is not a record.
pub open spec fn skipped_line_note(line: Seq<char>) -> Seq<char> {
    "[subprocess] 跳过非 JSON 行: "@ + line
}

/// The note about a line that is not JSON.
pub open spec fn malformed_line_note(error: Seq<char>, line: Seq<char>) -> Seq<char> {
    "[subprocess] JSON 解析失败: "@ + error + " (line: "@ + line + ")"@
}

/// What the driver does with one line of the child's output.
pub struct ChildLineStep {
    /// The progress event to report, when the line is one.
    pub event: Option<NexusDownloadEvent>,
    /// The last result seen so far.
    pub last: Option<HeadlessResult>,
    /// The note written to standard error about a skipped line.
    pub note: Option<String>,
}

/// One step of reading the child's output: a progress record is reported,
/// a result replaces the last one, and any other line is skipped with a
/// note (the parser's message included for a line that is not JSON).
pub fn on_child_line(line: &str, parsed: ParsedLine, last: Option<HeadlessResult>) -> (r: ChildLineStep)
    ensures
        match parsed {
            ParsedLine::Progress(e) => r.event == Some(e) && r.last == last && r.note is None,
            ParsedLine::Result(h) => r.event is None && r.last == Some(h) && r.note is None,
            ParsedLine::Unknown => r.event is None && r.last == last && (r.note matches Some(n)
                && n@ == skipped_line_note(line@)),
            ParsedLine::Malformed(m) => r.event is None && r.last == last && (r.note matches Some(n)
                && n@ == malformed_line_note(m@, line@)),
        },
{
    match parsed {
        ParsedLine::Progress(e) => ChildLineStep { event: Some(e), last, note: None },
        ParsedLine::Result(h) => ChildLineStep { event: None, last: Some(h), note: None },
        ParsedLine::Unknown => {
            let mut v = chars_of("[subprocess] 跳过非 JSON 行: ");
            push_all(&mut v, &chars_of(line));
            ChildLineStep { event: None, last, note: Some(string_of(&v)) }
        },
        ParsedLine::Malformed(m) => {
            let mut v = chars_of("[subprocess] JSON 解析失败: ");
            push_all(&mut v, &chars_of(m.as_str()));
            push_all(&mut v, &chars_of(" (line: "));
            push_all(&mut v, &chars_of(line));
            push_all(&mut v, &chars_of(")"));
            ChildLineStep { event: None, last, note: Some(string_of(&v)) }
        },
    }
}

} // verus!
