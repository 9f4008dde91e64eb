//! Download progress events, the progress records that carry them between
//! processes as JSON lines, and the decisions of the two reporters (the
//! command-line one and the one a headless child process writes to stdout).

use vstd::prelude::*;
use crate::text::opt_chars;
use crate::text::{owned, chars_of, push_all, string_of};

verus! {

/// Whether a failure happened while downloading or while installing.
#[derive(Debug, Clone, Copy, PartialEq, Eq)]
pub enum ErrorKind {
    /// HTTP, network or disk-write failures before the file landed.
    Download,
    /// Extraction, directory creation or missing game path after it landed.
    Install,
}

/// A step of the download flow.
#[derive(Debug, Clone)]
pub enum NexusDownloadEvent {
    /// Start-up or an intermediate state, without a file name.
    Preparing { message: String },
    /// The file itself is downloading.
    Downloading { file_name: String, message: String },
    /// The file landed and is being extracted into the mods directory.
    Installing { file_name: String, message: String },
    /// The mod is installed.
    Success { file_name: String, message: String },
    /// The download finished but the archive cannot be installed automatically.
    Saved { file_name: String, message: String },
    /// Downloading or installing failed.
    Error { file_name: Option<String>, message: String, kind: ErrorKind },
}

/// The sink of download events; each front end turns them into its own output.
pub trait NexusDownloadReporter: Send + Sync {
    fn report(&self, event: NexusDownloadEvent);
}

/// The phase name of an event (`Saved` shares `success`).
pub open spec fn event_phase(e: NexusDownloadEvent) -> Seq<char> {
    match e {
        NexusDownloadEvent::Preparing { .. } => "preparing"@,
        NexusDownloadEvent::Downloading { .. } => "downloading"@,
        NexusDownloadEvent::Installing { .. } => "installing"@,
        NexusDownloadEvent::Success { .. } => "success"@,
        NexusDownloadEvent::Saved { .. } => "success"@,
        NexusDownloadEvent::Error { .. } => "error"@,
    }
}

/// The message of an event.
pub open spec fn event_message(e: NexusDownloadEvent) -> Seq<char> {
    match e {
        NexusDownloadEvent::Preparing { message } => message@,
        NexusDownloadEvent::Downloading { message, .. } => message@,
        NexusDownloadEvent::Installing { message, .. } => message@,
        NexusDownloadEvent::Success { message, .. } => message@,
        NexusDownloadEvent::Saved { message, .. } => message@,
        NexusDownloadEvent::Error { message, .. } => message@,
    }
}

/// The file name of an event, if it has one.
pub open spec fn event_file_name(e: NexusDownloadEvent) -> Option<Seq<char>> {
    match e {
        NexusDownloadEvent::Preparing { .. } => None,
        NexusDownloadEvent::Downloading { file_name, .. } => Some(file_name@),
        NexusDownloadEvent::Installing { file_name, .. } => Some(file_name@),
        NexusDownloadEvent::Success { file_name, .. } => Some(file_name@),
        NexusDownloadEvent::Saved { file_name, .. } => Some(file_name@),
        NexusDownloadEvent::Error { file_name, .. } => match file_name {
            Some(f) => Some(f@),
            None => None,
        },
    }
}

/// The label of an error kind in a progress record.
pub open spec fn kind_label(k: ErrorKind) -> Seq<char> {
    match k {
        ErrorKind::Download => "download"@,
        ErrorKind::Install => "install"@,
    }
}

/// The `kind` field of an event's record: only errors carry one.
pub open spec fn event_kind_label(e: NexusDownloadEvent) -> Option<Seq<char>> {
    match e {
        NexusDownloadEvent::Error { kind, .. } => Some(kind_label(kind)),
        _ => None,
    }
}

/// The phase name of an event.
pub fn phase_of(event: &NexusDownloadEvent) -> (r: &'static str)
    ensures
        r@ == event_phase(*event),
{
    match event {
        NexusDownloadEvent::Preparing { .. } => "preparing",
        NexusDownloadEvent::Downloading { .. } => "downloading",
        NexusDownloadEvent::Installing { .. } => "installing",
        NexusDownloadEvent::Success { .. } => "success",
        NexusDownloadEvent::Saved { .. } => "success",
        NexusDownloadEvent::Error { .. } => "error",
    }
}

/// The label of an error kind.
pub fn kind_name(kind: ErrorKind) -> (r: &'static str)
    ensures
        r@ == kind_label(kind),
{
    match kind {
        ErrorKind::Download => "download",
        ErrorKind::Install => "install",
    }
}

/// One line of progress in the JSON-lines protocol:
/// `{"type":"progress","phase":..,"message":..,"fileName":..,"kind"?:..}`.
#[derive(Debug, Clone)]
pub struct ProgressRecord {
    pub phase: String,
    pub message: String,
    pub file_name: Option<String>,
    pub kind: Option<String>,
}

/// A record says exactly what its event says.
pub open spec fn record_of(r: ProgressRecord, e: NexusDownloadEvent) -> bool {
    &&& r.phase@ == event_phase(e)
    &&& r.message@ == event_message(e)
    &&& opt_chars(r.file_name) == event_file_name(e)
    &&& opt_chars(r.kind) == event_kind_label(e)
}


/// The progress record of an event.
pub fn progress_record(event: &NexusDownloadEvent) -> (r: ProgressRecord)
    ensures
        record_of(r, *event),
{
    let phase = owned(phase_of(event));
    match event {
        NexusDownloadEvent::Preparing { message } => ProgressRecord {
            phase,
            message: message.clone(),
            file_name: None,
            kind: None,
        },
        NexusDownloadEvent::Downloading { file_name, message } => ProgressRecord {
            phase,
            message: message.clone(),
            file_name: Some(file_name.clone()),
            kind: None,
        },
        NexusDownloadEvent::Installing { file_name, message } => ProgressRecord {
            phase,
            message: message.clone(),
            file_name: Some(file_name.clone()),
            kind: None,
        },
        NexusDownloadEvent::Success { file_name, message } => ProgressRecord {
            phase,
            message: message.clone(),
            file_name: Some(file_name.clone()),
            kind: None,
        },
        NexusDownloadEvent::Saved { file_name, message } => ProgressRecord {
            phase,
            message: message.clone(),
            file_name: Some(file_name.clone()),
            kind: None,
        },
        NexusDownloadEvent::Error { file_name, message, kind } => ProgressRecord {
            phase,
            message: message.clone(),
            file_name: match file_name {
                Some(f) => Some(f.clone()),
                None => None,
            },
            kind: Some(owned(kind_name(*kind))),
        },
    }
}

/// The error kind a record's `kind` field names: `install` is an install
/// failure; anything else, or no field, a download failure.
pub open spec fn kind_from_label(label: Option<Seq<char>>) -> ErrorKind {
    if label == Some("install"@) {
        ErrorKind::Install
    } else {
        ErrorKind::Download
    }
}

/// The event a progress record stands for, as the fields of the record give
/// it: an unknown or missing phase is no event, a missing message is empty,
/// and a missing file name is empty except for errors.
pub open spec fn event_of_fields(
    phase: Option<Seq<char>>,
    message: Option<Seq<char>>,
    file_name: Option<Seq<char>>,
    kind: Option<Seq<char>>,
) -> Option<EventModel> {
    let msg = match message {
        Some(m) => m,
        None => Seq::empty(),
    };
    let name = match file_name {
        Some(f) => f,
        None => Seq::empty(),
    };
    match phase {
        None => None,
        Some(p) => if p == "preparing"@ {
            Some(EventModel::Preparing(msg))
        } else if p == "downloading"@ {
            Some(EventModel::Downloading(name, msg))
        } else if p == "installing"@ {
            Some(EventModel::Installing(name, msg))
        } else if p == "success"@ {
            Some(EventModel::Success(name, msg))
        } else if p == "error"@ {
            Some(EventModel::Error(file_name, msg, kind_from_label(kind)))
        } else {
            None
        },
    }
}

/// An event with its strings as character sequences.
pub enum EventModel {
    Preparing(Seq<char>),
    Downloading(Seq<char>, Seq<char>),
    Installing(Seq<char>, Seq<char>),
    Success(Seq<char>, Seq<char>),
    Saved(Seq<char>, Seq<char>),
    Error(Option<Seq<char>>, Seq<char>, ErrorKind),
}

/// The model of an event.
pub open spec fn event_model(e: NexusDownloadEvent) -> EventModel {
    match e {
        NexusDownloadEvent::Preparing { message } => EventModel::Preparing(message@),
        NexusDownloadEvent::Downloading { file_name, message } => EventModel::Downloading(
            file_name@,
            message@,
        ),
        NexusDownloadEvent::Installing { file_name, message } => EventModel::Installing(
            file_name@,
            message@,
        ),
        NexusDownloadEvent::Success { file_name, message } => EventModel::Success(
            file_name@,
            message@,
        ),
        NexusDownloadEvent::Saved { file_name, message } => EventModel::Saved(
            file_name@,
            message@,
        ),
        NexusDownloadEvent::Error { file_name, message, kind } => EventModel::Error(
            opt_chars(file_name),
            message@,
            kind,
        ),
    }
}

fn is_text(s: &String, t: &str) -> (r: bool)
    ensures
        r == (s@ == t@),
{
    crate::text::chars_eq(&chars_of(s.as_str()), &chars_of(t))
}

/// The event that the fields of a progress record stand for.
pub fn event_from_fields(
    phase: Option<String>,
    message: Option<String>,
    file_name: Option<String>,
    kind: Option<String>,
) -> (r: Option<NexusDownloadEvent>)
    ensures
        match event_of_fields(opt_chars(phase), opt_chars(message), opt_chars(file_name), opt_chars(kind)) {
            Some(m) => r matches Some(e) && event_model(e) == m,
            None => r is None,
        },
{
    let phase = match phase {
        Some(p) => p,
        None => return None,
    };
    let message = match message {
        Some(m) => m,
        None => String::new(),
    };
    let error_kind = match &kind {
        Some(k) => if is_text(k, "install") {
            ErrorKind::Install
        } else {
            ErrorKind::Download
        },
        None => ErrorKind::Download,
    };
    proof {
        reveal_strlit("install");
    }
    if is_text(&phase, "preparing") {
        Some(NexusDownloadEvent::Preparing { message })
    } else if is_text(&phase, "downloading") {
        Some(
            NexusDownloadEvent::Downloading {
                file_name: match file_name {
                    Some(f) => f,
                    None => String::new(),
                },
                message,
            },
        )
    } else if is_text(&phase, "installing") {
        Some(
            NexusDownloadEvent::Installing {
                file_name: match file_name {
                    Some(f) => f,
                    None => String::new(),
                },
                message,
            },
        )
    } else if is_text(&phase, "success") {
        Some(
            NexusDownloadEvent::Success {
                file_name: match file_name {
                    Some(f) => f,
                    None => String::new(),
                },
                message,
            },
        )
    } else if is_text(&phase, "error") {
        Some(NexusDownloadEvent::Error { file_name, message, kind: error_kind })
    } else {
        None
    }
}

/// Sending an event as a progress record and reading the record back gives
/// the same event, except that a `Saved` event comes back as `Success`.
pub proof fn lemma_record_roundtrip(e: NexusDownloadEvent)
    ensures
        event_of_fields(
            Some(event_phase(e)),
            Some(event_message(e)),
            event_file_name(e),
            event_kind_label(e),
        ) == Some(
            match event_model(e) {
                EventModel::Saved(f, m) => EventModel::Success(f, m),
                other => other,
            },
        ),
{
    reveal_strlit("preparing");
    reveal_strlit("downloading");
    reveal_strlit("installing");
    reveal_strlit("success");
    reveal_strlit("error");
    reveal_strlit("install");
    reveal_strlit("download");
    assert("preparing"@[0] != "downloading"@[0]);
    assert("preparing"@[0] != "installing"@[0]);
    assert("preparing"@[0] != "success"@[0]);
    assert("downloading"@[0] != "installing"@[0]);
    assert("downloading"@[0] != "success"@[0]);
    assert("installing"@[0] != "success"@[0]);
    assert("error"@[0] != "preparing"@[0]);
    assert("error"@[0] != "downloading"@[0]);
    assert("error"@[0] != "installing"@[0]);
    assert("error"@[0] != "success"@[0]);
    assert("download"@[0] != "install"@[0]);
    match e {
        NexusDownloadEvent::Error { file_name, message, kind } => {
            match kind {
                ErrorKind::Download => {},
                ErrorKind::Install => {},
            }
        },
        _ => {},
    }
}

// ---------------------------------------------------------------------------
// The reporters' decisions
// ---------------------------------------------------------------------------

/// The command-line reporter: JSON lines on stdout in JSON mode, readable
/// `[phase] message` lines on stderr otherwise.
#[derive(Debug, Clone, Copy)]
pub struct CliReporter {
    pub json_mode: bool,
}

/// What a reporter writes for one event.
#[derive(Debug, Clone)]
pub enum ReportLine {
    /// A progress record, written as one JSON line on stdout.
    Json(ProgressRecord),
    /// A line of text for stderr.
    Human(String),
}

impl CliReporter {
    /// What the reporter writes for `event`.
    pub fn line_for(&self, event: &NexusDownloadEvent) -> (r: ReportLine)
        ensures
            self.json_mode ==> (r matches ReportLine::Json(rec) && record_of(rec, *event)),
            !self.json_mode ==> (r matches ReportLine::Human(t) && t@ == "["@ + event_phase(
                *event,
            ) + "] "@ + event_message(*event)),
    {
        if self.json_mode {
            ReportLine::Json(progress_record(event))
        } else {
            let mut out = chars_of("[");
            push_all(&mut out, &chars_of(phase_of(event)));
            push_all(&mut out, &chars_of("] "));
            let message = match event {
                NexusDownloadEvent::Preparing { message } => message,
                NexusDownloadEvent::Downloading { message, .. } => message,
                NexusDownloadEvent::Installing { message, .. } => message,
                NexusDownloadEvent::Success { message, .. } => message,
                NexusDownloadEvent::Saved { message, .. } => message,
                NexusDownloadEvent::Error { message, .. } => message,
            };
            push_all(&mut out, &chars_of(message.as_str()));
            ReportLine::Human(string_of(&out))
        }
    }
}

/// Whether an event ends the download, and how: `Some(true)` for success or
/// saved, `Some(false)` for an error, `None` while it goes on.
pub open spec fn event_outcome(e: NexusDownloadEvent) -> Option<bool> {
    match e {
        NexusDownloadEvent::Success { .. } => Some(true),
        NexusDownloadEvent::Saved { .. } => Some(true),
        NexusDownloadEvent::Error { .. } => Some(false),
        _ => None,
    }
}

/// What the headless child writes for one event.
pub struct ChildStep {
    /// The progress line, always written.
    pub progress: ProgressRecord,
    /// The result line (`ok`), written once, with the matching exit code.
    pub result: Option<bool>,
    /// Whether a result line has now been written.
    pub done: bool,
}

/// The headless child's reporter: every event becomes a progress line; the
/// first event that ends the download also writes the result line, later
/// ones do not.
pub fn child_step(event: &NexusDownloadEvent, done: bool) -> (r: ChildStep)
    ensures
        record_of(r.progress, *event),
        r.result == (if done {
            None
        } else {
            event_outcome(*event)
        }),
        r.done == (done || event_outcome(*event) is Some),
{
    let progress = progress_record(event);
    let outcome = match event {
        NexusDownloadEvent::Success { .. } => Some(true),
        NexusDownloadEvent::Saved { .. } => Some(true),
        NexusDownloadEvent::Error { .. } => Some(false),
        _ => None,
    };
    if done {
        ChildStep { progress, result: None, done: true }
    } else {
        ChildStep { progress, result: outcome, done: outcome.is_some() }
    }
}

/// Whether a result line is written for `e`, and what it says, when
/// `done` tells whether one was written before.
pub open spec fn step_result(e: NexusDownloadEvent, done: bool) -> Option<bool> {
    if done {
        None
    } else {
        event_outcome(e)
    }
}

/// How many result lines a child writes for `events`.
pub open spec fn results_written(events: Seq<NexusDownloadEvent>, done: bool) -> nat
    decreases events.len(),
{
    if events.len() == 0 {
        0
    } else {
        (if step_result(events[0], done) is Some {
            1nat
        } else {
            0nat
        }) + results_written(events.drop_first(), done || event_outcome(events[0]) is Some)
    }
}

/// A child writes at most one result line, whatever events it reports, and
/// none once it has written one.
pub proof fn lemma_one_result_line(events: Seq<NexusDownloadEvent>, done: bool)
    ensures
        results_written(events, done) <= 1,
        done ==> results_written(events, done) == 0,
    decreases events.len(),
{
    if events.len() > 0 {
        lemma_one_result_line(events.drop_first(), true);
        lemma_one_result_line(events.drop_first(), done || event_outcome(events[0]) is Some);
    }
}

/// The exit code of a child whose result line said `ok`.
pub fn exit_code(ok: bool) -> (r: i32)
    ensures
        r == (if ok {
            0i32
        } else {
            1i32
        }),
{
    if ok {
        0
    } else {
        1
    }
}

} // verus!
