use nexus_mod_manager::child_output::{classify_line, parse_event_line, JsonLine, LineFields, ParsedLine};
use nexus_mod_manager::events::{ErrorKind, NexusDownloadEvent};

#[test]
fn parse_progress_downloading() {
    let line = r#"{"type":"progress","phase":"downloading","message":"正在下载 foo.zip","fileName":"foo.zip"}"#;
    match parse_event_line(line) {
        ParsedLine::Progress(NexusDownloadEvent::Downloading { file_name, message }) => {
            assert_eq!(file_name, "foo.zip");
            assert!(message.contains("foo.zip"));
        }
        _ => panic!("expected Downloading event"),
    }
}

#[test]
fn parse_progress_error_with_kind() {
    let line = r#"{"type":"progress","phase":"error","message":"x","fileName":null,"kind":"install"}"#;
    match parse_event_line(line) {
        ParsedLine::Progress(NexusDownloadEvent::Error { kind, .. }) => {
            assert!(matches!(kind, ErrorKind::Install));
        }
        _ => panic!("expected Error/install event"),
    }
}

#[test]
fn parse_progress_error_kind_default_download() {
    let line = r#"{"type":"progress","phase":"error","message":"x","fileName":null}"#;
    match parse_event_line(line) {
        ParsedLine::Progress(NexusDownloadEvent::Error { kind, .. }) => {
            assert!(matches!(kind, ErrorKind::Download));
        }
        _ => panic!("expected Error/download event"),
    }
}

#[test]
fn parse_result_with_file_id() {
    let line = r#"{"type":"result","ok":true,"modId":12345,"fileId":67890}"#;
    match parse_event_line(line) {
        ParsedLine::Result(r) => {
            assert_eq!(r.mod_id, 12345);
            assert_eq!(r.file_id, Some(67890));
        }
        _ => panic!("expected Result"),
    }
}

#[test]
fn parse_result_with_null_file_id() {
    let line = r#"{"type":"result","ok":false,"modId":12345,"fileId":null}"#;
    match parse_event_line(line) {
        ParsedLine::Result(r) => {
            assert_eq!(r.mod_id, 12345);
            assert!(r.file_id.is_none());
        }
        _ => panic!("expected Result"),
    }
}

#[test]
fn parse_malformed_returns_malformed() {
    let line = "not json at all";
    assert!(matches!(parse_event_line(line), ParsedLine::Malformed(_)));
}

#[test]
fn parse_unknown_type_returns_unknown() {
    let line = r#"{"type":"foo","payload":"bar"}"#;
    assert!(matches!(parse_event_line(line), ParsedLine::Unknown));
}

#[test]
fn blank_line_is_unknown() {
    assert!(matches!(parse_event_line("   \n"), ParsedLine::Unknown));
}

#[test]
fn json_array_is_unknown() {
    assert!(matches!(parse_event_line("[1,2]"), ParsedLine::Unknown));
}

#[test]
fn surrounding_whitespace_is_ignored() {
    let line = "  {\"type\":\"progress\",\"phase\":\"preparing\",\"message\":\"hi\"}  ";
    match parse_event_line(line) {
        ParsedLine::Progress(NexusDownloadEvent::Preparing { message }) => assert_eq!(message, "hi"),
        _ => panic!("expected Preparing event"),
    }
}

#[test]
fn result_without_mod_id_is_unknown() {
    let line = r#"{"type":"result","ok":true,"fileId":1}"#;
    assert!(matches!(parse_event_line(line), ParsedLine::Unknown));
}

#[test]
fn unknown_phase_is_unknown() {
    let line = r#"{"type":"progress","phase":"weird","message":"m"}"#;
    assert!(matches!(parse_event_line(line), ParsedLine::Unknown));
}

#[test]
fn classify_fields_directly() {
    let f = LineFields {
        kind_tag: Some("progress".to_string()),
        phase: Some("installing".to_string()),
        message: None,
        file_name: None,
        kind: None,
        mod_id: None,
        file_id: None,
    };
    match classify_line(JsonLine::Object(f)) {
        ParsedLine::Progress(NexusDownloadEvent::Installing { file_name, message }) => {
            assert_eq!(file_name, "");
            assert_eq!(message, "");
        }
        _ => panic!("expected Installing event"),
    }
    assert!(matches!(classify_line(JsonLine::NotObject), ParsedLine::Unknown));
    assert!(matches!(
        classify_line(JsonLine::Malformed("e".to_string())),
        ParsedLine::Malformed(_)
    ));
}
