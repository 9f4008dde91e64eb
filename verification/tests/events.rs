use nexus_mod_manager::events::{
    child_step, event_from_fields, exit_code, kind_name, phase_of, progress_record, CliReporter,
    ErrorKind, NexusDownloadEvent, ReportLine,
};

#[test]
fn saved_events_report_success() {
    let e = NexusDownloadEvent::Saved { file_name: "a.txt".to_string(), message: "kept".to_string() };
    assert_eq!(phase_of(&e), "success");
    let r = progress_record(&e);
    assert_eq!(r.phase, "success");
    assert_eq!(r.file_name.as_deref(), Some("a.txt"));
    assert!(r.kind.is_none());
}

#[test]
fn error_records_carry_their_kind() {
    let e = NexusDownloadEvent::Error { file_name: None, message: "boom".to_string(), kind: ErrorKind::Install };
    let r = progress_record(&e);
    assert_eq!(r.phase, "error");
    assert_eq!(r.kind.as_deref(), Some("install"));
    assert_eq!(kind_name(ErrorKind::Download), "download");
    let back = event_from_fields(Some(r.phase), Some(r.message), r.file_name, r.kind).unwrap();
    assert!(matches!(back, NexusDownloadEvent::Error { kind: ErrorKind::Install, .. }));
}

#[test]
fn records_round_trip() {
    let e = NexusDownloadEvent::Downloading { file_name: "f.zip".to_string(), message: "m".to_string() };
    let r = progress_record(&e);
    match event_from_fields(Some(r.phase), Some(r.message), r.file_name, r.kind).unwrap() {
        NexusDownloadEvent::Downloading { file_name, message } => {
            assert_eq!(file_name, "f.zip");
            assert_eq!(message, "m");
        }
        _ => panic!("expected Downloading"),
    }
}

#[test]
fn reporters_write_json_or_text() {
    let e = NexusDownloadEvent::Preparing { message: "wait".to_string() };
    match (CliReporter { json_mode: false }).line_for(&e) {
        ReportLine::Human(t) => assert_eq!(t, "[preparing] wait"),
        _ => panic!("expected text"),
    }
    match (CliReporter { json_mode: true }).line_for(&e) {
        ReportLine::Json(r) => assert_eq!(r.phase, "preparing"),
        _ => panic!("expected json"),
    }
}

#[test]
fn child_writes_one_result() {
    let ok = NexusDownloadEvent::Success { file_name: "f".to_string(), message: "m".to_string() };
    let s1 = child_step(&ok, false);
    assert_eq!(s1.result, Some(true));
    assert!(s1.done);
    let s2 = child_step(&ok, true);
    assert_eq!(s2.result, None);
    let p = NexusDownloadEvent::Preparing { message: "x".to_string() };
    let s3 = child_step(&p, false);
    assert_eq!(s3.result, None);
    assert!(!s3.done);
    assert_eq!(exit_code(true), 0);
    assert_eq!(exit_code(false), 1);
}
