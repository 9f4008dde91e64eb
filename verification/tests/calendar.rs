use nexus_mod_manager::calendar::{days_to_ymd, format_timestamp, is_leap, now_iso8601, secs_to_iso, timestamp_string};

#[test]
fn leap_years() {
    assert!(is_leap(2000));
    assert!(is_leap(2024));
    assert!(!is_leap(1900));
    assert!(!is_leap(2023));
}

#[test]
fn epoch_day_zero() {
    assert_eq!(days_to_ymd(0), (1970, 1, 1));
}

#[test]
fn leap_day_dates() {
    assert_eq!(days_to_ymd(11016), (2000, 2, 29));
    assert_eq!(days_to_ymd(19723), (2024, 1, 1));
    assert_eq!(days_to_ymd(19782), (2024, 2, 29));
    assert_eq!(days_to_ymd(19783), (2024, 3, 1));
}

#[test]
fn negative_days_stay_in_1970() {
    assert_eq!(days_to_ymd(-1), (1970, 1, 0));
}

#[test]
fn iso_text_of_seconds() {
    assert_eq!(secs_to_iso(0), "1970-01-01T00:00:00");
    assert_eq!(secs_to_iso(86399), "1970-01-01T23:59:59");
    assert_eq!(secs_to_iso(1709210096), "2024-02-29T12:34:56");
    assert_eq!(secs_to_iso(951782400), "2000-02-29T00:00:00");
    assert_eq!(secs_to_iso(4102444799), "2099-12-31T23:59:59");
}

#[test]
fn approximate_timestamp_text() {
    assert_eq!(format_timestamp(0), "1970-01-01T00-00-00");
    assert_eq!(format_timestamp(31557600), "1971-01-01T06-00-00");
    assert_eq!(format_timestamp(1709210096), "2024-02-29T12-34-56");
}

#[test]
fn clock_texts_have_their_shapes() {
    let iso = now_iso8601();
    assert!(iso.ends_with('Z'));
    assert_eq!(iso.len(), 20);
    let stamp = timestamp_string();
    assert_eq!(stamp.matches('-').count(), 4);
    assert!(stamp.contains('T'));
}
