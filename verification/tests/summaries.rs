//! Parsing instants, extracting markers, and building one event summary.

use hour_calc::summary::build_event_summary;
use hour_calc::summary::extract_property;
use hour_calc::summary::RawEvent;
use hour_calc::summary::RawProperty;
use hour_calc::timestamp::parse_instant;

fn prop(name: &str, value: Option<&str>) -> RawProperty {
    RawProperty {
        name: name.to_string(),
        value: value.map(|v| v.to_string()),
    }
}

#[test]
fn parse_instant_reads_components() {
    let inst = parse_instant("2022-09-21T15:15:30Z").unwrap();
    assert_eq!(inst.year, 2022);
    assert_eq!(inst.month, 9);
    assert_eq!(inst.day, 21);
    assert_eq!(inst.hour, 15);
    assert_eq!(inst.minute, 15);
    assert_eq!(inst.epoch_seconds, 1663773330);
}

#[test]
fn parse_instant_keeps_local_components_of_offset() {
    let inst = parse_instant("2022-09-21T23:30:00+02:00").unwrap();
    assert_eq!(inst.hour, 23);
    assert_eq!(inst.minute, 30);
    // The epoch offset is absolute: 21:30 UTC.
    assert_eq!(inst.epoch_seconds, 1663795800);
}

#[test]
fn parse_instant_refuses_garbage() {
    let err = parse_instant("garb-ag-e").unwrap_err();
    assert_eq!(err.token, "garb-ag-e");
    assert_eq!(err.message(), "could not parse timestamp: garb-ag-e");
}

#[test]
fn extract_present_property() {
    let event = RawEvent {
        properties: vec![
            prop("SUMMARY", Some("standup")),
            prop("DTSTART", Some("20220921T090000Z")),
        ],
    };
    assert_eq!(extract_property(&event, "DTSTART").as_deref(), Some("20220921T090000Z"));
}

#[test]
fn extract_absent_property() {
    let event = RawEvent {
        properties: vec![prop("DTSTART", Some("20220921T090000Z"))],
    };
    assert!(extract_property(&event, "DTEND").is_none());
}

#[test]
fn extract_valueless_property_is_missing() {
    let event = RawEvent {
        properties: vec![prop("DTEND", None)],
    };
    assert!(extract_property(&event, "DTEND").is_none());
}

#[test]
fn extract_first_match_decides() {
    // A valueless first namesake hides a later one that has a value.
    let event = RawEvent {
        properties: vec![
            prop("DTSTART", None),
            prop("DTSTART", Some("20220921T090000Z")),
        ],
    };
    assert!(extract_property(&event, "DTSTART").is_none());
}

#[test]
fn single_day_summary() {
    let start = parse_instant("2022-09-21T09:00:00+00:00").unwrap();
    let end = parse_instant("2022-09-21T17:30:00+00:00").unwrap();
    let s = build_event_summary(&start, &end);
    assert_eq!(s.date, "21-09-2022");
    assert_eq!(s.time, "09:00 - 17:30");
    assert_eq!(s.duration, "08:30:00");
    assert_eq!(s.duration_sec, 30600);
    assert_eq!(s.date_start, 21);
    assert_eq!(s.month_start, 9);
    assert_eq!(s.year_start, 2022);
}

#[test]
fn multi_day_summary() {
    let start = parse_instant("2022-09-21T23:00:00+00:00").unwrap();
    let end = parse_instant("2022-09-22T01:00:00+00:00").unwrap();
    let s = build_event_summary(&start, &end);
    assert_eq!(s.date, "21-09-2022 - 22-09-2022");
    assert_eq!(s.duration_sec, 7200);
}

#[test]
fn negative_duration_summary() {
    // End strictly before start: a signed count and the truncating
    // rendering, pinned to its exact reference value.
    let start = parse_instant("2022-09-21T17:30:00+00:00").unwrap();
    let end = parse_instant("2022-09-21T09:00:00+00:00").unwrap();
    let s = build_event_summary(&start, &end);
    assert_eq!(s.duration_sec, -30600);
    assert_eq!(s.duration, "-8:-30:00");
}
