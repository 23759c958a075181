//! The whole report pipeline: flattening, skipping, filtering, sorting and
//! aggregating.

use hour_calc::report::build_report;
use hour_calc::report::calc_total_duration;
use hour_calc::report::checked_total_duration;
use hour_calc::report::filter_events;
use hour_calc::report::flatten_calendars;
use hour_calc::report::sort_by_day;
use hour_calc::duration::fmt_duration;
use hour_calc::summary::EventSummary;
use hour_calc::summary::RawCalendar;
use hour_calc::summary::RawEvent;
use hour_calc::summary::RawProperty;
use hour_calc::summary::SkipReason;

fn prop(name: &str, value: &str) -> RawProperty {
    RawProperty {
        name: name.to_string(),
        value: Some(value.to_string()),
    }
}

fn event(start: &str, end: &str) -> RawEvent {
    RawEvent {
        properties: vec![prop("DTSTART", start), prop("DTEND", end)],
    }
}

fn summary_with(day: u32, month: u32, year: i32, secs: i64) -> EventSummary {
    EventSummary {
        date: String::new(),
        time: String::new(),
        duration: String::new(),
        date_start: day,
        month_start: month,
        year_start: year,
        duration_sec: secs,
    }
}

#[test]
fn flatten_builds_summaries_in_order() {
    let cals = vec![
        RawCalendar {
            events: vec![event("20220921T090000Z", "20220921T173000Z")],
        },
        RawCalendar {
            events: vec![event("20220105T090000Z", "20220105T100000Z")],
        },
    ];
    let (summaries, skips) = flatten_calendars(&cals).unwrap();
    assert_eq!(summaries.len(), 2);
    assert!(skips.is_empty());
    assert_eq!(summaries[0].date, "21-09-2022");
    assert_eq!(summaries[1].date, "05-01-2022");
}

#[test]
fn missing_end_marker_skips_event_only() {
    let before = event("20220901T090000Z", "20220901T100000Z");
    let broken = RawEvent {
        properties: vec![prop("DTSTART", "20220902T090000Z")],
    };
    let after = event("20220903T090000Z", "20220903T110000Z");
    let cals = vec![RawCalendar {
        events: vec![before, broken, after],
    }];
    let (summaries, skips) = flatten_calendars(&cals).unwrap();
    assert_eq!(summaries.len(), 2);
    assert_eq!(skips, vec![SkipReason::MissingEnd]);
    // The aggregate of the surrounding events is unaffected.
    assert_eq!(calc_total_duration(&summaries), 3600 + 7200);
}

#[test]
fn missing_start_marker_skips_event() {
    let broken = RawEvent {
        properties: vec![prop("DTEND", "20220902T090000Z")],
    };
    let cals = vec![RawCalendar {
        events: vec![broken],
    }];
    let (summaries, skips) = flatten_calendars(&cals).unwrap();
    assert!(summaries.is_empty());
    assert_eq!(skips, vec![SkipReason::MissingStart]);
}

#[test]
fn unparseable_present_marker_is_fatal() {
    let good = event("20220901T090000Z", "20220901T100000Z");
    let bad = event("garbage", "20220901T100000Z");
    let cals = vec![RawCalendar {
        events: vec![good, bad],
    }];
    assert!(flatten_calendars(&cals).is_err());
    assert!(build_report(&cals, None, None).is_err());
}

#[test]
fn empty_input_is_not_an_error() {
    let cals: Vec<RawCalendar> = Vec::new();
    let (summaries, skips) = build_report(&cals, Some(1), Some(2021)).unwrap();
    assert!(summaries.is_empty());
    assert!(skips.is_empty());
    assert_eq!(calc_total_duration(&summaries), 0);
    assert_eq!(fmt_duration(calc_total_duration(&summaries)), "00:00:00");
}

#[test]
fn filters_compose_by_and() {
    // Months {1, 1, 2, 3}, years {2021, 2022, 2022, 2022}: month 1 AND
    // year 2021 retains exactly the first.
    let events = vec![
        summary_with(1, 1, 2021, 10),
        summary_with(2, 1, 2022, 20),
        summary_with(3, 2, 2022, 30),
        summary_with(4, 3, 2022, 40),
    ];
    let kept = filter_events(events, Some(1), Some(2021));
    assert_eq!(kept.len(), 1);
    assert_eq!(kept[0].duration_sec, 10);
}

#[test]
fn absent_filters_retain_everything() {
    let events = vec![
        summary_with(1, 1, 2021, 10),
        summary_with(2, 2, 2022, 20),
    ];
    let kept = filter_events(events, None, None);
    assert_eq!(kept.len(), 2);
}

#[test]
fn sort_is_stable_and_day_only() {
    // Two events share day 5: March first, January second. They keep their
    // input order — the key is the day of month, not the full date.
    let events = vec![
        summary_with(5, 3, 2022, 1),
        summary_with(12, 1, 2022, 2),
        summary_with(5, 1, 2022, 3),
    ];
    let sorted = sort_by_day(events);
    assert_eq!(sorted.len(), 3);
    assert_eq!(sorted[0].month_start, 3);
    assert_eq!(sorted[0].duration_sec, 1);
    assert_eq!(sorted[1].month_start, 1);
    assert_eq!(sorted[1].duration_sec, 3);
    assert_eq!(sorted[2].date_start, 12);
}

#[test]
fn report_sorts_by_start_day() {
    let cals = vec![RawCalendar {
        events: vec![
            event("20220921T090000Z", "20220921T100000Z"),
            event("20220905T090000Z", "20220905T113000Z"),
        ],
    }];
    let (summaries, _) = build_report(&cals, Some(9), Some(2022)).unwrap();
    assert_eq!(summaries.len(), 2);
    assert_eq!(summaries[0].date_start, 5);
    assert_eq!(summaries[1].date_start, 21);
    assert_eq!(calc_total_duration(&summaries), 9000 + 3600);
}

#[test]
fn checked_total_matches_plain_total() {
    let events = vec![summary_with(1, 1, 2022, 100), summary_with(2, 1, 2022, -40)];
    assert_eq!(checked_total_duration(&events), Some(60));
    assert_eq!(calc_total_duration(&events), 60);
}

#[test]
fn checked_total_reports_overflow() {
    let events = vec![
        summary_with(1, 1, 2022, i64::MAX),
        summary_with(2, 1, 2022, i64::MAX),
    ];
    assert_eq!(checked_total_duration(&events), None);
}
