//! Raw calendar data and the per-event summary built from it: extracting the
//! start and end markers, parsing them, and assembling the display entity.

use vstd::prelude::*;

use crate::duration::fmt_duration;
use crate::duration::spec_fmt_duration;
use crate::text::push_char;
use crate::text::push_i64_decimal;
use crate::text::push_pad2_mag;
use crate::text::spec_decimal_int;
use crate::text::spec_pad2;
use crate::text::str_eq;
use crate::timestamp::hypentate_dttime;
use crate::timestamp::parse_instant;
use crate::timestamp::rfc3339_parse;
use crate::timestamp::spec_normalize;
use crate::timestamp::Instant;
use crate::timestamp::TimestampParseError;

verus! {

/// One named property of a raw event; its value may be absent.
pub struct RawProperty {
    pub name: String,
    pub value: Option<String>,
}

/// The mathematical content of one property.
pub struct PropModel {
    pub name: Seq<char>,
    pub value: Option<Seq<char>>,
}

impl View for RawProperty {
    type V = PropModel;

    open spec fn view(&self) -> PropModel {
        PropModel {
            name: self.name@,
            value: match self.value {
                Some(v) => Some(v@),
                None => None,
            },
        }
    }
}

/// One raw event: an ordered list of named properties, of which only the
/// start and end markers matter here.
pub struct RawEvent {
    pub properties: Vec<RawProperty>,
}

impl View for RawEvent {
    type V = Seq<PropModel>;

    open spec fn view(&self) -> Seq<PropModel> {
        self.properties@.map_values(|p: RawProperty| p@)
    }
}

/// One raw calendar: an ordered list of events from a single source.
pub struct RawCalendar {
    pub events: Vec<RawEvent>,
}

impl View for RawCalendar {
    type V = Seq<Seq<PropModel>>;

    open spec fn view(&self) -> Seq<Seq<PropModel>> {
        self.events@.map_values(|e: RawEvent| e@)
    }
}

/// The value of the first property carrying `name`. The first match decides:
/// a valueless first match reports "missing" even if a later namesake has a
/// value, and so does an absent name.
pub open spec fn spec_find_value(props: Seq<PropModel>, name: Seq<char>) -> Option<Seq<char>>
    decreases props.len(),
{
    if props.len() == 0 {
        None
    } else if props[0].name == name {
        props[0].value
    } else {
        spec_find_value(props.drop_first(), name)
    }
}

/// Pulls the value of the first property named `name` out of one raw event;
/// `None` reports the per-event recoverable "missing" condition.
pub fn extract_property(event: &RawEvent, name: &str) -> (r: Option<String>)
    ensures
        r matches Some(v) ==> spec_find_value(event@, name@) == Some(v@),
        r is None <==> spec_find_value(event@, name@) is None,
{
    let n = event.properties.len();
    let mut i: usize = 0;
    proof {
        assert(event@.skip(0) =~= event@);
    }
    while i < n
        invariant
            n == event.properties.len(),
            i <= n,
            spec_find_value(event@, name@) == spec_find_value(event@.skip(i as int), name@),
        decreases n - i,
    {
        let p = &event.properties[i];
        proof {
            assert(event@.skip(i as int)[0] == event@[i as int]);
            assert(event@.skip(i as int).drop_first() =~= event@.skip(i + 1));
        }
        if str_eq(p.name.as_str(), name) {
            return match &p.value {
                Some(v) => Some(v.clone()),
                None => None,
            };
        }
        i += 1;
    }
    proof {
        assert(event@.skip(n as int) =~= Seq::<PropModel>::empty());
    }
    None
}

/// The display entity of one usable event: its labels and the raw keys the
/// filter, sort and aggregation stages read.
#[derive(Debug)]
pub struct EventSummary {
    pub date: String,
    pub time: String,
    pub duration: String,
    pub date_start: u32,
    pub month_start: u32,
    pub year_start: i32,
    pub duration_sec: i64,
}

/// The mathematical content of one summary.
pub struct SummaryModel {
    pub date: Seq<char>,
    pub time: Seq<char>,
    pub duration: Seq<char>,
    pub date_start: u32,
    pub month_start: u32,
    pub year_start: i32,
    pub duration_sec: i64,
}

impl View for EventSummary {
    type V = SummaryModel;

    open spec fn view(&self) -> SummaryModel {
        SummaryModel {
            date: self.date@,
            time: self.time@,
            duration: self.duration@,
            date_start: self.date_start,
            month_start: self.month_start,
            year_start: self.year_start,
            duration_sec: self.duration_sec,
        }
    }
}

/// `DD-MM-YYYY` of one instant: zero-padded day and month, the year as-is.
pub open spec fn spec_date(i: Instant) -> Seq<char> {
    spec_pad2(i.day as int) + seq!['-'] + spec_pad2(i.month as int) + seq!['-'] + spec_decimal_int(
        i.year as int,
    )
}

/// The date label: a single date when start and end share the day-of-month
/// component, otherwise the `start - end` range form.
pub open spec fn spec_date_label(s: Instant, e: Instant) -> Seq<char> {
    if s.day == e.day {
        spec_date(s)
    } else {
        spec_date(s) + seq![' ', '-', ' '] + spec_date(e)
    }
}

/// `HH:MM - HH:MM` from the local hours and minutes; seconds are dropped.
pub open spec fn spec_time_label(s: Instant, e: Instant) -> Seq<char> {
    spec_pad2(s.hour as int) + seq![':'] + spec_pad2(s.minute as int) + seq![' ', '-', ' ']
        + spec_pad2(e.hour as int) + seq![':'] + spec_pad2(e.minute as int)
}

/// The whole summary of one event, from its two parsed instants. The
/// duration is signed: an end before the start yields a negative count.
pub open spec fn spec_summary(s: Instant, e: Instant) -> SummaryModel {
    SummaryModel {
        date: spec_date_label(s, e),
        time: spec_time_label(s, e),
        duration: spec_fmt_duration(e.epoch_seconds - s.epoch_seconds),
        date_start: s.day,
        month_start: s.month,
        year_start: s.year,
        duration_sec: (e.epoch_seconds - s.epoch_seconds) as i64,
    }
}

/// Appends the `DD-MM-YYYY` form of one instant.
fn push_date(out: &mut String, i: &Instant)
    requires
        i.wf(),
    ensures
        final(out)@ == old(out)@ + spec_date(*i),
{
    push_pad2_mag(out, i.day as u64, false);
    push_char(out, '-');
    push_pad2_mag(out, i.month as u64, false);
    push_char(out, '-');
    push_i64_decimal(out, i.year as i64);
    proof {
        assert(out@ =~= old(out)@ + spec_date(*i));
    }
}

/// Appends `HH:MM` of one instant.
fn push_hour_minute(out: &mut String, i: &Instant)
    requires
        i.wf(),
    ensures
        final(out)@ == old(out)@ + spec_pad2(i.hour as int) + seq![':'] + spec_pad2(
            i.minute as int,
        ),
{
    push_pad2_mag(out, i.hour as u64, false);
    push_char(out, ':');
    push_pad2_mag(out, i.minute as u64, false);
}

/// Combines two parsed instants into the display-ready summary.
pub fn build_event_summary(start: &Instant, end: &Instant) -> (r: EventSummary)
    requires
        start.wf(),
        end.wf(),
    ensures
        r@ == spec_summary(*start, *end),
{
    let duration_sec: i64 = end.epoch_seconds - start.epoch_seconds;

    let mut date = String::new();
    push_date(&mut date, start);
    if start.day != end.day {
        push_char(&mut date, ' ');
        push_char(&mut date, '-');
        push_char(&mut date, ' ');
        push_date(&mut date, end);
    }
    proof {
        assert(date@ =~= spec_date_label(*start, *end));
    }

    let mut time = String::new();
    push_hour_minute(&mut time, start);
    push_char(&mut time, ' ');
    push_char(&mut time, '-');
    push_char(&mut time, ' ');
    push_hour_minute(&mut time, end);
    proof {
        assert(time@ =~= spec_time_label(*start, *end));
    }

    EventSummary {
        date,
        time,
        duration: fmt_duration(duration_sec),
        date_start: start.day,
        month_start: start.month,
        year_start: start.year,
        duration_sec,
    }
}

/// Why one raw event was dropped from the report: the per-event recoverable
/// conditions.
#[derive(Clone, Copy, PartialEq, Eq, Structural, Debug)]
pub enum SkipReason {
    MissingStart,
    MissingEnd,
}

/// What one raw event contributes to the report.
pub enum EventOutcome {
    Kept(SummaryModel),
    Skipped(SkipReason),
    Fatal,
}

/// The name of the start marker property.
pub open spec fn dtstart_name() -> Seq<char> {
    "DTSTART"@
}

/// The name of the end marker property.
pub open spec fn dtend_name() -> Seq<char> {
    "DTEND"@
}

/// The per-event decision: a missing marker skips the event, a present
/// marker that does not parse after normalization is fatal, and otherwise
/// the built summary is kept.
pub open spec fn spec_event_outcome(ev: Seq<PropModel>) -> EventOutcome {
    match spec_find_value(ev, dtstart_name()) {
        None => EventOutcome::Skipped(SkipReason::MissingStart),
        Some(sv) => match spec_find_value(ev, dtend_name()) {
            None => EventOutcome::Skipped(SkipReason::MissingEnd),
            Some(evl) => match rfc3339_parse(spec_normalize(sv)) {
                None => EventOutcome::Fatal,
                Some(si) => match rfc3339_parse(spec_normalize(evl)) {
                    None => EventOutcome::Fatal,
                    Some(ei) => EventOutcome::Kept(spec_summary(si, ei)),
                },
            },
        },
    }
}

/// One event, summarized or skipped.
pub enum Summarized {
    Kept(EventSummary),
    Skipped(SkipReason),
}

/// Runs one raw event through extraction, normalization, parsing and the
/// builder. A missing marker is recoverable; an unparseable present marker
/// is the fatal error.
pub fn summarize_event(event: &RawEvent) -> (r: Result<Summarized, TimestampParseError>)
    ensures
        r matches Ok(s) ==> match s {
            Summarized::Kept(summary) => spec_event_outcome(event@) == EventOutcome::Kept(
                summary@,
            ),
            Summarized::Skipped(reason) => spec_event_outcome(event@) == EventOutcome::Skipped(
                reason,
            ),
        },
        r is Err <==> spec_event_outcome(event@) is Fatal,
        r matches Err(e) ==> (match (
            spec_find_value(event@, dtstart_name()),
            spec_find_value(event@, dtend_name()),
        ) {
            (Some(sv), Some(evl)) => if rfc3339_parse(spec_normalize(sv)) is None {
                e.token@ == spec_normalize(sv)
            } else {
                e.token@ == spec_normalize(evl)
            },
            _ => false,
        }),
{
    let dtstart = match extract_property(event, "DTSTART") {
        Some(v) => v,
        None => {
            return Ok(Summarized::Skipped(SkipReason::MissingStart));
        },
    };
    let dtend = match extract_property(event, "DTEND") {
        Some(v) => v,
        None => {
            return Ok(Summarized::Skipped(SkipReason::MissingEnd));
        },
    };
    let start_token = hypentate_dttime(dtstart.as_str());
    let start = match parse_instant(start_token.as_str()) {
        Ok(i) => i,
        Err(e) => {
            return Err(e);
        },
    };
    let end_token = hypentate_dttime(dtend.as_str());
    let end = match parse_instant(end_token.as_str()) {
        Ok(i) => i,
        Err(e) => {
            return Err(e);
        },
    };
    Ok(Summarized::Kept(build_event_summary(&start, &end)))
}

} // verus!
