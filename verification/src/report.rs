//! The report pipeline: flattening calendars into one summary sequence,
//! filtering by period, the stable day-of-month sort, and duration totals.

use vstd::prelude::*;
use vstd::slice::slice_index_get;

use crate::duration::spec_fmt_duration;
use crate::summary::spec_event_outcome;
use crate::summary::summarize_event;
use crate::summary::EventOutcome;
use crate::summary::EventSummary;
use crate::summary::PropModel;
use crate::summary::RawCalendar;
use crate::summary::SkipReason;
use crate::summary::Summarized;
use crate::summary::SummaryModel;
use crate::timestamp::TimestampParseError;

verus! {

/// The mathematical content of a calendar sequence.
pub open spec fn spec_calendar_views(cals: Seq<RawCalendar>) -> Seq<Seq<Seq<PropModel>>> {
    cals.map_values(|c: RawCalendar| c@)
}

/// The mathematical content of a summary sequence.
pub open spec fn views_of(s: Seq<EventSummary>) -> Seq<SummaryModel> {
    s.map_values(|e: EventSummary| e@)
}

/// The event lists of all calendars, joined in calendar order.
pub open spec fn spec_all_events(cals: Seq<Seq<Seq<PropModel>>>) -> Seq<Seq<PropModel>>
    decreases cals.len(),
{
    if cals.len() == 0 {
        Seq::empty()
    } else {
        cals[0] + spec_all_events(cals.drop_first())
    }
}

/// The summaries of the kept events, in event order.
pub open spec fn spec_kept(evs: Seq<Seq<PropModel>>) -> Seq<SummaryModel>
    decreases evs.len(),
{
    if evs.len() == 0 {
        Seq::empty()
    } else {
        (match spec_event_outcome(evs[0]) {
            EventOutcome::Kept(s) => seq![s],
            _ => Seq::empty(),
        }) + spec_kept(evs.drop_first())
    }
}

/// The reasons of the skipped events, in event order.
pub open spec fn spec_skips(evs: Seq<Seq<PropModel>>) -> Seq<SkipReason>
    decreases evs.len(),
{
    if evs.len() == 0 {
        Seq::empty()
    } else {
        (match spec_event_outcome(evs[0]) {
            EventOutcome::Skipped(k) => seq![k],
            _ => Seq::empty(),
        }) + spec_skips(evs.drop_first())
    }
}

/// Whether any event of any calendar has the fatal outcome.
pub open spec fn spec_any_fatal_cals(cals: Seq<Seq<Seq<PropModel>>>) -> bool {
    exists|ci: int, ei: int|
        0 <= ci < cals.len() && 0 <= ei < cals[ci].len() && spec_event_outcome(
            cals[ci][ei],
        ) is Fatal
}

proof fn lemma_all_events_push(cals: Seq<Seq<Seq<PropModel>>>, c: Seq<Seq<PropModel>>)
    ensures
        spec_all_events(cals.push(c)) == spec_all_events(cals) + c,
    decreases cals.len(),
{
    if cals.len() == 0 {
        assert(cals.push(c).drop_first() =~= Seq::<Seq<Seq<PropModel>>>::empty());
        assert(cals.push(c)[0] == c);
        assert(spec_all_events(Seq::<Seq<Seq<PropModel>>>::empty()) == Seq::<Seq<PropModel>>::empty());
        assert(spec_all_events(cals.push(c)) =~= spec_all_events(cals) + c);
    } else {
        assert(cals.push(c).drop_first() =~= cals.drop_first().push(c));
        lemma_all_events_push(cals.drop_first(), c);
        assert(cals.push(c)[0] == cals[0]);
        assert(spec_all_events(cals.push(c)) =~= spec_all_events(cals) + c);
    }
}

proof fn lemma_outcomes_concat(a: Seq<Seq<PropModel>>, b: Seq<Seq<PropModel>>)
    ensures
        spec_kept(a + b) == spec_kept(a) + spec_kept(b),
        spec_skips(a + b) == spec_skips(a) + spec_skips(b),
    decreases a.len(),
{
    if a.len() == 0 {
        assert(a + b =~= b);
        assert(spec_kept(a + b) =~= spec_kept(a) + spec_kept(b));
        assert(spec_skips(a + b) =~= spec_skips(a) + spec_skips(b));
    } else {
        assert((a + b).drop_first() =~= a.drop_first() + b);
        assert((a + b)[0] == a[0]);
        lemma_outcomes_concat(a.drop_first(), b);
        assert(spec_kept(a + b) =~= spec_kept(a) + spec_kept(b));
        assert(spec_skips(a + b) =~= spec_skips(a) + spec_skips(b));
    }
}

proof fn lemma_outcomes_push(evs: Seq<Seq<PropModel>>, ev: Seq<PropModel>)
    ensures
        spec_kept(evs.push(ev)) == spec_kept(evs) + (match spec_event_outcome(ev) {
            EventOutcome::Kept(s) => seq![s],
            _ => Seq::empty(),
        }),
        spec_skips(evs.push(ev)) == spec_skips(evs) + (match spec_event_outcome(ev) {
            EventOutcome::Skipped(k) => seq![k],
            _ => Seq::empty(),
        }),
{
    assert(evs.push(ev) =~= evs + seq![ev]);
    lemma_outcomes_concat(evs, seq![ev]);
    assert(seq![ev].drop_first() =~= Seq::<Seq<PropModel>>::empty());
    assert(seq![ev][0] == ev);
    assert(spec_kept(Seq::<Seq<PropModel>>::empty()) == Seq::<SummaryModel>::empty());
    assert(spec_skips(Seq::<Seq<PropModel>>::empty()) == Seq::<SkipReason>::empty());
    assert(spec_kept(seq![ev]) =~= (match spec_event_outcome(ev) {
        EventOutcome::Kept(s) => seq![s],
        _ => Seq::empty(),
    }));
    assert(spec_skips(seq![ev]) =~= (match spec_event_outcome(ev) {
        EventOutcome::Skipped(k) => seq![k],
        _ => Seq::empty(),
    }));
}

/// Builds one summary per usable event across all calendars, preserving the
/// order of calendars and of events within each; an event with a missing
/// marker is dropped and its reason recorded; the first present marker that
/// does not parse aborts the whole report with no partial output.
#[verifier::loop_isolation(false)]
pub fn flatten_calendars(cals: &Vec<RawCalendar>) -> (r: Result<
    (Vec<EventSummary>, Vec<SkipReason>),
    TimestampParseError,
>)
    ensures
        r is Ok <==> !spec_any_fatal_cals(spec_calendar_views(cals@)),
        r matches Ok(out) ==> views_of(out.0@) == spec_kept(
            spec_all_events(spec_calendar_views(cals@)),
        ) && out.1@ == spec_skips(spec_all_events(spec_calendar_views(cals@))),
{
    let ghost cv = spec_calendar_views(cals@);
    let mut summaries: Vec<EventSummary> = Vec::new();
    let mut skips: Vec<SkipReason> = Vec::new();
    let ncals = cals.len();
    let mut i: usize = 0;
    proof {
        assert(cv.take(0) =~= Seq::<Seq<Seq<PropModel>>>::empty());
        assert(views_of(summaries@) =~= spec_kept(spec_all_events(cv.take(0))));
        assert(skips@ =~= spec_skips(spec_all_events(cv.take(0))));
    }
    while i < ncals
        invariant
            i <= ncals,
            views_of(summaries@) == spec_kept(spec_all_events(cv.take(i as int))),
            skips@ == spec_skips(spec_all_events(cv.take(i as int))),
            forall|ci: int, ei: int|
                0 <= ci < i && 0 <= ei < cv[ci].len() ==> !(spec_event_outcome(
                    #[trigger] cv[ci][ei],
                ) is Fatal),
        decreases ncals - i,
    {
        let cal = &cals[i];
        let ghost done = spec_all_events(cv.take(i as int));
        let nev = cal.events.len();
        let mut j: usize = 0;
        proof {
            assert(cal@.take(0) =~= Seq::<Seq<PropModel>>::empty());
            assert(done + cal@.take(0) =~= done);
        }
        while j < nev
            invariant
                j <= nev,
                views_of(summaries@) == spec_kept(done + cal@.take(j as int)),
                skips@ == spec_skips(done + cal@.take(j as int)),
                forall|ei: int|
                    0 <= ei < j ==> !(spec_event_outcome(#[trigger] cal@[ei]) is Fatal),
            decreases nev - j,
        {
            let ev = &cal.events[j];
            proof {
                assert(cal@[j as int] == ev@);
                assert(cal@.take(j + 1) =~= cal@.take(j as int).push(ev@));
                assert(done + cal@.take(j + 1) =~= (done + cal@.take(j as int)).push(ev@));
                lemma_outcomes_push(done + cal@.take(j as int), ev@);
            }
            match summarize_event(ev) {
                Ok(Summarized::Kept(s)) => {
                    summaries.push(s);
                    proof {
                        assert(views_of(summaries@) =~= spec_kept(done + cal@.take(j + 1)));
                        assert(skips@ =~= spec_skips(done + cal@.take(j + 1)));
                    }
                },
                Ok(Summarized::Skipped(k)) => {
                    skips.push(k);
                    proof {
                        assert(views_of(summaries@) =~= spec_kept(done + cal@.take(j + 1)));
                        assert(skips@ =~= spec_skips(done + cal@.take(j + 1)));
                    }
                },
                Err(e) => {
                    proof {
                        assert(cv[i as int][j as int] == ev@);
                        assert(spec_any_fatal_cals(cv));
                    }
                    return Err(e);
                },
            }
            j += 1;
        }
        proof {
            assert(cal@.take(nev as int) =~= cal@);
            assert(cv.take(i + 1) =~= cv.take(i as int).push(cv[i as int]));
            lemma_all_events_push(cv.take(i as int), cv[i as int]);
            assert(done + cal@ =~= spec_all_events(cv.take(i + 1)));
        }
        i += 1;
    }
    proof {
        assert(cv.take(ncals as int) =~= cv);
        assert(!spec_any_fatal_cals(cv));
    }
    Ok((summaries, skips))
}

/// Whether one summary passes the optional month and year filters.
pub open spec fn spec_keep(v: SummaryModel, month: Option<u32>, year: Option<i32>) -> bool {
    (match month {
        Some(m) => v.month_start == m,
        None => true,
    }) && (match year {
        Some(y) => v.year_start == y,
        None => true,
    })
}

/// The summaries that pass both filters, in their original order.
pub open spec fn spec_retained(
    s: Seq<SummaryModel>,
    month: Option<u32>,
    year: Option<i32>,
) -> Seq<SummaryModel>
    decreases s.len(),
{
    if s.len() == 0 {
        Seq::empty()
    } else if spec_keep(s[0], month, year) {
        seq![s[0]] + spec_retained(s.drop_first(), month, year)
    } else {
        spec_retained(s.drop_first(), month, year)
    }
}

/// Applies the optional month and year filters; an absent filter retains
/// everything, and the two compose by logical AND.
#[verifier::loop_isolation(false)]
pub fn filter_events(events: Vec<EventSummary>, month: Option<u32>, year: Option<i32>) -> (r:
    Vec<EventSummary>)
    ensures
        views_of(r@) == spec_retained(views_of(events@), month, year),
{
    let ghost orig = views_of(events@);
    let mut events = events;
    let mut out: Vec<EventSummary> = Vec::new();
    proof {
        assert(views_of(out@) + spec_retained(views_of(events@), month, year) =~= spec_retained(
            orig,
            month,
            year,
        ));
    }
    while events.len() > 0
        invariant
            views_of(out@) + spec_retained(views_of(events@), month, year) == spec_retained(
                orig,
                month,
                year,
            ),
        decreases events.len(),
    {
        let ghost pre = views_of(events@);
        let e = events.remove(0);
        proof {
            assert(pre[0] == e@);
            assert(views_of(events@) =~= pre.drop_first());
        }
        let keep_month = match month {
            Some(m) => e.month_start == m,
            None => true,
        };
        let keep_year = match year {
            Some(y) => e.year_start == y,
            None => true,
        };
        if keep_month && keep_year {
            out.push(e);
        }
        proof {
            assert(views_of(out@) + spec_retained(views_of(events@), month, year)
                =~= spec_retained(orig, month, year));
        }
    }
    proof {
        assert(views_of(events@).len() == 0);
        assert(views_of(out@) =~= spec_retained(orig, month, year));
    }
    out
}

/// The summaries carrying the given day-of-month key, in order.
pub open spec fn spec_with_day(s: Seq<SummaryModel>, d: u32) -> Seq<SummaryModel>
    decreases s.len(),
{
    if s.len() == 0 {
        Seq::empty()
    } else if s[0].date_start == d {
        seq![s[0]] + spec_with_day(s.drop_first(), d)
    } else {
        spec_with_day(s.drop_first(), d)
    }
}

/// Ascending day-of-month order throughout.
pub open spec fn spec_sorted_by_day(s: Seq<SummaryModel>) -> bool {
    forall|i: int, j: int| 0 <= i < j < s.len() ==> s[i].date_start <= s[j].date_start
}

proof fn lemma_with_day_concat(a: Seq<SummaryModel>, b: Seq<SummaryModel>, d: u32)
    ensures
        spec_with_day(a + b, d) == spec_with_day(a, d) + spec_with_day(b, d),
    decreases a.len(),
{
    if a.len() == 0 {
        assert(a + b =~= b);
        assert(spec_with_day(a, d) == Seq::<SummaryModel>::empty());
        assert(spec_with_day(a + b, d) =~= spec_with_day(a, d) + spec_with_day(b, d));
    } else {
        assert((a + b).drop_first() =~= a.drop_first() + b);
        assert((a + b)[0] == a[0]);
        lemma_with_day_concat(a.drop_first(), b, d);
        assert(spec_with_day(a + b, d) =~= spec_with_day(a, d) + spec_with_day(b, d));
    }
}

proof fn lemma_with_day_absent(s: Seq<SummaryModel>, d: u32)
    requires
        forall|k: int| 0 <= k < s.len() ==> s[k].date_start != d,
    ensures
        spec_with_day(s, d) == Seq::<SummaryModel>::empty(),
    decreases s.len(),
{
    if s.len() > 0 {
        assert(forall|k: int|
            0 <= k < s.drop_first().len() ==> s.drop_first()[k].date_start != d);
        lemma_with_day_absent(s.drop_first(), d);
    }
}

proof fn lemma_sorted_insert(ov: Seq<SummaryModel>, pos: int, v: SummaryModel)
    requires
        0 <= pos <= ov.len(),
        spec_sorted_by_day(ov),
        forall|k: int| pos <= k < ov.len() ==> ov[k].date_start > v.date_start,
        pos > 0 ==> ov[pos - 1].date_start <= v.date_start,
    ensures
        spec_sorted_by_day(ov.insert(pos, v)),
        forall|d: u32|
            spec_with_day(ov.insert(pos, v), d) == (if d == v.date_start {
                spec_with_day(ov, d).push(v)
            } else {
                spec_with_day(ov, d)
            }),
{
    let nv = ov.insert(pos, v);
    ov.insert_ensures(pos, v);
    assert forall|i: int, j: int|
        0 <= i < j < nv.len() implies nv[i].date_start <= nv[j].date_start by {
        if j < pos {
            assert(nv[i] == ov[i] && nv[j] == ov[j]);
        } else if j == pos {
            assert(nv[j] == v);
            assert(nv[i] == ov[i]);
            assert(ov[i].date_start <= ov[pos - 1].date_start);
        } else if i == pos {
            assert(nv[i] == v);
            assert(nv[j] == ov[j - 1]);
        } else if i < pos {
            assert(nv[i] == ov[i]);
            assert(nv[j] == ov[j - 1]);
            assert(ov[i].date_start <= ov[pos - 1].date_start);
            assert(ov[pos - 1].date_start <= v.date_start);
        } else {
            assert(nv[i] == ov[i - 1] && nv[j] == ov[j - 1]);
        }
    }
    let a = ov.subrange(0, pos);
    let b = ov.subrange(pos, ov.len() as int);
    assert(ov =~= a + b);
    assert(nv =~= a + seq![v] + b);
    assert forall|d: u32|
        spec_with_day(nv, d) == (if d == v.date_start {
            spec_with_day(ov, d).push(v)
        } else {
            spec_with_day(ov, d)
        }) by {
        lemma_with_day_concat(a, seq![v], d);
        lemma_with_day_concat(a + seq![v], b, d);
        lemma_with_day_concat(a, b, d);
        assert(seq![v].drop_first() =~= Seq::<SummaryModel>::empty());
        assert(seq![v][0] == v);
        assert(spec_with_day(Seq::<SummaryModel>::empty(), d) == Seq::<SummaryModel>::empty());
        if d == v.date_start {
            assert(forall|k: int| 0 <= k < b.len() ==> b[k].date_start != d);
            lemma_with_day_absent(b, d);
            assert(spec_with_day(seq![v], d) =~= seq![v]);
            assert(spec_with_day(nv, d) =~= spec_with_day(ov, d).push(v));
        } else {
            assert(spec_with_day(seq![v], d) =~= Seq::<SummaryModel>::empty());
            assert(spec_with_day(nv, d) =~= spec_with_day(ov, d));
        }
    }
}

/// Orders the summaries by `date_start` ascending with a stable insertion
/// sort: summaries with an equal day-of-month key keep their relative input
/// order, and nothing else — month or year — takes part in the comparison.
#[verifier::loop_isolation(false)]
pub fn sort_by_day(events: Vec<EventSummary>) -> (r: Vec<EventSummary>)
    ensures
        spec_sorted_by_day(views_of(r@)),
        r@.len() == events@.len(),
        forall|d: u32| spec_with_day(views_of(r@), d) == spec_with_day(views_of(events@), d),
{
    let ghost orig = views_of(events@);
    let mut events = events;
    let mut out: Vec<EventSummary> = Vec::new();
    proof {
        assert forall|d: u32|
            spec_with_day(orig, d) == spec_with_day(views_of(out@), d) + spec_with_day(
                views_of(events@),
                d,
            ) by {
            assert(views_of(out@).len() == 0);
            assert(spec_with_day(views_of(out@), d) == Seq::<SummaryModel>::empty());
            assert(spec_with_day(views_of(out@), d) + spec_with_day(views_of(events@), d)
                =~= spec_with_day(orig, d));
        }
    }
    while events.len() > 0
        invariant
            spec_sorted_by_day(views_of(out@)),
            out@.len() + events@.len() == orig.len(),
            forall|d: u32|
                spec_with_day(orig, d) == spec_with_day(views_of(out@), d) + spec_with_day(
                    views_of(events@),
                    d,
                ),
        decreases events.len(),
    {
        let ghost pre = views_of(events@);
        let e = events.remove(0);
        proof {
            assert(pre[0] == e@);
            assert(views_of(events@) =~= pre.drop_first());
        }
        let mut pos: usize = out.len();
        while pos > 0 && out[pos - 1].date_start > e.date_start
            invariant
                pos <= out@.len(),
                forall|k: int| pos <= k < out@.len() ==> out@[k]@.date_start > e@.date_start,
            decreases pos,
        {
            pos -= 1;
        }
        let ghost ov = views_of(out@);
        proof {
            assert(forall|k: int| pos <= k < ov.len() ==> ov[k].date_start > e@.date_start);
            lemma_sorted_insert(ov, pos as int, e@);
        }
        out.insert(pos, e);
        proof {
            assert(views_of(out@) =~= ov.insert(pos as int, e@));
            assert forall|d: u32|
                spec_with_day(orig, d) == spec_with_day(views_of(out@), d) + spec_with_day(
                    views_of(events@),
                    d,
                ) by {
                if d == e@.date_start {
                    assert(spec_with_day(pre, d) == seq![e@] + spec_with_day(pre.drop_first(), d));
                    assert(spec_with_day(views_of(out@), d) == spec_with_day(ov, d).push(e@));
                    assert(spec_with_day(views_of(out@), d) + spec_with_day(pre.drop_first(), d)
                        =~= spec_with_day(ov, d) + spec_with_day(pre, d));
                } else {
                    assert(spec_with_day(pre, d) == spec_with_day(pre.drop_first(), d));
                }
                assert(views_of(events@) == pre.drop_first());
            }
        }
    }
    proof {
        assert(views_of(events@).len() == 0);
        assert forall|d: u32|
            spec_with_day(views_of(out@), d) == spec_with_day(orig, d) by {
            assert(spec_with_day(views_of(events@), d) == Seq::<SummaryModel>::empty());
            assert(spec_with_day(views_of(out@), d) =~= spec_with_day(orig, d));
        }
    }
    out
}

/// The sum of the `duration_sec` fields, in seconds.
pub open spec fn total_duration(s: Seq<SummaryModel>) -> int
    decreases s.len(),
{
    if s.len() == 0 {
        0
    } else {
        total_duration(s.drop_last()) + s.last().duration_sec
    }
}

/// Sums `duration_sec` over the final sequence with ordinary signed
/// addition; an empty sequence yields zero. The precondition is the machine
/// limit alone: every partial sum must fit the 64-bit range.
#[verifier::loop_isolation(false)]
pub fn calc_total_duration(events: &[EventSummary]) -> (r: i64)
    requires
        forall|k: int|
            0 <= k <= events@.len() ==> i64::MIN <= total_duration(
                #[trigger] views_of(events@).take(k),
            ) <= i64::MAX,
    ensures
        r == total_duration(views_of(events@)),
{
    let n = events.len();
    let mut total: i64 = 0;
    let mut i: usize = 0;
    proof {
        assert(views_of(events@).take(0) =~= Seq::<SummaryModel>::empty());
    }
    while i < n
        invariant
            i <= n,
            total == total_duration(views_of(events@).take(i as int)),
        decreases n - i,
    {
        let e = slice_index_get(events, i);
        proof {
            let v = views_of(events@);
            assert(v.take(i + 1).drop_last() =~= v.take(i as int));
            assert(v.take(i + 1).last() == v[i as int]);
            assert(total_duration(v.take(i + 1)) == total + e@.duration_sec);
        }
        total = total + e.duration_sec;
        i += 1;
    }
    proof {
        assert(views_of(events@).take(n as int) =~= views_of(events@));
    }
    total
}

/// Sums durations while watching the 64-bit range: `None` reports exactly
/// the overflow that `calc_total_duration` excludes by precondition.
#[verifier::loop_isolation(false)]
pub fn checked_total_duration(events: &[EventSummary]) -> (r: Option<i64>)
    ensures
        r matches Some(t) ==> t == total_duration(views_of(events@)),
        r is Some <==> (forall|k: int|
            0 <= k <= events@.len() ==> i64::MIN <= total_duration(
                #[trigger] views_of(events@).take(k),
            ) <= i64::MAX),
{
    let n = events.len();
    let mut total: i64 = 0;
    let mut i: usize = 0;
    proof {
        assert(views_of(events@).take(0) =~= Seq::<SummaryModel>::empty());
    }
    while i < n
        invariant
            i <= n,
            total == total_duration(views_of(events@).take(i as int)),
            forall|k: int|
                0 <= k <= i ==> i64::MIN <= total_duration(
                    #[trigger] views_of(events@).take(k),
                ) <= i64::MAX,
        decreases n - i,
    {
        let e = slice_index_get(events, i);
        proof {
            let v = views_of(events@);
            assert(v.take(i + 1).drop_last() =~= v.take(i as int));
            assert(v.take(i + 1).last() == v[i as int]);
        }
        let next: i128 = total as i128 + e.duration_sec as i128;
        proof {
            assert(total_duration(views_of(events@).take(i + 1)) == next as int);
        }
        if next < i64::MIN as i128 || next > i64::MAX as i128 {
            proof {
                assert(!(i64::MIN <= total_duration(views_of(events@).take(i + 1)) <= i64::MAX));
            }
            return None;
        }
        total = next as i64;
        i += 1;
    }
    proof {
        assert(views_of(events@).take(n as int) =~= views_of(events@));
    }
    Some(total)
}

/// One whole report: flatten the calendars, filter by the optional period,
/// and stable-sort by day of month. The result pairs the ordered summaries
/// with the skip reasons of the dropped events; the first present marker
/// that does not parse aborts the whole report with no partial output.
pub fn build_report(cals: &Vec<RawCalendar>, month: Option<u32>, year: Option<i32>) -> (r: Result<
    (Vec<EventSummary>, Vec<SkipReason>),
    TimestampParseError,
>)
    ensures
        r is Ok <==> !spec_any_fatal_cals(spec_calendar_views(cals@)),
        r matches Ok(out) ==> ({
            let kept = spec_retained(
                spec_kept(spec_all_events(spec_calendar_views(cals@))),
                month,
                year,
            );
            &&& spec_sorted_by_day(views_of(out.0@))
            &&& views_of(out.0@).len() == kept.len()
            &&& forall|d: u32| spec_with_day(views_of(out.0@), d) == spec_with_day(kept, d)
            &&& out.1@ == spec_skips(spec_all_events(spec_calendar_views(cals@)))
        }),
{
    let (flat, skips) = match flatten_calendars(cals) {
        Ok(p) => p,
        Err(e) => {
            return Err(e);
        },
    };
    let filtered = filter_events(flat, month, year);
    let sorted = sort_by_day(filtered);
    Ok((sorted, skips))
}

/// An empty filtered sequence sums to zero seconds, and zero seconds
/// renders as `00:00:00`.
pub proof fn lemma_empty_report_total()
    ensures
        total_duration(Seq::<SummaryModel>::empty()) == 0,
        spec_fmt_duration(0) == "00:00:00"@,
{
    reveal_strlit("00:00:00");
    assert(spec_fmt_duration(0) =~= "00:00:00"@);
}

/// Filters compose by logical AND: the month filter and the year filter,
/// applied one after the other in either order, retain exactly the events
/// of the combined filter — the order of application is not observable.
pub proof fn lemma_filter_composition(s: Seq<SummaryModel>, m: u32, y: i32)
    ensures
        spec_retained(spec_retained(s, Some(m), None), None, Some(y)) == spec_retained(
            s,
            Some(m),
            Some(y),
        ),
        spec_retained(spec_retained(s, None, Some(y)), Some(m), None) == spec_retained(
            s,
            Some(m),
            Some(y),
        ),
    decreases s.len(),
{
    if s.len() == 0 {
    } else {
        let rest = s.drop_first();
        lemma_filter_composition(rest, m, y);
        if spec_keep(s[0], Some(m), None) {
            let tail_m = spec_retained(rest, Some(m), None);
            assert(spec_retained(s, Some(m), None) == seq![s[0]] + tail_m);
            assert((seq![s[0]] + tail_m)[0] == s[0]);
            assert((seq![s[0]] + tail_m).drop_first() =~= tail_m);
        }
        if spec_keep(s[0], None, Some(y)) {
            let tail_y = spec_retained(rest, None, Some(y));
            assert(spec_retained(s, None, Some(y)) == seq![s[0]] + tail_y);
            assert((seq![s[0]] + tail_y)[0] == s[0]);
            assert((seq![s[0]] + tail_y).drop_first() =~= tail_y);
        }
    }
}

} // verus!
