//! Timestamps: rewriting a compact date-time token into extended form, and
//! parsing the result into the calendar components the report reads.

use vstd::prelude::*;
use vstd::string::StrSliceExecFns;
use vstd::string::StringExecFns;

use crate::text::push_char;

verus! {

/// The separator that follows the character at index `i` of a compact
/// token: hyphens complete the date part, colons the time part.
pub open spec fn separator_after(i: int) -> Seq<char> {
    if i == 3 || i == 5 {
        seq!['-']
    } else if i == 10 || i == 12 {
        seq![':']
    } else {
        Seq::empty()
    }
}

/// The tail of the normalized form of `s`, from character `i` on.
pub open spec fn spec_normalize_from(s: Seq<char>, i: int) -> Seq<char>
    decreases s.len() - i,
{
    if i < 0 || i >= s.len() {
        Seq::empty()
    } else {
        seq![s[i]] + separator_after(i) + spec_normalize_from(s, i + 1)
    }
}

/// A compact date-time token in extended form: a hyphen after positions 3
/// and 5, a colon after positions 10 and 12, every original character kept
/// in order. Positions past the end insert nothing, so short tokens pass
/// through with only the separators their length allows.
pub open spec fn spec_normalize(s: Seq<char>) -> Seq<char> {
    spec_normalize_from(s, 0)
}

/// Inserts the hyphens and colons of the extended timestamp format into a
/// compact date-time token, e.g. turning `20220921T151530Z` into
/// `2022-09-21T15:15:30Z`. Total: a malformed token is rewritten
/// syntactically and left for the parsing step to refuse.
pub fn hypentate_dttime(input: &str) -> (r: String)
    ensures
        r@ == spec_normalize(input@),
{
    let n = input.unicode_len();
    let mut buf = String::new();
    let mut i: usize = 0;
    while i < n
        invariant
            n == input@.len(),
            i <= n,
            buf@ + spec_normalize_from(input@, i as int) == spec_normalize(input@),
        decreases n - i,
    {
        let c = input.get_char(i);
        push_char(&mut buf, c);
        if i == 3 || i == 5 {
            push_char(&mut buf, '-');
        }
        if i == 10 || i == 12 {
            push_char(&mut buf, ':');
        }
        proof {
            assert(buf@ + spec_normalize_from(input@, i + 1) =~= (buf@ + spec_normalize_from(
                input@,
                i + 1,
            )));
            assert(spec_normalize_from(input@, i as int) == seq![input@[i as int]]
                + separator_after(i as int) + spec_normalize_from(input@, i + 1));
            assert(buf@ + spec_normalize_from(input@, i + 1) =~= spec_normalize(input@));
        }
        i += 1;
    }
    proof {
        assert(spec_normalize_from(input@, n as int) =~= Seq::<char>::empty());
        assert(buf@ =~= spec_normalize(input@));
    }
    buf
}

/// The calendar components and epoch offset that the report reads from one
/// absolute timestamp, as plain values in the timestamp's own offset.
#[derive(Clone, Copy, PartialEq, Eq, Structural, Debug)]
pub struct Instant {
    pub year: i32,
    pub month: u32,
    pub day: u32,
    pub hour: u32,
    pub minute: u32,
    pub epoch_seconds: i64,
}

impl Instant {
    /// The component bounds that hold of every parsed timestamp: clock and
    /// calendar fields in their documented ranges, and an epoch offset kept
    /// small by the parser's bounded year range.
    pub open spec fn wf(self) -> bool {
        &&& 1 <= self.month <= 12
        &&& 1 <= self.day <= 31
        &&& self.hour <= 23
        &&& self.minute <= 59
        &&& -10_000_000_000_000 < self.epoch_seconds < 10_000_000_000_000
    }
}

/// What the RFC 3339 parser yields for a string: `None` when it is not a
/// valid extended-format date-time, otherwise the components the report
/// reads. A function of the characters alone.
pub uninterp spec fn rfc3339_parse(s: Seq<char>) -> Option<Instant>;

/// The fatal error of the pipeline: a present marker token that does not
/// parse as an absolute instant. Carries the offending token.
#[derive(Debug)]
pub struct TimestampParseError {
    pub token: String,
}

impl TimestampParseError {
    /// A printable account of the failure.
    pub fn message(&self) -> (r: String)
        ensures
            r@ == "could not parse timestamp: "@ + self.token@,
    {
        let mut r = String::from_str("could not parse timestamp: ");
        r.append(self.token.as_str());
        r
    }
}

/// Relies on chrono's `DateTime::parse_from_rfc3339` and, on its result, the
/// `Datelike`/`Timelike` accessors and `timestamp`: the outcome is a function
/// of the characters alone; `month` ranges over 1 to 12, `day` over 1 to 31,
/// `hour` up to 23, `minute` up to 59; `timestamp` counts non-leap seconds
/// since the Unix epoch, and chrono's representable years (about ±262000,
/// `NaiveDate::MIN`/`MAX`) keep it well inside the stated bound.
#[verifier::external_body]
fn parse_rfc3339(s: &str) -> (r: Option<Instant>)
    ensures
        r == rfc3339_parse(s@),
        r matches Some(inst) ==> inst.wf(),
{
    match chrono::DateTime::parse_from_rfc3339(s) {
        Ok(dt) => Some(
            Instant {
                year: chrono::Datelike::year(&dt),
                month: chrono::Datelike::month(&dt),
                day: chrono::Datelike::day(&dt),
                hour: chrono::Timelike::hour(&dt),
                minute: chrono::Timelike::minute(&dt),
                epoch_seconds: dt.timestamp(),
            },
        ),
        Err(_) => None,
    }
}

/// Parses one normalized timestamp into its components. Failure is the
/// fatal case of the pipeline and names the refused token.
pub fn parse_instant(token: &str) -> (r: Result<Instant, TimestampParseError>)
    ensures
        r matches Ok(inst) ==> rfc3339_parse(token@) == Some(inst) && inst.wf(),
        r is Err <==> rfc3339_parse(token@) is None,
        r matches Err(e) ==> e.token@ == token@,
{
    match parse_rfc3339(token) {
        Some(inst) => Ok(inst),
        None => Err(TimestampParseError { token: String::from_str(token) }),
    }
}

} // verus!
