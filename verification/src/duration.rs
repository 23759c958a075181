//! Rendering a signed second count as a fixed-width `HH:MM:SS` string, with
//! the truncating division and remainder of the host language.

use vstd::prelude::*;

use crate::text::neg_magnitude;
use crate::text::push_char;
use crate::text::push_pad2_mag;
use crate::text::spec_pad2;

verus! {

/// Truncating division: the `/` of the host language on signed operands.
pub open spec fn tdiv(a: int, b: int) -> int
    recommends
        b > 0,
{
    if a >= 0 {
        a / b
    } else {
        -((-a) / b)
    }
}

/// Truncating remainder: the `%` of the host language on signed operands.
/// It takes the sign of `a`.
pub open spec fn tmod(a: int, b: int) -> int
    recommends
        b > 0,
{
    if a >= 0 {
        a % b
    } else {
        -((-a) % b)
    }
}

/// `HH:MM:SS` for a signed second count: `HH = (s/60)/60`,
/// `MM = (s/60) % 60`, `SS = s % 60`, each zero-padded to at least two
/// characters. Negative counts keep the truncating sign behavior, so their
/// fields carry their own minus signs.
pub open spec fn spec_fmt_duration(secs: int) -> Seq<char> {
    spec_pad2(tdiv(tdiv(secs, 60), 60)) + seq![':'] + spec_pad2(tmod(tdiv(secs, 60), 60))
        + seq![':'] + spec_pad2(tmod(secs, 60))
}

/// Formats a duration in seconds as `HH:MM:SS`.
pub fn fmt_duration(secs: i64) -> (r: String)
    ensures
        r@ == spec_fmt_duration(secs as int),
{
    let neg = secs < 0;
    let mag: u64 = if neg {
        neg_magnitude(secs)
    } else {
        secs as u64
    };
    let hm = mag / 60;
    let h = hm / 60;
    let m = hm % 60;
    let s2 = mag % 60;
    proof {
        assert(tdiv(secs as int, 60) == if neg {
            -(hm as int)
        } else {
            hm as int
        });
        assert(tdiv(tdiv(secs as int, 60), 60) == if neg {
            -(h as int)
        } else {
            h as int
        });
        assert(tmod(tdiv(secs as int, 60), 60) == if neg {
            -(m as int)
        } else {
            m as int
        });
        assert(tmod(secs as int, 60) == if neg {
            -(s2 as int)
        } else {
            s2 as int
        });
    }
    let mut out = String::new();
    push_pad2_mag(&mut out, h, neg);
    push_char(&mut out, ':');
    push_pad2_mag(&mut out, m, neg);
    push_char(&mut out, ':');
    push_pad2_mag(&mut out, s2, neg);
    proof {
        assert(out@ =~= spec_fmt_duration(secs as int));
    }
    out
}

} // verus!
