//! Building decimal text: the digit sequences that date, time and duration
//! labels are made of, and the character-level helpers they share.

use vstd::prelude::*;
use vstd::string::StrSliceExecFns;

verus! {

/// The character for one decimal digit.
pub open spec fn digit_char(d: int) -> char
    recommends
        0 <= d <= 9,
{
    ((48 + d) as u8) as char
}

/// Decimal digits of `n`, most significant first.
pub open spec fn spec_decimal_nat(n: nat) -> Seq<char>
    decreases n,
{
    if n < 10 {
        seq![digit_char(n as int)]
    } else {
        spec_decimal_nat(n / 10).push(digit_char((n % 10) as int))
    }
}

/// Decimal digits of `v`, led by a minus sign when `v` is negative.
pub open spec fn spec_decimal_int(v: int) -> Seq<char> {
    if v >= 0 {
        spec_decimal_nat(v as nat)
    } else {
        seq!['-'] + spec_decimal_nat((-v) as nat)
    }
}

/// `v` as at least two characters, zero-padded on the left: the shape of a
/// clock field. A sign counts toward the width, so only the single digits
/// 0 to 9 gain a leading zero.
pub open spec fn spec_pad2(v: int) -> Seq<char> {
    if 0 <= v < 10 {
        seq!['0'] + spec_decimal_nat(v as nat)
    } else {
        spec_decimal_int(v)
    }
}

/// Relies on std's `String::push`: appends exactly the given character.
#[verifier::external_body]
pub(crate) fn push_char(s: &mut String, c: char)
    ensures
        final(s)@ == old(s)@.push(c),
{
    s.push(c);
}

/// Appends the decimal digits of `n`.
pub fn push_u64_decimal(s: &mut String, n: u64)
    ensures
        final(s)@ == old(s)@ + spec_decimal_nat(n as nat),
    decreases n,
{
    if n >= 10 {
        push_u64_decimal(s, n / 10);
        let d = (n % 10) as u8;
        push_char(s, (48 + d) as char);
        proof {
            assert(s@ =~= old(s)@ + spec_decimal_nat(n as nat));
        }
    } else {
        let d = n as u8;
        push_char(s, (48 + d) as char);
        proof {
            assert(s@ =~= old(s)@ + spec_decimal_nat(n as nat));
        }
    }
}

/// The magnitude of a negative signed value, without overflow at the
/// smallest one.
pub(crate) fn neg_magnitude(v: i64) -> (m: u64)
    requires
        v < 0,
    ensures
        m == -(v as int),
{
    let t: i64 = -(v + 1);
    (t as u64) + 1
}

/// Appends the decimal digits of `v`, with its sign.
pub fn push_i64_decimal(s: &mut String, v: i64)
    ensures
        final(s)@ == old(s)@ + spec_decimal_int(v as int),
{
    if v < 0 {
        push_char(s, '-');
        let m = neg_magnitude(v);
        push_u64_decimal(s, m);
        proof {
            assert(s@ =~= old(s)@ + spec_decimal_int(v as int));
        }
    } else {
        push_u64_decimal(s, v as u64);
    }
}

/// Appends `mag` (negated when `neg` holds) as a zero-padded clock field.
pub(crate) fn push_pad2_mag(s: &mut String, mag: u64, neg: bool)
    ensures
        final(s)@ == old(s)@ + spec_pad2(if neg { -(mag as int) } else { mag as int }),
{
    if neg && mag > 0 {
        push_char(s, '-');
        push_u64_decimal(s, mag);
        proof {
            assert(s@ =~= old(s)@ + spec_pad2(-(mag as int)));
        }
    } else {
        if mag < 10 {
            push_char(s, '0');
        }
        push_u64_decimal(s, mag);
        proof {
            if mag < 10 {
                assert(s@ =~= old(s)@ + spec_pad2(mag as int));
            }
        }
    }
}

/// Character-for-character equality of two string slices.
pub fn str_eq(a: &str, b: &str) -> (r: bool)
    ensures
        r == (a@ == b@),
{
    let alen = a.unicode_len();
    let blen = b.unicode_len();
    if alen != blen {
        return false;
    }
    let mut i: usize = 0;
    while i < alen
        invariant
            alen == a@.len(),
            blen == b@.len(),
            alen == blen,
            i <= alen,
            forall|j: int| 0 <= j < i ==> a@[j] == b@[j],
        decreases alen - i,
    {
        if a.get_char(i) != b.get_char(i) {
            return false;
        }
        i += 1;
    }
    proof {
        assert(a@ =~= b@);
    }
    true
}

} // verus!
