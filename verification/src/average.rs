//! The arithmetic mean of the close prices, computed exactly.
//!
//! A close price arrives as decimal text and is read as an exact
//! fixed-point number: `close_scaled` maps the text to an integer count of
//! `10^-18` units. Every well-formed decimal of up to eighteen significant
//! digits and eighteen decimal places contributes exactly its value to the
//! sum. Text that is not plain decimal at all contributes zero — the
//! data-quality rule that a malformed close is substituted, never an
//! error. A well-formed decimal beyond those eighteen digits, or a series
//! whose summed magnitudes exceed what an `i128` holds, is never zeroed
//! silently: the average reports `Overflow` instead. Scientific notation
//! and the float spellings `inf`/`NaN` are not decimal text here and count
//! as zero.

use vstd::prelude::*;
use crate::arith::lemma_pow10_18;
use crate::arith::lemma_pow10_mono;
use crate::arith::pow10;
use crate::arith::pow10_u64;
use crate::bytes::digit_val;
use crate::bytes::is_digit;
use crate::series::RecordModel;
use crate::series::TimeSeries;

verus! {

/// The natural number a digit string denotes, most significant digit first.
pub open spec fn digits_val(s: Seq<u8>) -> nat
    decreases s.len(),
{
    if s.len() == 0 {
        0
    } else {
        digits_val(s.drop_last()) * 10 + digit_val(s.last())
    }
}

/// A digit string is worth at least any of its prefixes.
pub proof fn lemma_digits_val_prefix_le(s: Seq<u8>, t: Seq<u8>)
    requires
        t.len() <= s.len(),
        forall|k: int| 0 <= k < t.len() ==> t[k] == s[k],
    ensures
        digits_val(t) <= digits_val(s),
    decreases s.len(),
{
    if t.len() == s.len() {
        assert(t =~= s);
    } else {
        lemma_digits_val_prefix_le(s.drop_last(), t);
    }
}

/// Index of the first `.` at or after `i`, or the length if there is none.
pub open spec fn first_dot(s: Seq<u8>, i: int) -> int
    decreases s.len() - i,
{
    if 0 <= i < s.len() {
        if s[i] == 46 {
            i
        } else {
            first_dot(s, i + 1)
        }
    } else {
        s.len() as int
    }
}

/// Every byte in `s[a..b)` is an ASCII digit.
pub open spec fn all_digits_range(s: Seq<u8>, a: int, b: int) -> bool {
    forall|k: int| a <= k < b ==> is_digit(s[k])
}

/// Where the digits begin: one past a leading sign, if any.
pub open spec fn dec_start(s: Seq<u8>) -> int {
    if s.len() > 0 && (s[0] == 43 || s[0] == 45) {
        1
    } else {
        0
    }
}

/// The text carries a leading minus sign.
pub open spec fn dec_neg(s: Seq<u8>) -> bool {
    s.len() > 0 && s[0] == 45
}

/// Plain signed decimal text: an optional sign, then digits with at most one
/// dot anywhere among them, and at least one digit in all.
pub open spec fn dec_ok(s: Seq<u8>) -> bool {
    let a = dec_start(s);
    let d = first_dot(s, a);
    &&& all_digits_range(s, a, d)
    &&& (d < s.len() ==> all_digits_range(s, d + 1, s.len() as int))
    &&& (if d < s.len() {
        s.len() - a - 1 > 0
    } else {
        s.len() - a > 0
    })
}

/// The digits of the text with the dot removed, read as a natural number.
pub open spec fn dec_mantissa(s: Seq<u8>) -> nat {
    let a = dec_start(s);
    let d = first_dot(s, a);
    if d < s.len() {
        digits_val(s.subrange(a, d) + s.subrange(d + 1, s.len() as int))
    } else {
        digits_val(s.subrange(a, s.len() as int))
    }
}

/// How many digits follow the dot.
pub open spec fn dec_scale(s: Seq<u8>) -> nat {
    let a = dec_start(s);
    let d = first_dot(s, a);
    if d < s.len() {
        (s.len() - d - 1) as nat
    } else {
        0
    }
}

/// A well-formed decimal too wide for the fixed-point model: more than
/// eighteen significant digits, or more than eighteen decimal places.
/// Such a close is never zeroed silently; the average reports it.
pub open spec fn close_out_of_range(s: Seq<u8>) -> bool {
    dec_ok(s) && (dec_mantissa(s) >= 1000000000000000000 || dec_scale(s) > 18)
}

/// The close price as an integer count of `10^-18` units: the decimal text
/// `s` denotes the value `close_scaled(s) / 10^18`. Text that is not plain
/// decimal — and only such text, besides the separately reported
/// out-of-range case — contributes zero.
pub open spec fn close_scaled(s: Seq<u8>) -> int {
    if dec_ok(s) && dec_mantissa(s) < 1000000000000000000 && dec_scale(s) <= 18 {
        let v = dec_mantissa(s) * pow10((18 - dec_scale(s)) as nat);
        if dec_neg(s) {
            -(v as int)
        } else {
            v as int
        }
    } else {
        0
    }
}

/// A close that is not plain decimal text contributes exactly zero to the
/// sum — it is substituted, never an error.
pub proof fn lemma_malformed_close_is_zero(s: Seq<u8>)
    requires
        !dec_ok(s),
    ensures
        close_scaled(s) == 0,
{
}

/// Every close contribution stays strictly below `10^36` in magnitude:
/// the mantissa holds fewer than nineteen digits and the scaling factor is
/// at most `10^18`.
pub proof fn lemma_close_scaled_bound(s: Seq<u8>)
    ensures
        -1000000000000000000000000000000000000 < close_scaled(s)
            < 1000000000000000000000000000000000000,
{
    if dec_ok(s) && dec_mantissa(s) < 1000000000000000000 && dec_scale(s) <= 18 {
        let m = dec_mantissa(s);
        let p = pow10((18 - dec_scale(s)) as nat);
        lemma_pow10_mono((18 - dec_scale(s)) as nat, 18);
        lemma_pow10_18();
        assert(m * p < 1000000000000000000000000000000000000) by (nonlinear_arith)
            requires
                m < 1000000000000000000,
                p <= 1000000000000000000,
        ;
    }
}

/// Appending a record whose close is not plain decimal text leaves the
/// summed closes unchanged: the malformed value is counted as zero, it
/// never aborts the computation.
pub proof fn lemma_malformed_close_adds_nothing(
    entries: Seq<(Seq<u8>, RecordModel)>,
    date: Seq<u8>,
    rec: RecordModel,
)
    requires
        !dec_ok(rec.close),
    ensures
        sum_closes(entries.push((date, rec))) == sum_closes(entries),
{
    assert(entries.push((date, rec)).drop_last() =~= entries);
}

/// Index of the first `.` at or after `start`, or the length.
#[verifier::loop_isolation(false)]
fn find_dot(s: &[u8], start: usize) -> (d: usize)
    requires
        start <= s@.len(),
    ensures
        d == first_dot(s@, start as int),
        start <= d <= s@.len(),
    decreases s@.len() - start,
{
    let n = s.len();
    let mut i: usize = start;
    while i < n
        invariant
            start <= i <= n,
            first_dot(s@, start as int) == first_dot(s@, i as int),
        decreases n - i,
    {
        if s[i] == 46 {
            return i;
        }
        i = i + 1;
    }
    i
}

/// Every byte of `s[a..b)` is a digit, decided executably.
#[verifier::loop_isolation(false)]
fn digits_in(s: &[u8], a: usize, b: usize) -> (r: bool)
    requires
        a <= b <= s@.len(),
    ensures
        r == all_digits_range(s@, a as int, b as int),
{
    let mut i: usize = a;
    while i < b
        invariant
            a <= i <= b,
            forall|k: int| a <= k < i ==> is_digit(s@[k]),
        decreases b - i,
    {
        if s[i] < 48 || s[i] > 57 {
            return false;
        }
        i = i + 1;
    }
    true
}

/// What one close-price text contributes: its exact scaled value (with
/// malformed text contributing zero), or the mark that a well-formed
/// decimal overruns the fixed-point model.
#[derive(Debug, Clone, Copy, PartialEq, Eq, Structural)]
pub enum CloseValue {
    Exact(i128),
    OutOfRange,
}

/// Reads one close-price text: exactly `close_scaled` of it, or
/// `OutOfRange` for a well-formed decimal too wide for the model.
#[verifier::loop_isolation(false)]
#[verifier::rlimit(60)]
pub fn close_contribution(s: &[u8]) -> (r: CloseValue)
    ensures
        close_out_of_range(s@) ==> r == CloseValue::OutOfRange,
        !close_out_of_range(s@) ==> r == CloseValue::Exact(close_scaled(s@) as i128),
{
    let n = s.len();
    let start: usize = if n > 0 && (s[0] == 43 || s[0] == 45) {
        1
    } else {
        0
    };
    let neg: bool = n > 0 && s[0] == 45;
    let d = find_dot(s, start);
    if !digits_in(s, start, d) {
        return CloseValue::Exact(0);
    }
    if d < n && !digits_in(s, d + 1, n) {
        return CloseValue::Exact(0);
    }
    let digit_count: usize = if d < n {
        n - start - 1
    } else {
        n - start
    };
    if digit_count == 0 {
        return CloseValue::Exact(0);
    }
    assert(dec_ok(s@));
    let scale: usize = if d < n {
        n - d - 1
    } else {
        0
    };
    if scale > 18 {
        return CloseValue::OutOfRange;
    }
    let ghost digs: Seq<u8> = if (d as int) < s@.len() {
        s@.subrange(start as int, d as int) + s@.subrange(d as int + 1, s@.len() as int)
    } else {
        s@.subrange(start as int, s@.len() as int)
    };
    assert(dec_mantissa(s@) == digits_val(digs));
    let mut m: u64 = 0;
    let mut i: usize = start;
    while i < d
        invariant
            start <= i <= d,
            m == digits_val(s@.subrange(start as int, i as int)),
            m < 1000000000000000000,
        decreases d - i,
    {
        proof {
            assert(s@.subrange(start as int, i as int + 1).drop_last() =~= s@.subrange(
                start as int,
                i as int,
            ));
            assert(s@.subrange(start as int, i as int + 1).last() == s@[i as int]);
        }
        let m2: u64 = m * 10 + ((s[i] - 48) as u64);
        assert(m2 == digits_val(s@.subrange(start as int, i as int + 1)));
        if m2 >= 1000000000000000000 {
            proof {
                lemma_digits_val_prefix_le(digs, s@.subrange(start as int, i as int + 1));
            }
            return CloseValue::OutOfRange;
        }
        m = m2;
        i = i + 1;
    }
    if d < n {
        proof {
            assert(s@.subrange(start as int, d as int) =~= digs.subrange(
                0,
                d as int - start as int,
            ));
        }
        let mut j: usize = d + 1;
        while j < n
            invariant
                d + 1 <= j <= n,
                m == digits_val(
                    s@.subrange(start as int, d as int) + s@.subrange(d as int + 1, j as int),
                ),
                m < 1000000000000000000,
            decreases n - j,
        {
            proof {
                let pref = s@.subrange(start as int, d as int) + s@.subrange(
                    d as int + 1,
                    j as int + 1,
                );
                assert(pref.drop_last() =~= s@.subrange(start as int, d as int) + s@.subrange(
                    d as int + 1,
                    j as int,
                ));
                assert(pref.last() == s@[j as int]);
            }
            let m2: u64 = m * 10 + ((s[j] - 48) as u64);
            if m2 >= 1000000000000000000 {
                proof {
                    let pref = s@.subrange(start as int, d as int) + s@.subrange(
                        d as int + 1,
                        j as int + 1,
                    );
                    lemma_digits_val_prefix_le(digs, pref);
                }
                return CloseValue::OutOfRange;
            }
            m = m2;
            j = j + 1;
        }
        proof {
            assert(s@.subrange(d as int + 1, n as int) =~= s@.subrange(
                d as int + 1,
                s@.len() as int,
            ));
        }
    } else {
        proof {
            assert(s@.subrange(start as int, d as int) =~= digs);
        }
    }
    assert(m == dec_mantissa(s@));
    let p: u64 = pow10_u64(18 - (scale as u64));
    proof {
        lemma_pow10_mono((18 - scale) as nat, 18);
        lemma_pow10_18();
        assert(m * p < 1000000000000000000000000000000000000) by (nonlinear_arith)
            requires
                m < 1000000000000000000,
                p <= 1000000000000000000,
        ;
    }
    let v: u128 = (m as u128) * (p as u128);
    let sv: i128 = v as i128;
    if neg {
        CloseValue::Exact(-sv)
    } else {
        CloseValue::Exact(sv)
    }
}

/// The scaled contributions of all closes in the series, summed exactly.
pub open spec fn sum_closes(entries: Seq<(Seq<u8>, RecordModel)>) -> int
    decreases entries.len(),
{
    if entries.len() == 0 {
        0
    } else {
        sum_closes(entries.drop_last()) + close_scaled(entries.last().1.close)
    }
}

/// The magnitude of an integer.
pub open spec fn abs_i(x: int) -> int {
    if x >= 0 {
        x
    } else {
        -x
    }
}

/// The summed magnitudes of all close contributions: the bound that
/// decides whether the exact sum stays representable.
pub open spec fn abs_sum_closes(entries: Seq<(Seq<u8>, RecordModel)>) -> int
    decreases entries.len(),
{
    if entries.len() == 0 {
        0
    } else {
        abs_sum_closes(entries.drop_last()) + abs_i(close_scaled(entries.last().1.close))
    }
}

/// The summed magnitudes only grow as entries are appended.
pub proof fn lemma_abs_sum_take_le(entries: Seq<(Seq<u8>, RecordModel)>, k: int)
    requires
        0 <= k <= entries.len(),
    ensures
        abs_sum_closes(entries.take(k)) <= abs_sum_closes(entries),
    decreases entries.len() - k,
{
    if k == entries.len() {
        assert(entries.take(k) =~= entries);
    } else {
        lemma_abs_sum_take_le(entries, k + 1);
        assert(entries.take(k + 1).drop_last() =~= entries.take(k));
        assert(entries.take(k + 1).last() == entries[k]);
    }
}

/// Some close in the series is a well-formed decimal too wide for the
/// fixed-point model.
pub open spec fn series_close_out_of_range(entries: Seq<(Seq<u8>, RecordModel)>) -> bool {
    exists|i: int| 0 <= i < entries.len() && close_out_of_range(entries[i].1.close)
}

/// The mean of the close prices, or the mark that no mean exists, or the
/// mark that the exact arithmetic ran out of range.
///
/// `Mean { sum_scaled, count }` denotes the exact rational
/// `sum_scaled / (count * 10^18)`; `Empty` is the empty series, whose mean
/// is a division by zero that callers render as a non-finite value;
/// `Overflow` reports a close beyond eighteen significant digits or
/// eighteen decimal places, or summed magnitudes past `i128` range —
/// never a silent zero.
#[derive(Debug, Clone, Copy, PartialEq, Eq, Structural)]
pub enum AverageClose {
    Empty,
    Overflow,
    Mean { sum_scaled: i128, count: usize },
}

/// Sums every record's close contribution and divides by the record count —
/// here kept exact as the rational `sum_scaled / (count * 10^18)`. An
/// empty series has no mean and yields `Empty`; a close too wide for the
/// model, or summed magnitudes beyond `i128`, yield `Overflow`.
#[verifier::loop_isolation(false)]
pub fn average_close(series: &TimeSeries) -> (r: AverageClose)
    ensures
        series@.len() == 0 ==> r == AverageClose::Empty,
        series@.len() > 0 && (series_close_out_of_range(series@) || abs_sum_closes(series@)
            > i128::MAX) ==> r == AverageClose::Overflow,
        series@.len() > 0 && !series_close_out_of_range(series@) && abs_sum_closes(series@)
            <= i128::MAX ==> r == (AverageClose::Mean {
            sum_scaled: sum_closes(series@) as i128,
            count: series@.len() as usize,
        }),
        series@.len() > 0 && !series_close_out_of_range(series@) && abs_sum_closes(series@)
            <= i128::MAX ==> (sum_closes(series@) as i128) == sum_closes(series@),
{
    let n = series.len();
    if n == 0 {
        return AverageClose::Empty;
    }
    let mut sum: i128 = 0;
    let mut abs: u128 = 0;
    let mut i: usize = 0;
    while i < n
        invariant
            0 <= i <= n,
            n == series@.len(),
            forall|k: int| 0 <= k < i ==> !close_out_of_range(#[trigger] series@[k].1.close),
            sum == sum_closes(series@.take(i as int)),
            abs == abs_sum_closes(series@.take(i as int)),
            abs <= i128::MAX as u128,
            -(abs as int) <= sum <= abs as int,
        decreases n - i,
    {
        let c = close_contribution(series.record_at(i).close.as_slice());
        proof {
            lemma_close_scaled_bound(series@[i as int].1.close);
            assert(series@.take(i as int + 1).drop_last() =~= series@.take(i as int));
            assert(series@.take(i as int + 1).last() == series@[i as int]);
        }
        match c {
            CloseValue::OutOfRange => {
                proof {
                    assert(close_out_of_range(series@[i as int].1.close));
                    assert(series_close_out_of_range(series@));
                }
                return AverageClose::Overflow;
            },
            CloseValue::Exact(v) => {
                let a: u128 = if v >= 0 {
                    v as u128
                } else {
                    (-v) as u128
                };
                let new_abs: u128 = abs + a;
                if new_abs > (i128::MAX as u128) {
                    proof {
                        lemma_abs_sum_take_le(series@, i as int + 1);
                    }
                    return AverageClose::Overflow;
                }
                abs = new_abs;
                sum = sum + v;
                i = i + 1;
            },
        }
    }
    proof {
        assert(series@.take(n as int) =~= series@);
        if series_close_out_of_range(series@) {
            let k = choose|k: int| 0 <= k < series@.len() && close_out_of_range(
                series@[k].1.close,
            );
            assert(!close_out_of_range(series@[k].1.close));
        }
    }
    AverageClose::Mean { sum_scaled: sum, count: n }
}

} // verus!
