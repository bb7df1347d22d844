//! Structural JSON scanning over bytes.
//!
//! The grammar is stated as total spec functions that return the index just
//! past a construct, or `None` when the bytes do not match it. The nested
//! constructs take a fuel bound so the definitions stay total; the decoder
//! grants fuel proportional to the input, far more than any input can use,
//! so running out of fuel only ever coincides with malformed input or
//! nesting deeper than the byte count itself. The executable scanners
//! mirror the spec functions exactly.
//!
//! Strings are held to the JSON grammar: only the escapes `\" \\ \/ \b \f
//! \n \r \t` and `\uXXXX` (with a high surrogate escape followed by a low
//! one) are admitted, raw bytes must be well-formed UTF-8, and unescaped
//! control bytes are refused. A scanned string keeps its accepted bytes
//! verbatim: escape sequences are carried through unchanged rather than
//! being replaced by the characters they name.

use vstd::prelude::*;
use crate::bytes::is_digit;

verus! {

/// JSON whitespace.
pub open spec fn is_ws(c: u8) -> bool {
    c == 32 || c == 9 || c == 10 || c == 13
}

/// Index of the first non-whitespace byte at or after `i`, or the length.
pub open spec fn ws_end(s: Seq<u8>, i: int) -> int
    decreases s.len() - i,
{
    if 0 <= i < s.len() && is_ws(s[i]) {
        ws_end(s, i + 1)
    } else {
        i
    }
}

/// Prefixes the captured text of a scan result.
pub open spec fn opt_prepend(p: Seq<u8>, o: Option<(Seq<u8>, int)>) -> Option<(Seq<u8>, int)> {
    match o {
        Some((c, e)) => Some((p + c, e)),
        None => None,
    }
}

proof fn lemma_prepend_assoc(p1: Seq<u8>, p2: Seq<u8>, o: Option<(Seq<u8>, int)>)
    ensures
        opt_prepend(p1 + p2, o) == opt_prepend(p1, opt_prepend(p2, o)),
{
    match o {
        Some((c, e)) => {
            assert((p1 + p2) + c =~= p1 + (p2 + c));
        },
        None => {},
    }
}

/// One of JSON's single-character escapes: `" \ / b f n r t`.
pub open spec fn is_simple_escape(c: u8) -> bool {
    c == 34 || c == 92 || c == 47 || c == 98 || c == 102 || c == 110 || c == 114 || c == 116
}

/// ASCII hexadecimal digit.
pub open spec fn is_hex_digit(c: u8) -> bool {
    48 <= c <= 57 || 65 <= c <= 70 || 97 <= c <= 102
}

/// The numeric value of an ASCII hexadecimal digit; other bytes count as zero.
pub open spec fn hex_digit_val(c: u8) -> int {
    if 48 <= c <= 57 {
        c - 48
    } else if 65 <= c <= 70 {
        c - 55
    } else if 97 <= c <= 102 {
        c - 87
    } else {
        0
    }
}

/// The value of the four hexadecimal digits at `s[j..j+4)`.
pub open spec fn hex4(s: Seq<u8>, j: int) -> int {
    4096 * hex_digit_val(s[j]) + 256 * hex_digit_val(s[j + 1]) + 16 * hex_digit_val(s[j + 2])
        + hex_digit_val(s[j + 3])
}

/// A full `\uXXXX` escape stands at `j`: backslash, `u`, four hex digits.
pub open spec fn unicode_escape_at(s: Seq<u8>, j: int) -> bool {
    j + 6 <= s.len() && s[j] == 92 && s[j + 1] == 117 && is_hex_digit(s[j + 2]) && is_hex_digit(
        s[j + 3],
    ) && is_hex_digit(s[j + 4]) && is_hex_digit(s[j + 5])
}

/// How many bytes the escape at the backslash `s[j]` occupies: 2 for a
/// simple escape, 6 for `\uXXXX` outside the surrogate range, 12 for a
/// high surrogate followed by its low surrogate, and 0 when the bytes are
/// not a JSON escape (including a lone surrogate).
pub open spec fn escape_len(s: Seq<u8>, j: int) -> int {
    if j + 1 < s.len() && is_simple_escape(s[j + 1]) {
        2
    } else if unicode_escape_at(s, j) {
        let v = hex4(s, j + 2);
        if v < 0xD800 || v > 0xDFFF {
            6
        } else if v <= 0xDBFF {
            if unicode_escape_at(s, j + 6) && 0xDC00 <= hex4(s, j + 8) <= 0xDFFF {
                12
            } else {
                0
            }
        } else {
            0
        }
    } else {
        0
    }
}

/// A UTF-8 continuation byte.
pub open spec fn is_utf8_cont(c: u8) -> bool {
    128 <= c <= 191
}

/// How many bytes the well-formed UTF-8 sequence led by `s[j]` occupies
/// (2 to 4, excluding overlong forms, surrogates and values past
/// U+10FFFF), or 0 when the bytes at `j` are not valid UTF-8.
pub open spec fn utf8_len_at(s: Seq<u8>, j: int) -> int {
    let c = s[j];
    if 194 <= c <= 223 {
        if j + 2 <= s.len() && is_utf8_cont(s[j + 1]) {
            2
        } else {
            0
        }
    } else if c == 224 {
        if j + 3 <= s.len() && 160 <= s[j + 1] <= 191 && is_utf8_cont(s[j + 2]) {
            3
        } else {
            0
        }
    } else if 225 <= c <= 236 || c == 238 || c == 239 {
        if j + 3 <= s.len() && is_utf8_cont(s[j + 1]) && is_utf8_cont(s[j + 2]) {
            3
        } else {
            0
        }
    } else if c == 237 {
        if j + 3 <= s.len() && 128 <= s[j + 1] <= 159 && is_utf8_cont(s[j + 2]) {
            3
        } else {
            0
        }
    } else if c == 240 {
        if j + 4 <= s.len() && 144 <= s[j + 1] <= 191 && is_utf8_cont(s[j + 2]) && is_utf8_cont(
            s[j + 3],
        ) {
            4
        } else {
            0
        }
    } else if 241 <= c <= 243 {
        if j + 4 <= s.len() && is_utf8_cont(s[j + 1]) && is_utf8_cont(s[j + 2]) && is_utf8_cont(
            s[j + 3],
        ) {
            4
        } else {
            0
        }
    } else if c == 244 {
        if j + 4 <= s.len() && 128 <= s[j + 1] <= 143 && is_utf8_cont(s[j + 2]) && is_utf8_cont(
            s[j + 3],
        ) {
            4
        } else {
            0
        }
    } else {
        0
    }
}

/// The body of a JSON string, starting just after the opening quote:
/// the raw bytes up to the closing quote, and the index just past it.
/// Only JSON's escapes are admitted (with surrogate escapes properly
/// paired), raw bytes must be valid UTF-8, and unescaped control bytes
/// end the scan with a mismatch. The accepted bytes are carried verbatim:
/// escape sequences are kept as written, not replaced by the characters
/// they name.
pub open spec fn str_body_end(s: Seq<u8>, j: int) -> Option<(Seq<u8>, int)>
    decreases s.len() - j,
{
    if !(0 <= j < s.len()) {
        None
    } else if s[j] == 34 {
        Some((Seq::empty(), j + 1))
    } else if s[j] == 92 {
        let l = escape_len(s, j);
        if l == 0 {
            None
        } else {
            opt_prepend(s.subrange(j, j + l), str_body_end(s, j + l))
        }
    } else if s[j] < 32 {
        None
    } else if s[j] < 128 {
        opt_prepend(s.subrange(j, j + 1), str_body_end(s, j + 1))
    } else {
        let l = utf8_len_at(s, j);
        if l == 0 {
            None
        } else {
            opt_prepend(s.subrange(j, j + l), str_body_end(s, j + l))
        }
    }
}

/// Index of the first non-digit at or after `i`, or the length.
pub open spec fn digits_end(s: Seq<u8>, i: int) -> int
    decreases s.len() - i,
{
    if 0 <= i < s.len() && is_digit(s[i]) {
        digits_end(s, i + 1)
    } else {
        i
    }
}

/// Index just past a JSON number starting at `i`: an optional minus, an
/// integer part without a leading zero, and optional fraction and exponent.
pub open spec fn num_end(s: Seq<u8>, i: int) -> Option<int> {
    let j = if 0 <= i < s.len() && s[i] == 45 {
        i + 1
    } else {
        i
    };
    if !(0 <= j < s.len() && is_digit(s[j])) {
        None
    } else {
        let k = if s[j] == 48 {
            j + 1
        } else {
            digits_end(s, j)
        };
        let k2 = if k < s.len() && s[k] == 46 {
            if k + 1 < s.len() && is_digit(s[k + 1]) {
                digits_end(s, k + 1)
            } else {
                -1
            }
        } else {
            k
        };
        if k2 < 0 {
            None
        } else {
            let k3 = if k2 < s.len() && (s[k2] == 101 || s[k2] == 69) {
                let e0 = if k2 + 1 < s.len() && (s[k2 + 1] == 43 || s[k2 + 1] == 45) {
                    k2 + 2
                } else {
                    k2 + 1
                };
                if e0 < s.len() && is_digit(s[e0]) {
                    digits_end(s, e0)
                } else {
                    -1
                }
            } else {
                k2
            };
            if k3 < 0 {
                None
            } else {
                Some(k3)
            }
        }
    }
}

/// Index just past the JSON value starting at `i`.
pub open spec fn value_end(s: Seq<u8>, i: int, fuel: nat) -> Option<int>
    decreases fuel,
{
    if fuel == 0 {
        None
    } else if !(0 <= i < s.len()) {
        None
    } else if s[i] == 34 {
        match str_body_end(s, i + 1) {
            Some((c, e)) => Some(e),
            None => None,
        }
    } else if s[i] == 123 {
        object_end(s, i, (fuel - 1) as nat)
    } else if s[i] == 91 {
        array_end(s, i, (fuel - 1) as nat)
    } else if s[i] == 116 {
        if i + 4 <= s.len() && s[i + 1] == 114 && s[i + 2] == 117 && s[i + 3] == 101 {
            Some(i + 4)
        } else {
            None
        }
    } else if s[i] == 102 {
        if i + 5 <= s.len() && s[i + 1] == 97 && s[i + 2] == 108 && s[i + 3] == 115 && s[i + 4]
            == 101 {
            Some(i + 5)
        } else {
            None
        }
    } else if s[i] == 110 {
        if i + 4 <= s.len() && s[i + 1] == 117 && s[i + 2] == 108 && s[i + 3] == 108 {
            Some(i + 4)
        } else {
            None
        }
    } else {
        num_end(s, i)
    }
}

/// Index just past the JSON object starting at `i`.
pub open spec fn object_end(s: Seq<u8>, i: int, fuel: nat) -> Option<int>
    decreases fuel,
{
    if fuel == 0 {
        None
    } else if !(0 <= i < s.len() && s[i] == 123) {
        None
    } else {
        let j = ws_end(s, i + 1);
        if j < s.len() && s[j] == 125 {
            Some(j + 1)
        } else {
            members_end(s, j, (fuel - 1) as nat)
        }
    }
}

/// Index just past a non-empty run of `key : value` members and the
/// closing brace, starting at the first key's quote.
pub open spec fn members_end(s: Seq<u8>, j: int, fuel: nat) -> Option<int>
    decreases fuel,
{
    if fuel == 0 {
        None
    } else if !(0 <= j < s.len() && s[j] == 34) {
        None
    } else {
        match str_body_end(s, j + 1) {
            None => None,
            Some((k, e)) => {
                let c = ws_end(s, e);
                if !(c < s.len() && s[c] == 58) {
                    None
                } else {
                    match value_end(s, ws_end(s, c + 1), (fuel - 1) as nat) {
                        None => None,
                        Some(ve) => {
                            let t = ws_end(s, ve);
                            if t < s.len() && s[t] == 125 {
                                Some(t + 1)
                            } else if t < s.len() && s[t] == 44 {
                                members_end(s, ws_end(s, t + 1), (fuel - 1) as nat)
                            } else {
                                None
                            }
                        },
                    }
                }
            },
        }
    }
}

/// Index just past the JSON array starting at `i`.
pub open spec fn array_end(s: Seq<u8>, i: int, fuel: nat) -> Option<int>
    decreases fuel,
{
    if fuel == 0 {
        None
    } else if !(0 <= i < s.len() && s[i] == 91) {
        None
    } else {
        let j = ws_end(s, i + 1);
        if j < s.len() && s[j] == 93 {
            Some(j + 1)
        } else {
            elements_end(s, j, (fuel - 1) as nat)
        }
    }
}

/// Index just past a non-empty run of array elements and the closing
/// bracket, starting at the first element.
pub open spec fn elements_end(s: Seq<u8>, j: int, fuel: nat) -> Option<int>
    decreases fuel,
{
    if fuel == 0 {
        None
    } else {
        match value_end(s, j, (fuel - 1) as nat) {
            None => None,
            Some(ve) => {
                let t = ws_end(s, ve);
                if t < s.len() && s[t] == 93 {
                    Some(t + 1)
                } else if t < s.len() && s[t] == 44 {
                    elements_end(s, ws_end(s, t + 1), (fuel - 1) as nat)
                } else {
                    None
                }
            },
        }
    }
}

/// Skips whitespace, executably.
#[verifier::loop_isolation(false)]
pub fn skip_ws(s: &[u8], i: usize) -> (r: usize)
    requires
        i <= s@.len(),
    ensures
        r == ws_end(s@, i as int),
        i <= r <= s@.len(),
{
    let n = s.len();
    let mut j: usize = i;
    while j < n && (s[j] == 32 || s[j] == 9 || s[j] == 10 || s[j] == 13)
        invariant
            i <= j <= n,
            ws_end(s@, i as int) == ws_end(s@, j as int),
        decreases n - j,
    {
        j = j + 1;
    }
    j
}

/// Skips a digit run, executably.
#[verifier::loop_isolation(false)]
pub fn skip_digits(s: &[u8], i: usize) -> (r: usize)
    requires
        i <= s@.len(),
    ensures
        r == digits_end(s@, i as int),
        i <= r <= s@.len(),
{
    let n = s.len();
    let mut j: usize = i;
    while j < n && s[j] >= 48 && s[j] <= 57
        invariant
            i <= j <= n,
            digits_end(s@, i as int) == digits_end(s@, j as int),
        decreases n - j,
    {
        j = j + 1;
    }
    j
}

fn is_hex_digit_exec(c: u8) -> (r: bool)
    ensures
        r == is_hex_digit(c),
{
    (c >= 48 && c <= 57) || (c >= 65 && c <= 70) || (c >= 97 && c <= 102)
}

fn hex_val_exec(c: u8) -> (r: usize)
    ensures
        r == hex_digit_val(c),
{
    if c >= 48 && c <= 57 {
        (c - 48) as usize
    } else if c >= 65 && c <= 70 {
        (c - 55) as usize
    } else if c >= 97 && c <= 102 {
        (c - 87) as usize
    } else {
        0
    }
}

fn hex4_exec(s: &[u8], j: usize) -> (v: usize)
    requires
        j + 4 <= s@.len(),
    ensures
        v == hex4(s@, j as int),
        v < 65536,
{
    4096 * hex_val_exec(s[j]) + 256 * hex_val_exec(s[j + 1]) + 16 * hex_val_exec(s[j + 2])
        + hex_val_exec(s[j + 3])
}

fn unicode_escape_exec(s: &[u8], j: usize) -> (r: bool)
    requires
        j <= s@.len(),
    ensures
        r == unicode_escape_at(s@, j as int),
{
    let n = s.len();
    n - j >= 6 && s[j] == 92 && s[j + 1] == 117 && is_hex_digit_exec(s[j + 2]) && is_hex_digit_exec(
        s[j + 3],
    ) && is_hex_digit_exec(s[j + 4]) && is_hex_digit_exec(s[j + 5])
}

fn escape_len_exec(s: &[u8], j: usize) -> (r: usize)
    requires
        j < s@.len(),
    ensures
        r == escape_len(s@, j as int),
        r > 0 ==> j + r <= s@.len(),
{
    let n = s.len();
    if n - j >= 2 && (s[j + 1] == 34 || s[j + 1] == 92 || s[j + 1] == 47 || s[j + 1] == 98 || s[j
        + 1] == 102 || s[j + 1] == 110 || s[j + 1] == 114 || s[j + 1] == 116) {
        return 2;
    }
    if unicode_escape_exec(s, j) {
        let v = hex4_exec(s, j + 2);
        if v < 0xD800 || v > 0xDFFF {
            return 6;
        }
        if v <= 0xDBFF {
            if unicode_escape_exec(s, j + 6) {
                let v2 = hex4_exec(s, j + 8);
                if v2 >= 0xDC00 && v2 <= 0xDFFF {
                    return 12;
                }
            }
            return 0;
        }
        return 0;
    }
    0
}

fn is_utf8_cont_exec(c: u8) -> (r: bool)
    ensures
        r == is_utf8_cont(c),
{
    c >= 128 && c <= 191
}

fn utf8_len_exec(s: &[u8], j: usize) -> (r: usize)
    requires
        j < s@.len(),
    ensures
        r == utf8_len_at(s@, j as int),
        r > 0 ==> j + r <= s@.len(),
{
    let n = s.len();
    let c = s[j];
    if c >= 194 && c <= 223 {
        if n - j >= 2 && is_utf8_cont_exec(s[j + 1]) {
            2
        } else {
            0
        }
    } else if c == 224 {
        if n - j >= 3 && s[j + 1] >= 160 && s[j + 1] <= 191 && is_utf8_cont_exec(s[j + 2]) {
            3
        } else {
            0
        }
    } else if (c >= 225 && c <= 236) || c == 238 || c == 239 {
        if n - j >= 3 && is_utf8_cont_exec(s[j + 1]) && is_utf8_cont_exec(s[j + 2]) {
            3
        } else {
            0
        }
    } else if c == 237 {
        if n - j >= 3 && s[j + 1] >= 128 && s[j + 1] <= 159 && is_utf8_cont_exec(s[j + 2]) {
            3
        } else {
            0
        }
    } else if c == 240 {
        if n - j >= 4 && s[j + 1] >= 144 && s[j + 1] <= 191 && is_utf8_cont_exec(s[j + 2])
            && is_utf8_cont_exec(s[j + 3]) {
            4
        } else {
            0
        }
    } else if c >= 241 && c <= 243 {
        if n - j >= 4 && is_utf8_cont_exec(s[j + 1]) && is_utf8_cont_exec(s[j + 2])
            && is_utf8_cont_exec(s[j + 3]) {
            4
        } else {
            0
        }
    } else if c == 244 {
        if n - j >= 4 && s[j + 1] >= 128 && s[j + 1] <= 143 && is_utf8_cont_exec(s[j + 2])
            && is_utf8_cont_exec(s[j + 3]) {
            4
        } else {
            0
        }
    } else {
        0
    }
}

/// Appends `s[from..to)` to `acc`.
#[verifier::loop_isolation(false)]
fn push_range(acc: &mut Vec<u8>, s: &[u8], from: usize, to: usize)
    requires
        from <= to <= s@.len(),
    ensures
        final(acc)@ == old(acc)@ + s@.subrange(from as int, to as int),
{
    proof {
        assert(old(acc)@ + s@.subrange(from as int, from as int) =~= old(acc)@);
    }
    let mut k: usize = from;
    while k < to
        invariant
            from <= k <= to,
            acc@ == old(acc)@ + s@.subrange(from as int, k as int),
        decreases to - k,
    {
        acc.push(s[k]);
        proof {
            assert(acc@ =~= old(acc)@ + s@.subrange(from as int, k as int + 1));
        }
        k = k + 1;
    }
}

/// Scans a string body from just after its opening quote, returning the
/// raw bytes and the index just past the closing quote.
#[verifier::loop_isolation(false)]
pub fn scan_string(s: &[u8], start: usize) -> (r: Option<(Vec<u8>, usize)>)
    requires
        start <= s@.len(),
    ensures
        match r {
            Some((v, e)) => str_body_end(s@, start as int) == Some((v@, e as int)) && start < e
                <= s@.len(),
            None => str_body_end(s@, start as int) is None,
        },
{
    let n = s.len();
    let mut j: usize = start;
    let mut acc: Vec<u8> = Vec::new();
    loop
        invariant
            start <= j <= n,
            n == s@.len(),
            str_body_end(s@, start as int) == opt_prepend(acc@, str_body_end(s@, j as int)),
        decreases n - j,
    {
        if j >= n {
            return None;
        }
        let c = s[j];
        if c == 34 {
            proof {
                assert(acc@ + Seq::<u8>::empty() =~= acc@);
            }
            return Some((acc, j + 1));
        }
        let l: usize = if c == 92 {
            escape_len_exec(s, j)
        } else if c < 32 {
            0
        } else if c < 128 {
            1
        } else {
            utf8_len_exec(s, j)
        };
        if l == 0 {
            return None;
        }
        let ghost acc0 = acc@;
        proof {
            lemma_prepend_assoc(
                acc0,
                s@.subrange(j as int, j as int + l as int),
                str_body_end(s@, j as int + l as int),
            );
        }
        push_range(&mut acc, s, j, j + l);
        j = j + l;
    }
}

/// Skips a JSON number, executably.
pub fn skip_number(s: &[u8], i: usize) -> (r: Option<usize>)
    requires
        i <= s@.len(),
    ensures
        match r {
            Some(e) => num_end(s@, i as int) == Some(e as int) && i < e <= s@.len(),
            None => num_end(s@, i as int) is None,
        },
{
    let n = s.len();
    let j: usize = if i < n && s[i] == 45 {
        i + 1
    } else {
        i
    };
    if !(j < n && s[j] >= 48 && s[j] <= 57) {
        return None;
    }
    let k: usize = if s[j] == 48 {
        j + 1
    } else {
        assert(digits_end(s@, j as int) == digits_end(s@, j as int + 1));
        skip_digits(s, j + 1)
    };
    assert(k == if s@[j as int] == 48 { j + 1 } else { digits_end(s@, j as int) });
    assert(k > j);
    let k2: usize;
    if k < n && s[k] == 46 {
        if k + 1 < n && s[k + 1] >= 48 && s[k + 1] <= 57 {
            k2 = skip_digits(s, k + 1);
        } else {
            return None;
        }
    } else {
        k2 = k;
    }
    let k3: usize;
    if k2 < n && (s[k2] == 101 || s[k2] == 69) {
        let e0: usize = if k2 + 1 < n && (s[k2 + 1] == 43 || s[k2 + 1] == 45) {
            k2 + 2
        } else {
            k2 + 1
        };
        if e0 < n && s[e0] >= 48 && s[e0] <= 57 {
            k3 = skip_digits(s, e0);
        } else {
            return None;
        }
    } else {
        k3 = k2;
    }
    Some(k3)
}

/// Skips a JSON value, executably.
pub fn skip_value(s: &[u8], i: usize, fuel: u128) -> (r: Option<usize>)
    requires
        i <= s@.len(),
    ensures
        match r {
            Some(e) => value_end(s@, i as int, fuel as nat) == Some(e as int) && i < e <= s@.len(),
            None => value_end(s@, i as int, fuel as nat) is None,
        },
    decreases fuel,
{
    if fuel == 0 {
        return None;
    }
    let n = s.len();
    if i >= n {
        return None;
    }
    let c = s[i];
    if c == 34 {
        match scan_string(s, i + 1) {
            Some((_v, e)) => Some(e),
            None => None,
        }
    } else if c == 123 {
        skip_object(s, i, fuel - 1)
    } else if c == 91 {
        skip_array(s, i, fuel - 1)
    } else if c == 116 {
        if n - i >= 4 && s[i + 1] == 114 && s[i + 2] == 117 && s[i + 3] == 101 {
            Some(i + 4)
        } else {
            None
        }
    } else if c == 102 {
        if n - i >= 5 && s[i + 1] == 97 && s[i + 2] == 108 && s[i + 3] == 115 && s[i + 4] == 101 {
            Some(i + 5)
        } else {
            None
        }
    } else if c == 110 {
        if n - i >= 4 && s[i + 1] == 117 && s[i + 2] == 108 && s[i + 3] == 108 {
            Some(i + 4)
        } else {
            None
        }
    } else {
        skip_number(s, i)
    }
}

/// Skips a JSON object, executably.
pub fn skip_object(s: &[u8], i: usize, fuel: u128) -> (r: Option<usize>)
    requires
        i <= s@.len(),
    ensures
        match r {
            Some(e) => object_end(s@, i as int, fuel as nat) == Some(e as int) && i < e
                <= s@.len(),
            None => object_end(s@, i as int, fuel as nat) is None,
        },
    decreases fuel,
{
    if fuel == 0 {
        return None;
    }
    let n = s.len();
    if !(i < n && s[i] == 123) {
        return None;
    }
    let j = skip_ws(s, i + 1);
    if j < n && s[j] == 125 {
        return Some(j + 1);
    }
    skip_members(s, j, fuel - 1)
}

/// Skips the members of an object from the first key, executably.
pub fn skip_members(s: &[u8], j: usize, fuel: u128) -> (r: Option<usize>)
    requires
        j <= s@.len(),
    ensures
        match r {
            Some(e) => members_end(s@, j as int, fuel as nat) == Some(e as int) && j < e
                <= s@.len(),
            None => members_end(s@, j as int, fuel as nat) is None,
        },
    decreases fuel,
{
    if fuel == 0 {
        return None;
    }
    let n = s.len();
    if !(j < n && s[j] == 34) {
        return None;
    }
    match scan_string(s, j + 1) {
        None => None,
        Some((_k, e)) => {
            let c = skip_ws(s, e);
            if !(c < n && s[c] == 58) {
                return None;
            }
            let v = skip_ws(s, c + 1);
            match skip_value(s, v, fuel - 1) {
                None => None,
                Some(ve) => {
                    let t = skip_ws(s, ve);
                    if t < n && s[t] == 125 {
                        Some(t + 1)
                    } else if t < n && s[t] == 44 {
                        let nj = skip_ws(s, t + 1);
                        skip_members(s, nj, fuel - 1)
                    } else {
                        None
                    }
                },
            }
        },
    }
}

/// Skips a JSON array, executably.
pub fn skip_array(s: &[u8], i: usize, fuel: u128) -> (r: Option<usize>)
    requires
        i <= s@.len(),
    ensures
        match r {
            Some(e) => array_end(s@, i as int, fuel as nat) == Some(e as int) && i < e
                <= s@.len(),
            None => array_end(s@, i as int, fuel as nat) is None,
        },
    decreases fuel,
{
    if fuel == 0 {
        return None;
    }
    let n = s.len();
    if !(i < n && s[i] == 91) {
        return None;
    }
    let j = skip_ws(s, i + 1);
    if j < n && s[j] == 93 {
        return Some(j + 1);
    }
    skip_elements(s, j, fuel - 1)
}

/// Skips the elements of an array from the first element, executably.
pub fn skip_elements(s: &[u8], j: usize, fuel: u128) -> (r: Option<usize>)
    requires
        j <= s@.len(),
    ensures
        match r {
            Some(e) => elements_end(s@, j as int, fuel as nat) == Some(e as int) && j < e
                <= s@.len(),
            None => elements_end(s@, j as int, fuel as nat) is None,
        },
    decreases fuel,
{
    if fuel == 0 {
        return None;
    }
    let n = s.len();
    match skip_value(s, j, fuel - 1) {
        None => None,
        Some(ve) => {
            let t = skip_ws(s, ve);
            if t < n && s[t] == 93 {
                Some(t + 1)
            } else if t < n && s[t] == 44 {
                let nj = skip_ws(s, t + 1);
                skip_elements(s, nj, fuel - 1)
            } else {
                None
            }
        },
    }
}

} // verus!
