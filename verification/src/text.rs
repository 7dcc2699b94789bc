//! Decimal numbers in ASCII text: parsing and printing.

use vstd::prelude::*;

verus! {

/// ASCII digit.
pub open spec fn is_digit(b: u8) -> bool {
    48 <= b <= 57
}

/// White space: space, tab, line feed, vertical tab, form feed, carriage
/// return.
pub open spec fn is_space(b: u8) -> bool {
    b == 32 || (9 <= b <= 13)
}

/// Every byte of `s` is a digit.
pub open spec fn all_digits(s: Seq<u8>) -> bool {
    forall|i: int| 0 <= i < s.len() ==> is_digit(#[trigger] s[i])
}

/// The number that a run of digits writes in base ten.
pub open spec fn digits_value(s: Seq<u8>) -> nat
    decreases s.len(),
{
    if s.len() == 0 {
        0
    } else {
        digits_value(s.drop_last()) * 10 + (s.last() - 48) as nat
    }
}

/// `s` without one leading plus sign.
pub open spec fn unsigned_body(s: Seq<u8>) -> Seq<u8> {
    if s.len() > 0 && s[0] == 43 {
        s.skip(1)
    } else {
        s
    }
}

/// An unsigned decimal: an optional plus sign and at least one digit, with a
/// value that fits in 64 bits. Anything else is no number.
pub open spec fn parse_u64_spec(s: Seq<u8>) -> Option<u64> {
    let body = unsigned_body(s);
    if body.len() > 0 && all_digits(body) && digits_value(body) <= u64::MAX {
        Some(digits_value(body) as u64)
    } else {
        None
    }
}

/// Whether `s` starts with a minus sign.
pub open spec fn is_negative(s: Seq<u8>) -> bool {
    s.len() > 0 && s[0] == 45
}

/// `s` without one leading sign.
pub open spec fn signed_body(s: Seq<u8>) -> Seq<u8> {
    if s.len() > 0 && (s[0] == 43 || s[0] == 45) {
        s.skip(1)
    } else {
        s
    }
}

/// A signed decimal: an optional sign and at least one digit, with a value
/// that fits in 64 bits. Anything else is no number.
pub open spec fn parse_i64_spec(s: Seq<u8>) -> Option<i64> {
    let body = signed_body(s);
    let v = if is_negative(s) {
        -(digits_value(body) as int)
    } else {
        digits_value(body) as int
    };
    if body.len() > 0 && all_digits(body) && i64::MIN <= v <= i64::MAX {
        Some(v as i64)
    } else {
        None
    }
}

/// A longer run of digits never writes a smaller number than its prefix.
pub proof fn lemma_digits_value_prefix(s: Seq<u8>, k: int)
    requires
        0 <= k <= s.len(),
        all_digits(s),
    ensures
        digits_value(s.take(k)) <= digits_value(s),
    decreases s.len() - k,
{
    if k == s.len() {
        assert(s.take(k) =~= s);
    } else {
        lemma_digits_value_prefix(s, k + 1);
        assert(s.take(k + 1).drop_last() =~= s.take(k));
        assert(is_digit(s[k]));
    }
}

/// Whether `b` is an ASCII digit.
pub fn byte_is_digit(b: u8) -> (r: bool)
    ensures
        r == is_digit(b),
{
    48 <= b && b <= 57
}

/// Whether `b` is white space.
pub fn byte_is_space(b: u8) -> (r: bool)
    ensures
        r == is_space(b),
{
    b == 32 || (9 <= b && b <= 13)
}

/// Reads the digits `s[from..]` as a number; `None` if there is none, if a
/// byte is no digit, or if the number does not fit.
pub fn parse_digits(s: &[u8], from: usize) -> (r: Option<u64>)
    requires
        from <= s@.len(),
    ensures
        r == (if s@.skip(from as int).len() > 0 && all_digits(s@.skip(from as int))
            && digits_value(s@.skip(from as int)) <= u64::MAX {
            Some(digits_value(s@.skip(from as int)) as u64)
        } else {
            None
        }),
{
    if from == s.len() {
        return None;
    }
    assert(s@.skip(from as int) =~= s@.subrange(from as int, s@.len() as int));
    digit_run(s, from, s.len())
}

/// Reads an unsigned decimal: an optional plus sign, then digits only.
pub fn parse_u64(s: &[u8]) -> (r: Option<u64>)
    ensures
        r == parse_u64_spec(s@),
{
    let from: usize = if s.len() > 0 && s[0] == 43 {
        1
    } else {
        0
    };
    assert(s@.skip(from as int) =~= unsigned_body(s@));
    parse_digits(s, from)
}

/// Reads a signed decimal: an optional sign, then digits only.
pub fn parse_i64(s: &[u8]) -> (r: Option<i64>)
    ensures
        r == parse_i64_spec(s@),
{
    let neg: bool = s.len() > 0 && s[0] == 45;
    let from: usize = if s.len() > 0 && (s[0] == 43 || s[0] == 45) {
        1
    } else {
        0
    };
    let ghost body = s@.skip(from as int);
    assert(body =~= signed_body(s@));
    if from == s.len() {
        return None;
    }
    // Accumulate towards the sign, so that the least value is reached.
    let mut acc: i64 = 0;
    let mut i: usize = from;
    while i < s.len()
        invariant
            from <= i <= s@.len(),
            body == s@.skip(from as int),
            body == signed_body(s@),
            neg == is_negative(s@),
            all_digits(body.take(i - from)),
            acc as int == if neg {
                -(digits_value(body.take(i - from)) as int)
            } else {
                digits_value(body.take(i - from)) as int
            },
        decreases s@.len() - i,
    {
        let b: u8 = s[i];
        let ghost k = i - from;
        assert(body[k] == b);
        assert(body.take(k + 1).drop_last() =~= body.take(k));
        if !byte_is_digit(b) {
            assert(!is_digit(body[k]));
            return None;
        }
        let d: i64 = (b - 48) as i64;
        assert(all_digits(body.take(k + 1))) by {
            assert forall|j: int| 0 <= j < k + 1 implies is_digit(#[trigger] body.take(k + 1)[j]) by {
                if j < k {
                    assert(body.take(k)[j] == body.take(k + 1)[j]);
                }
            }
        }
        let next: Option<i64> = match acc.checked_mul(10) {
            Some(t) => if neg {
                t.checked_sub(d)
            } else {
                t.checked_add(d)
            },
            None => None,
        };
        match next {
            Some(n) => {
                acc = n;
            },
            None => {
                proof {
                    if all_digits(body) {
                        lemma_digits_value_prefix(body, k + 1);
                    }
                }
                return None;
            },
        }
        i = i + 1;
    }
    assert(body.take(i - from) =~= body);
    Some(acc)
}

/// Index of the first point at or after `i`, or the length of `s`.
pub open spec fn first_point(s: Seq<u8>, i: int) -> int
    decreases s.len() - i,
{
    if 0 <= i < s.len() && s[i] != 46 {
        first_point(s, i + 1)
    } else {
        i
    }
}

/// The `i`-th digit of a fraction, zero beyond its end.
pub open spec fn frac_digit(f: Seq<u8>, i: int) -> nat {
    if i < f.len() {
        (f[i] - 48) as nat
    } else {
        0
    }
}

/// Thousandths that the digits after the point stand for; digits beyond the
/// third are dropped.
pub open spec fn frac_milli(f: Seq<u8>) -> nat {
    frac_digit(f, 0) * 100 + frac_digit(f, 1) * 10 + frac_digit(f, 2)
}

/// The digits before the point of an unsigned decimal.
pub open spec fn whole_part(body: Seq<u8>) -> Seq<u8> {
    body.subrange(0, first_point(body, 0))
}

/// The digits after the first point of an unsigned decimal; empty if there
/// is no point.
pub open spec fn frac_part(body: Seq<u8>) -> Seq<u8> {
    let p = first_point(body, 0);
    if p < body.len() {
        body.subrange(p + 1, body.len() as int)
    } else {
        Seq::empty()
    }
}

/// A decimal number in thousandths: an optional sign, digits, and
/// optionally a point and more digits, with at least one digit in all and a
/// result that fits in 64 bits. Decimals beyond the third are dropped.
/// Anything else, an exponent or a name among it, is no number.
pub open spec fn parse_milli_spec(s: Seq<u8>) -> Option<i64> {
    let body = signed_body(s);
    let whole = whole_part(body);
    let frac = frac_part(body);
    let mag = digits_value(whole) * 1000 + frac_milli(frac);
    let v = if is_negative(s) {
        -(mag as int)
    } else {
        mag as int
    };
    if whole.len() + frac.len() > 0 && all_digits(whole) && all_digits(frac) && i64::MIN <= v
        <= i64::MAX {
        Some(v as i64)
    } else {
        None
    }
}

/// Reads the digits `s[from..to]` as a number: zero if there are none;
/// `None` if a byte is no digit or the number does not fit.
pub fn digit_run(s: &[u8], from: usize, to: usize) -> (r: Option<u64>)
    requires
        from <= to <= s@.len(),
    ensures
        r == (if all_digits(s@.subrange(from as int, to as int)) && digits_value(
            s@.subrange(from as int, to as int),
        ) <= u64::MAX {
            Some(digits_value(s@.subrange(from as int, to as int)) as u64)
        } else {
            None
        }),
{
    let ghost body = s@.subrange(from as int, to as int);
    let mut acc: u64 = 0;
    let mut i: usize = from;
    while i < to
        invariant
            from <= i <= to <= s@.len(),
            body == s@.subrange(from as int, to as int),
            all_digits(body.take(i - from)),
            acc as nat == digits_value(body.take(i - from)),
        decreases to - i,
    {
        let b: u8 = s[i];
        let ghost k = i - from;
        assert(body[k] == b);
        assert(body.take(k + 1).drop_last() =~= body.take(k));
        if !byte_is_digit(b) {
            return None;
        }
        let d: u64 = (b - 48) as u64;
        assert(all_digits(body.take(k + 1))) by {
            assert forall|j: int| 0 <= j < k + 1 implies is_digit(#[trigger] body.take(k + 1)[j]) by {
                if j < k {
                    assert(body.take(k)[j] == body.take(k + 1)[j]);
                }
            }
        }
        let next: Option<u64> = match acc.checked_mul(10) {
            Some(t) => t.checked_add(d),
            None => None,
        };
        match next {
            Some(n) => {
                acc = n;
            },
            None => {
                proof {
                    assert(digits_value(body.take(k + 1)) > u64::MAX);
                    if all_digits(body) {
                        lemma_digits_value_prefix(body, k + 1);
                    }
                }
                return None;
            },
        }
        i = i + 1;
    }
    assert(body.take(to - from) =~= body);
    Some(acc)
}

/// Reads a decimal number as thousandths: `"0.52"` is 520, `"-3"` is -3000.
pub fn parse_milli(s: &[u8]) -> (r: Option<i64>)
    ensures
        r == parse_milli_spec(s@),
{
    let len: usize = s.len();
    let neg: bool = len > 0 && s[0] == 45;
    let from: usize = if len > 0 && (s[0] == 43 || s[0] == 45) {
        1
    } else {
        0
    };
    let ghost body = s@.skip(from as int);
    assert(body =~= signed_body(s@));
    let mut p: usize = from;
    while p < len && s[p] != 46
        invariant
            from <= p <= len,
            len == s@.len(),
            body == s@.skip(from as int),
            first_point(body, 0) == first_point(body, p - from),
        decreases len - p,
    {
        assert(body[p - from] == s@[p as int]);
        p = p + 1;
    }
    proof {
        if p < len {
            assert(body[p - from] == s@[p as int]);
        }
        assert(first_point(body, 0) == p - from);
        assert(s@.subrange(from as int, p as int) =~= whole_part(body));
    }
    let frac_from: usize = if p < len {
        p + 1
    } else {
        len
    };
    let ghost frac = frac_part(body);
    assert(s@.subrange(frac_from as int, len as int) =~= frac);
    if p - from + (len - frac_from) == 0 {
        return None;
    }
    let mut j: usize = frac_from;
    let mut fm: u64 = 0;
    while j < len
        invariant
            frac_from <= j <= len,
            len == s@.len(),
            frac == s@.subrange(frac_from as int, len as int),
            frac == frac_part(signed_body(s@)),
            all_digits(frac.take(j - frac_from)),
            fm as nat == frac_digit(frac.take(j - frac_from), 0) * 100 + frac_digit(
                frac.take(j - frac_from),
                1,
            ) * 10 + frac_digit(frac.take(j - frac_from), 2),
            fm <= 999,
        decreases len - j,
    {
        let b: u8 = s[j];
        let ghost k = j - frac_from;
        assert(frac[k] == b);
        if !byte_is_digit(b) {
            assert(!is_digit(frac[k]));
            return None;
        }
        let ghost t0 = frac.take(k);
        let ghost t1 = frac.take(k + 1);
        assert(all_digits(t1)) by {
            assert forall|i: int| 0 <= i < k + 1 implies is_digit(#[trigger] t1[i]) by {
                if i < k {
                    assert(t0[i] == t1[i]);
                }
            }
        }
        assert(forall|i: int| 0 <= i < k ==> frac_digit(t0, i) == frac_digit(t1, i));
        assert(forall|i: int| i >= k ==> frac_digit(t0, i) == 0);
        assert(frac_digit(t1, k) == (b - 48) as nat);
        assert(forall|i: int| i > k ==> frac_digit(t1, i) == 0);
        let d: u64 = (b - 48) as u64;
        let place: usize = j - frac_from;
        if place == 0 {
            fm = fm + d * 100;
        } else if place == 1 {
            fm = fm + d * 10;
        } else if place == 2 {
            fm = fm + d;
        }
        j = j + 1;
    }
    assert(frac.take(len - frac_from) =~= frac);
    let whole: Option<u64> = digit_run(s, from, p);
    let mag: Option<u64> = match whole {
        Some(w) => match w.checked_mul(1000) {
            Some(t) => t.checked_add(fm),
            None => None,
        },
        None => None,
    };
    match mag {
        Some(m) => {
            if neg {
                if m > 9_223_372_036_854_775_808 {
                    None
                } else if m == 9_223_372_036_854_775_808 {
                    Some(i64::MIN)
                } else {
                    Some(-(m as i64))
                }
            } else {
                if m > 9_223_372_036_854_775_807 {
                    None
                } else {
                    Some(m as i64)
                }
            }
        },
        None => None,
    }
}

} // verus!
