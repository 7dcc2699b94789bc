//! Printing of numbers as ASCII text: whole numbers, and fixed-point values
//! in thousandths with zero to three decimals.

use vstd::prelude::*;
use vstd::string::StringSliceAdditionalSpecFns;

verus! {

/// The ASCII digit for `d`, which is below ten.
pub open spec fn digit_byte(d: nat) -> u8 {
    (48 + d) as u8
}

/// `n` in base ten, without leading zeros; zero is written `0`.
pub open spec fn decimal(n: nat) -> Seq<u8>
    decreases n,
{
    if n < 10 {
        seq![digit_byte(n)]
    } else {
        decimal(n / 10).push(digit_byte(n % 10))
    }
}

/// Ten to the power `d`, for `d` up to three.
pub open spec fn pow10(d: nat) -> nat {
    if d == 0 {
        1
    } else if d == 1 {
        10
    } else if d == 2 {
        100
    } else {
        1000
    }
}

/// `v` divided by `step` and rounded to the nearest whole, halves upwards.
pub open spec fn round_div(v: nat, step: nat) -> nat {
    v / step + if 2 * (v % step) >= step {
        1nat
    } else {
        0nat
    }
}

/// A value in thousandths as a multiple of `10^-decimals`, rounded.
pub open spec fn rounded(v: nat, decimals: nat) -> nat {
    round_div(v, pow10((3 - decimals) as nat))
}

/// The `d` digits of `frac`, which is below `10^d`, with leading zeros.
pub open spec fn frac_digits(frac: nat, d: nat) -> Seq<u8> {
    Seq::new(d, |i: int| digit_byte((frac / pow10((d - 1 - i) as nat)) % 10))
}

/// A count `r` of units of `10^-decimals` as text: the whole part, then, if
/// there are decimals (at most three), a point and exactly that many digits.
pub open spec fn scaled_text(r: nat, decimals: nat) -> Seq<u8> {
    let unit = pow10(decimals);
    if decimals == 0 {
        decimal(r)
    } else {
        decimal(r / unit) + seq![46u8] + frac_digits(r % unit, decimals)
    }
}

/// A value in thousandths printed with `decimals` decimals (at most three),
/// rounded to the nearest, halves upwards.
pub open spec fn fixed_text(v: nat, decimals: nat) -> Seq<u8> {
    scaled_text(rounded(v, decimals), decimals)
}

/// A signed value in thousandths printed with `decimals` decimals: a minus
/// sign before the text of a negative value's magnitude.
pub open spec fn signed_fixed_text(v: int, decimals: nat) -> Seq<u8> {
    if v < 0 {
        seq![45u8] + fixed_text((-v) as nat, decimals)
    } else {
        fixed_text(v as nat, decimals)
    }
}

/// `s` with spaces in front until it is `width` long; unchanged if it is
/// that long already.
pub open spec fn padded_left(s: Seq<u8>, width: nat) -> Seq<u8> {
    if s.len() >= width {
        s
    } else {
        Seq::new((width - s.len()) as nat, |i: int| 32u8) + s
    }
}

/// `count` copies of `b`.
pub open spec fn repeated(b: u8, count: nat) -> Seq<u8> {
    Seq::new(count, |i: int| b)
}

/// Decimal text is made of digits, and at least one.
pub proof fn lemma_decimal_digits(n: nat)
    ensures
        decimal(n).len() >= 1,
        forall|i: int| 0 <= i < decimal(n).len() ==> 48 <= #[trigger] decimal(n)[i] <= 57,
    decreases n,
{
    if n >= 10 {
        lemma_decimal_digits(n / 10);
    }
}

/// Appends `s` to `out`.
pub fn push_bytes(out: &mut Vec<u8>, s: &[u8])
    ensures
        final(out)@ == old(out)@ + s@,
{
    let mut i: usize = 0;
    while i < s.len()
        invariant
            i <= s@.len(),
            out@ == old(out)@ + s@.take(i as int),
        decreases s@.len() - i,
    {
        out.push(s[i]);
        assert(s@.take(i + 1) =~= s@.take(i as int).push(s@[i as int]));
        i = i + 1;
    }
    assert(s@.take(s@.len() as int) =~= s@);
}

/// Appends the bytes of `s` to `out`.
pub fn push_str(out: &mut Vec<u8>, s: &str)
    ensures
        final(out)@ == old(out)@ + s.spec_bytes(),
{
    push_bytes(out, s.as_bytes());
}

/// Appends `count` copies of `b` to `out`.
pub fn push_repeated(out: &mut Vec<u8>, b: u8, count: usize)
    ensures
        final(out)@ == old(out)@ + repeated(b, count as nat),
{
    let mut i: usize = 0;
    while i < count
        invariant
            i <= count,
            out@ == old(out)@ + repeated(b, i as nat),
        decreases count - i,
    {
        out.push(b);
        assert(repeated(b, (i + 1) as nat) =~= repeated(b, i as nat).push(b));
        i = i + 1;
    }
}

/// Appends `n` in base ten to `out`.
pub fn push_decimal(out: &mut Vec<u8>, n: u64)
    ensures
        final(out)@ == old(out)@ + decimal(n as nat),
{
    // Digits come out lowest first; they are appended in reverse.
    let mut low_first: Vec<u8> = Vec::new();
    let mut m: u64 = n;
    let mut done: bool = false;
    while !done
        invariant
            !done ==> decimal(n as nat) == decimal(m as nat) + low_first@.reverse(),
            done ==> decimal(n as nat) == low_first@.reverse(),
        decreases
                (if done {
                    0int
                } else {
                    m as int + 1
                }),
    {
        let d: u8 = (m % 10) as u8;
        let ghost before = low_first@;
        low_first.push(48 + d);
        proof {
            assert(low_first@.reverse() =~= seq![digit_byte((m % 10) as nat)] + before.reverse());
            if m >= 10 {
                assert(decimal(m as nat) == decimal((m / 10) as nat).push(
                    digit_byte((m % 10) as nat),
                ));
                assert(decimal((m / 10) as nat).push(digit_byte((m % 10) as nat))
                    + before.reverse() =~= decimal((m / 10) as nat) + low_first@.reverse());
            } else {
                assert(decimal(m as nat) + before.reverse() =~= low_first@.reverse());
            }
        }
        if m < 10 {
            done = true;
        } else {
            m = m / 10;
        }
    }
    let mut i: usize = low_first.len();
    let ghost text = low_first@.reverse();
    while i > 0
        invariant
            i <= low_first@.len(),
            text == low_first@.reverse(),
            out@ == old(out)@ + text.take(low_first@.len() - i),
        decreases i,
    {
        i = i - 1;
        out.push(low_first[i]);
        assert(text.take(low_first@.len() - i) =~= text.take(low_first@.len() - i - 1).push(
            low_first@[i as int],
        ));
    }
    assert(text.take(low_first@.len() as int) =~= text);
}

/// Appends a count `r` of units of `10^-decimals` as text.
pub fn push_scaled(out: &mut Vec<u8>, r: u64, decimals: u8)
    requires
        decimals <= 3,
    ensures
        final(out)@ == old(out)@ + scaled_text(r as nat, decimals as nat),
{
    if decimals == 0 {
        push_decimal(out, r);
        return ;
    }
    let unit: u64 = if decimals == 1 {
        10
    } else if decimals == 2 {
        100
    } else {
        1000
    };
    assert(unit as nat == pow10(decimals as nat));
    let whole: u64 = r / unit;
    let frac: u64 = r % unit;
    push_decimal(out, whole);
    out.push(46);
    let ghost head = old(out)@ + decimal(whole as nat) + seq![46u8];
    let ghost digits = frac_digits(frac as nat, decimals as nat);
    assert(out@ =~= head);
    let mut i: u8 = 0;
    while i < decimals
        invariant
            i <= decimals <= 3,
            frac < 1000,
            digits == frac_digits(frac as nat, decimals as nat),
            out@ == head + digits.take(i as int),
        decreases decimals - i,
    {
        let place: u8 = decimals - 1 - i;
        let p: u64 = if place == 0 {
            1
        } else if place == 1 {
            10
        } else {
            100
        };
        assert(p as nat == pow10(place as nat));
        let d: u8 = ((frac / p) % 10) as u8;
        out.push(48 + d);
        assert(digits[i as int] == digit_byte(((frac as nat) / pow10(place as nat)) % 10));
        assert(digits.take(i + 1) =~= digits.take(i as int).push(digits[i as int]));
        i = i + 1;
    }
    assert(digits.take(decimals as int) =~= digits);
    assert(head + digits =~= old(out)@ + (decimal(whole as nat) + seq![46u8] + digits));
}

/// Appends a value in thousandths, printed with `decimals` decimals.
pub fn push_fixed(out: &mut Vec<u8>, v: u64, decimals: u8)
    requires
        decimals <= 3,
    ensures
        final(out)@ == old(out)@ + fixed_text(v as nat, decimals as nat),
{
    let r: u64 = if decimals == 0 {
        v / 1000 + if 2 * (v % 1000) >= 1000 {
            1u64
        } else {
            0u64
        }
    } else if decimals == 1 {
        v / 100 + if 2 * (v % 100) >= 100 {
            1u64
        } else {
            0u64
        }
    } else if decimals == 2 {
        v / 10 + if 2 * (v % 10) >= 10 {
            1u64
        } else {
            0u64
        }
    } else {
        v
    };
    proof {
        let step = pow10((3 - decimals) as nat);
        assert(step == if decimals == 0 {
            1000nat
        } else if decimals == 1 {
            100nat
        } else if decimals == 2 {
            10nat
        } else {
            1nat
        });
        assert(r as nat == round_div(v as nat, step));
    }
    push_scaled(out, r, decimals);
}

/// Appends a signed value in thousandths, printed with `decimals` decimals.
pub fn push_signed_fixed(out: &mut Vec<u8>, v: i64, decimals: u8)
    requires
        decimals <= 3,
    ensures
        final(out)@ == old(out)@ + signed_fixed_text(v as int, decimals as nat),
{
    if v < 0 {
        out.push(45);
        let magnitude: u64 = (-(v + 1)) as u64 + 1;
        push_fixed(out, magnitude, decimals);
        assert(out@ =~= old(out)@ + (seq![45u8] + fixed_text((-v) as nat, decimals as nat)));
    } else {
        push_fixed(out, v as u64, decimals);
    }
}

/// Appends `s`, with spaces in front of it where it is shorter than `width`.
pub fn push_padded_left(out: &mut Vec<u8>, s: &[u8], width: usize)
    ensures
        final(out)@ == old(out)@ + padded_left(s@, width as nat),
{
    if s.len() < width {
        push_repeated(out, 32, width - s.len());
        push_bytes(out, s);
        assert(repeated(32u8, (width - s@.len()) as nat) =~= Seq::new(
            (width - s@.len()) as nat,
            |i: int| 32u8,
        ));
        assert(out@ =~= old(out)@ + padded_left(s@, width as nat));
    } else {
        push_bytes(out, s);
    }
}

/// The text of a value in thousandths with `decimals` decimals, at least
/// `width` long, spaces in front.
pub fn format_fixed(v: u64, decimals: u8, width: usize) -> (r: Vec<u8>)
    requires
        decimals <= 3,
    ensures
        r@ == padded_left(fixed_text(v as nat, decimals as nat), width as nat),
{
    let mut text: Vec<u8> = Vec::new();
    push_fixed(&mut text, v, decimals);
    let mut r: Vec<u8> = Vec::new();
    push_padded_left(&mut r, text.as_slice(), width);
    assert(text@ =~= fixed_text(v as nat, decimals as nat));
    assert(r@ =~= padded_left(text@, width as nat));
    r
}

/// A byte of a printed number: a digit, the point or the minus sign.
pub open spec fn is_number_byte(b: u8) -> bool {
    (48 <= b <= 57) || b == 46 || b == 45
}

/// `s` is made of digits, points and minus signs only.
pub open spec fn number_text(s: Seq<u8>) -> bool {
    forall|i: int| 0 <= i < s.len() ==> is_number_byte(#[trigger] s[i])
}

/// A printed count holds nothing but digits and at most the point.
pub proof fn lemma_scaled_text_is_number(r: nat, decimals: nat)
    requires
        decimals <= 3,
    ensures
        number_text(scaled_text(r, decimals)),
        scaled_text(r, decimals).len() >= 1,
{
    let unit = pow10(decimals);
    lemma_decimal_digits(r);
    lemma_decimal_digits(r / unit);
    let t = scaled_text(r, decimals);
    if decimals > 0 {
        let whole = decimal(r / unit);
        let frac = frac_digits(r % unit, decimals);
        assert forall|i: int| 0 <= i < t.len() implies is_number_byte(#[trigger] t[i]) by {
            if i < whole.len() {
                assert(t[i] == whole[i]);
            } else if i == whole.len() {
                assert(t[i] == 46u8);
            } else {
                let k = i - whole.len() - 1;
                assert(t[i] == frac[k]);
                let d = ((r % unit) / pow10((decimals - 1 - k) as nat)) % 10;
                assert(frac[k] == digit_byte(d));
                assert(0 <= d < 10);
            }
        }
    }
}

/// A printed value holds nothing but digits, the point and the minus sign.
pub proof fn lemma_fixed_text_is_number(v: int, decimals: nat)
    requires
        decimals <= 3,
    ensures
        v >= 0 ==> number_text(fixed_text(v as nat, decimals)),
        number_text(signed_fixed_text(v, decimals)),
        signed_fixed_text(v, decimals).len() >= 1,
{
    if v >= 0 {
        lemma_scaled_text_is_number(rounded(v as nat, decimals), decimals);
    } else {
        let m = fixed_text((-v) as nat, decimals);
        lemma_scaled_text_is_number(rounded((-v) as nat, decimals), decimals);
        let t = signed_fixed_text(v, decimals);
        assert forall|i: int| 0 <= i < t.len() implies is_number_byte(#[trigger] t[i]) by {
            if i > 0 {
                assert(t[i] == m[i - 1]);
            }
        }
    }
}

} // verus!
