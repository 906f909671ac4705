//! Fixed-point rendering of byte counts, and UTF-8 byte lengths.
//!
//! Sizes are shown the way `format!("{:.1}", n as f64 / unit)` shows them. The
//! conversion to `f64` and the rounding to a fixed number of places are stated
//! here in integer arithmetic, so the results are exact for every input.

use vstd::prelude::*;
use vstd::utf8::*;
use crate::text::{decimal, pad_left, push_decimal, push_padded, to_chars};

verus! {

/// `2^k`.
pub open spec fn two_pow(k: nat) -> nat
    decreases k,
{
    if k == 0 {
        1
    } else {
        2 * two_pow((k - 1) as nat)
    }
}

/// `10^k`.
pub open spec fn ten_pow(k: nat) -> nat
    decreases k,
{
    if k == 0 {
        1
    } else {
        10 * ten_pow((k - 1) as nat)
    }
}

/// Integers below this are exactly representable as `f64`.
pub open spec fn f64_exact_limit() -> nat {
    0x20000000000000
}

/// How many low bits of `n` an `f64` cannot hold (its significand has 53 bits).
pub open spec fn excess_bits(n: nat) -> nat
    decreases n,
{
    if n < f64_exact_limit() {
        0
    } else {
        1 + excess_bits(n / 2)
    }
}

/// `num / den` rounded to the nearest integer, ties to the even one.
pub open spec fn round_half_even(num: nat, den: nat) -> nat {
    let q = num / den;
    let r = num % den;
    if 2 * r > den || (2 * r == den && q % 2 == 1) {
        q + 1
    } else {
        q
    }
}

/// The value of `n as f64`: `n` rounded to 53 significant bits, ties to even.
pub open spec fn as_f64(n: nat) -> nat {
    let unit = two_pow(excess_bits(n));
    round_half_even(n, unit) * unit
}

/// `num / den` written with exactly `places` decimals, rounded half to even,
/// as `{:.places}` prints the exact quotient.
pub open spec fn fixed_point(num: nat, den: nat, places: nat) -> Seq<char> {
    let scaled = round_half_even(num * ten_pow(places), den);
    let whole = decimal(scaled / ten_pow(places));
    if places == 0 {
        whole
    } else {
        whole + seq!['.'] + pad_left(decimal(scaled % ten_pow(places)), places, '0')
    }
}

/// Rounds `num / den` half to even.
fn round_ratio(num: u128, den: u128) -> (q: u128)
    requires
        den > 0,
        num < 0x1_0000_0000_0000_0000_0000_0000_0000_0000 - 1,
    ensures
        q as nat == round_half_even(num as nat, den as nat),
        q as nat <= num as nat + 1,
{
    let q = num / den;
    let r = num % den;
    assert(q <= num) by (nonlinear_arith)
        requires
            den > 0,
            q == num / den,
    ;
    if r > den - r || (r == den - r && q % 2 == 1) {
        q + 1
    } else {
        q
    }
}

/// The value `n as f64` holds, as an integer.
pub fn f64_value(n: u64) -> (v: u128)
    ensures
        v as nat == as_f64(n as nat),
        v <= 2 * (n as nat) + 1,
{
    let mut m: u64 = n;
    let mut unit: u128 = 1;
    let ghost mut k: nat = 0;
    assert(n as nat / 1 == n) by (nonlinear_arith);
    while m >= 0x20000000000000
        invariant
            unit as nat == two_pow(k),
            unit >= 1,
            unit == 1 || unit <= n as nat,
            m as nat == (n as nat) / (unit as nat),
            excess_bits(n as nat) == k + excess_bits(m as nat),
        decreases m,
    {
        proof {
            vstd::arithmetic::div_mod::lemma_div_denominator(n as int, unit as int, 2);
            assert(unit * 2 <= n as nat) by (nonlinear_arith)
                requires
                    m as nat == (n as nat) / (unit as nat),
                    m >= 2,
                    unit >= 1,
            ;
        }
        m = m / 2;
        unit = unit * 2;
        proof {
            k = k + 1;
        }
    }
    let q = (n as u128) / unit;
    let r = (n as u128) % unit;
    proof {
        assert(q * unit + r == n as u128) by (nonlinear_arith)
            requires
                unit >= 1,
                q == (n as u128) / unit,
                r == (n as u128) % unit,
        ;
        assert(q * unit <= n) by (nonlinear_arith)
            requires
                unit >= 1,
                q == (n as u128) / unit,
        ;
    }
    let rounded = round_ratio(n as u128, unit);
    proof {
        assert(rounded * unit <= 2 * (n as nat) + 1) by (nonlinear_arith)
            requires
                rounded <= q + 1,
                q * unit <= n,
                unit == 1 || unit <= n,
        ;
    }
    rounded * unit
}

fn ten_pow_exec(places: u32) -> (p: u128)
    requires
        places <= 2,
    ensures
        p as nat == ten_pow(places as nat),
        1 <= p <= 100,
{
    if places == 0 {
        1
    } else if places == 1 {
        assert(ten_pow(1) == 10 * ten_pow(0));
        10
    } else {
        assert(ten_pow(1) == 10 * ten_pow(0));
        assert(ten_pow(2) == 10 * ten_pow(1));
        100
    }
}

/// Appends `num / den` written with `places` decimals, rounded half to even.
pub fn push_fixed_point(s: &mut String, num: u128, den: u128, places: u32)
    requires
        den > 0,
        places <= 2,
        num <= 0x1_0000_0000_0000_0000_0000_0000,
    ensures
        final(s)@ == old(s)@ + fixed_point(num as nat, den as nat, places as nat),
{
    let ghost start = s@;
    let p = ten_pow_exec(places);
    assert(num * p <= 100 * 0x1_0000_0000_0000_0000_0000_0000) by (nonlinear_arith)
        requires
            p <= 100,
            num <= 0x1_0000_0000_0000_0000_0000_0000,
    ;
    let scaled = round_ratio(num * p, den);
    push_decimal(s, scaled / p);
    if places > 0 {
        s.push('.');
        push_padded(s, scaled % p, 10, places as usize);
    }
    assert(s@ =~= start + fixed_point(num as nat, den as nat, places as nat));
}

// ---------------------------------------------------------------------------
// UTF-8 byte lengths
// ---------------------------------------------------------------------------

/// How many bytes `s` takes in UTF-8; what `str::len` returns.
pub open spec fn utf8_len(s: Seq<char>) -> nat {
    encode_utf8(s).len()
}

/// How many bytes `c` takes in UTF-8.
pub open spec fn char_width(c: char) -> nat {
    encode_scalar(c as u32).len()
}

/// Encoding a concatenation encodes each part.
pub proof fn lemma_encode_utf8_concat(a: Seq<char>, b: Seq<char>)
    ensures
        encode_utf8(a + b) == encode_utf8(a) + encode_utf8(b),
    decreases a.len(),
{
    if a.len() == 0 {
        assert(a + b =~= b);
    } else {
        lemma_encode_utf8_concat(a.drop_first(), b);
        assert((a + b).drop_first() =~= a.drop_first() + b);
        assert(encode_utf8(a + b) =~= encode_utf8(a) + encode_utf8(b));
    }
}

/// The byte length of a concatenation is the sum of the byte lengths.
pub proof fn lemma_utf8_len_concat(a: Seq<char>, b: Seq<char>)
    ensures
        utf8_len(a + b) == utf8_len(a) + utf8_len(b),
{
    lemma_encode_utf8_concat(a, b);
}

/// Appending one character adds its width.
pub proof fn lemma_utf8_len_push(a: Seq<char>, c: char)
    ensures
        utf8_len(a.push(c)) == utf8_len(a) + char_width(c),
{
    lemma_encode_utf8_concat(a, seq![c]);
    assert(a + seq![c] =~= a.push(c));
    assert(seq![c].drop_first() =~= Seq::<char>::empty());
    assert(encode_utf8(seq![c]) == encode_scalar(c as u32) + encode_utf8(Seq::<char>::empty()));
    assert(encode_utf8(seq![c]) =~= encode_scalar(c as u32));
}

/// Each ASCII character takes one byte.
pub proof fn lemma_utf8_len_ascii(s: Seq<char>)
    requires
        forall|i: int| 0 <= i < s.len() ==> (s[i] as u32) < 0x80,
    ensures
        utf8_len(s) == s.len(),
    decreases s.len(),
{
    if s.len() > 0 {
        lemma_utf8_len_ascii(s.drop_first());
    }
}

/// The UTF-8 width of `c`.
pub fn char_width_exec(c: char) -> (w: usize)
    ensures
        w as nat == char_width(c),
        1 <= w <= 4,
{
    let u = c as u32;
    proof {
        vstd::utf8::char_is_scalar(c);
    }
    if u <= 0x7f {
        1
    } else if u <= 0x7ff {
        2
    } else if u <= 0xffff {
        3
    } else {
        4
    }
}

/// The UTF-8 byte length of `s`, or `cap` when it is longer than that.
pub fn utf8_len_capped(s: &str, cap: usize) -> (n: usize)
    ensures
        n as nat == if utf8_len(s@) < cap { utf8_len(s@) } else { cap as nat },
{
    let v = to_chars(s);
    let mut n: usize = 0;
    let mut i: usize = 0;
    while i < v.len()
        invariant
            i <= v@.len(),
            v@ == s@,
            n <= cap,
            n as nat == if utf8_len(v@.take(i as int)) < cap {
                utf8_len(v@.take(i as int))
            } else {
                cap as nat
            },
        decreases v@.len() - i,
    {
        let w = char_width_exec(v[i]);
        proof {
            assert(v@.take(i + 1) == v@.take(i as int).push(v@[i as int]));
            lemma_utf8_len_push(v@.take(i as int), v@[i as int]);
        }
        if n < cap {
            if w >= cap - n {
                n = cap;
            } else {
                n = n + w;
            }
        }
        i = i + 1;
    }
    assert(v@.take(v@.len() as int) == v@);
    n
}

} // verus!
