use crate::common::utf8::string_push;
use vstd::prelude::*;

verus! {

/// The character of digit `d` (below 16), upper case beyond 9.
pub open spec fn digit_char(d: nat) -> char {
    if d < 10 {
        ((d + 48) as u8) as char
    } else {
        ((d - 10 + 65) as u8) as char
    }
}

/// `n` written in base `base` (2 to 16), without leading zeros.
pub open spec fn digits_in(n: nat, base: nat) -> Seq<char>
    decreases n,
{
    if base < 2 || n < base {
        seq![digit_char(n)]
    } else {
        proof {
            assert(n / base < n) by (nonlinear_arith)
                requires
                    base >= 2,
                    n >= base,
            ;
        }
        digits_in(n / base, base).push(digit_char(n % base))
    }
}

/// `n` in decimal.
pub open spec fn decimal(n: nat) -> Seq<char> {
    digits_in(n, 10)
}

/// `n` in decimal, with a minus sign when negative.
pub open spec fn signed_decimal(n: int) -> Seq<char> {
    if n < 0 {
        seq!['-'] + decimal((-n) as nat)
    } else {
        decimal(n as nat)
    }
}

/// `n` in upper-case hexadecimal, padded with zeros to `width` digits.
pub open spec fn hex_padded(n: nat, width: nat) -> Seq<char> {
    let h = digits_in(n, 16);
    if h.len() >= width {
        h
    } else {
        Seq::new((width - h.len()) as nat, |i: int| '0') + h
    }
}

/// `count` copies of `c`.
pub open spec fn repeated(c: char, count: nat) -> Seq<char> {
    Seq::new(count, |i: int| c)
}

/// Appends `n` written in base `base`.
pub fn push_digits(s: &mut String, n: u64, base: u64)
    requires
        2 <= base <= 16,
    ensures
        final(s)@ == old(s)@ + digits_in(n as nat, base as nat),
    decreases n,
{
    if n < base {
        string_push(s, digit_of(n));
    } else {
        assert(n / base < n) by (nonlinear_arith)
            requires
                base >= 2,
                n >= base,
        ;
        push_digits(s, n / base, base);
        let ghost mid = s@;
        string_push(s, digit_of(n % base));
        assert(s@ =~= old(s)@ + digits_in(n as nat, base as nat));
    }
}

/// The character of digit `d`.
fn digit_of(d: u64) -> (c: char)
    requires
        d < 16,
    ensures
        c == digit_char(d as nat),
{
    if d < 10 {
        ((d + 48) as u8) as char
    } else {
        ((d - 10 + 65) as u8) as char
    }
}

/// Appends `n` in decimal.
pub fn push_decimal(s: &mut String, n: u64)
    ensures
        final(s)@ == old(s)@ + decimal(n as nat),
{
    push_digits(s, n, 10);
}

/// Appends `n` in decimal, with a minus sign when negative.
pub fn push_signed_decimal(s: &mut String, n: i64)
    ensures
        final(s)@ == old(s)@ + signed_decimal(n as int),
{
    if n < 0 {
        string_push(s, '-');
        let magnitude: u64 = if n == i64::MIN {
            0x8000_0000_0000_0000
        } else {
            (-n) as u64
        };
        let ghost mid = s@;
        push_decimal(s, magnitude);
        assert(s@ =~= old(s)@ + signed_decimal(n as int));
    } else {
        push_decimal(s, n as u64);
    }
}

/// Appends `n` in upper-case hexadecimal, padded with zeros to `width`
/// digits.
pub fn push_hex_padded(s: &mut String, n: u64, width: usize)
    ensures
        final(s)@ == old(s)@ + hex_padded(n as nat, width as nat),
{
    let mut digits = String::new();
    push_digits(&mut digits, n, 16);
    let len = digits_len(n, 16);
    if len < width {
        push_repeated(s, '0', width - len);
    }
    let ghost mid = s@;
    s.append(digits.as_str());
    assert(s@ =~= old(s)@ + hex_padded(n as nat, width as nat));
}

/// The number of digits of `n` in base `base`.
pub fn digits_len(n: u64, base: u64) -> (r: usize)
    requires
        2 <= base <= 16,
    ensures
        r == digits_in(n as nat, base as nat).len(),
        r <= 64,
    decreases n,
{
    if n < base {
        1
    } else {
        assert(n / base < n) by (nonlinear_arith)
            requires
                base >= 2,
                n >= base,
        ;
        let r = digits_len(n / base, base);
        proof {
            lemma_digits_len_u64(n as nat, base as nat);
        }
        r + 1
    }
}

/// A `u64` has at most 64 digits in any base from 2 on, at most twenty in
/// decimal and at most sixteen in hexadecimal.
pub proof fn lemma_digits_len_u64(n: nat, base: nat)
    requires
        n <= u64::MAX,
        2 <= base,
    ensures
        digits_in(n, base).len() <= 64,
        base == 10 ==> digits_in(n, base).len() <= 20,
        base == 16 ==> digits_in(n, base).len() <= 16,
{
    assert(power(2, 64) == 0x1_0000_0000_0000_0000) by {
        reveal_with_fuel(power, 65);
    }
    assert(power(base, 64) >= power(2, 64)) by {
        lemma_power_monotone(2, base, 64);
    }
    lemma_digits_bound(n, base, 64);
    if base == 10 {
        assert(power(10, 20) == 100_000_000_000_000_000_000) by {
            reveal_with_fuel(power, 21);
        }
        lemma_digits_bound(n, base, 20);
    }
    if base == 16 {
        assert(power(16, 16) == 0x1_0000_0000_0000_0000) by {
            reveal_with_fuel(power, 17);
        }
        lemma_digits_bound(n, base, 16);
    }
}

/// `base^k`.
pub open spec fn power(base: nat, k: nat) -> nat
    decreases k,
{
    if k == 0 {
        1
    } else {
        base * power(base, (k - 1) as nat)
    }
}

/// A larger base gives a larger power.
proof fn lemma_power_monotone(a: nat, b: nat, k: nat)
    requires
        a <= b,
    ensures
        power(a, k) <= power(b, k),
    decreases k,
{
    if k > 0 {
        lemma_power_monotone(a, b, (k - 1) as nat);
        let pa = power(a, (k - 1) as nat);
        let pb = power(b, (k - 1) as nat);
        assert(a * pa <= b * pb) by (nonlinear_arith)
            requires
                a <= b,
                pa <= pb,
        ;
    }
}

/// A number below `base^k` has at most `k` digits in base `base`.
proof fn lemma_digits_bound(n: nat, base: nat, k: nat)
    requires
        2 <= base,
        k >= 1,
        n < power(base, k),
    ensures
        digits_in(n, base).len() <= k,
    decreases n,
{
    if n >= base {
        assert(k >= 2) by {
            if k < 2 {
                assert(power(base, 1) == base) by {
                    reveal_with_fuel(power, 2);
                }
            }
        }
        let p = power(base, (k - 1) as nat);
        assert(n / base < p) by (nonlinear_arith)
            requires
                n < base * p,
                base >= 2,
        ;
        assert(n / base < n) by (nonlinear_arith)
            requires
                base >= 2,
                n >= base,
        ;
        lemma_digits_bound(n / base, base, (k - 1) as nat);
    }
}

/// Appends `count` copies of `c`.
pub fn push_repeated(s: &mut String, c: char, count: usize)
    ensures
        final(s)@ == old(s)@ + repeated(c, count as nat),
{
    let mut i: usize = 0;
    while i < count
        invariant
            i <= count,
            s@ == old(s)@ + repeated(c, i as nat),
        decreases count - i,
    {
        string_push(s, c);
        i = i + 1;
        assert(s@ =~= old(s)@ + repeated(c, i as nat));
    }
}

} // verus!
