//! Double-precision rounding of exact fractions, computed with integers: the
//! value that converting two integers to binary64 and dividing them yields,
//! and its rendering to one decimal.
use vstd::prelude::*;
use vstd::arithmetic::power2::{
    pow2,
    lemma_pow2_adds,
    lemma_pow2_pos,
    lemma_pow2_strictly_increases,
    lemma_pow2_unfold,
    lemma2_to64,
    lemma2_to64_rest,
};
use crate::text::{round_half_even, rounded_quotient, tenths, tenths_text};

verus! {

/// Least significand of a normal binary64 number, `2^52`.
pub open spec fn sig_low() -> nat {
    0x10_0000_0000_0000
}

/// Bound above the significands of binary64 numbers, `2^53`.
pub open spec fn sig_high() -> nat {
    0x20_0000_0000_0000
}

/// The fraction `a / b` scaled by `2^s`, as a numerator and a denominator.
pub open spec fn scaled(a: nat, b: nat, s: int) -> (nat, nat) {
    if s >= 0 {
        (a * pow2(s as nat), b)
    } else {
        (a, b * pow2((-s) as nat))
    }
}

/// `2^s` brings `a / b` into the significand range `[2^52, 2^53)`.
pub open spec fn normalizes(a: nat, b: nat, s: int) -> bool {
    let (x, y) = scaled(a, b, s);
    sig_low() * y <= x && x < sig_high() * y
}

/// The positive fraction `a / b` rounded to binary64: significand `m` and
/// exponent `e` of the value `m * 2^e`, the significand rounded to the
/// nearest integer, an exact half to the even one.
pub open spec fn binary64(a: nat, b: nat) -> (nat, int) {
    let s = choose|s: int| normalizes(a, b, s);
    let (x, y) = scaled(a, b, s);
    (round_half_even(x, y), -s)
}

/// The quotient of two positive integers as binary64 arithmetic computes it:
/// each converted to binary64, then divided, the quotient rounded again.
pub open spec fn binary64_quotient(num: nat, den: nat) -> (nat, int) {
    let (m1, e1) = binary64(num, 1);
    let (m2, e2) = binary64(den, 1);
    let (m, e) = binary64(m1, m2);
    (m, e + e1 - e2)
}

/// The value `m * 2^e` rendered with one decimal, rounded to the nearest
/// tenth, an exact half to the even tenth.
pub open spec fn binary_tenths(m: nat, e: int) -> Seq<char> {
    if e >= 0 {
        tenths(10 * m * pow2(e as nat), 1)
    } else {
        tenths(10 * m, pow2((-e) as nat))
    }
}

proof fn lemma_pow2_le(e1: nat, e2: nat)
    requires
        e1 <= e2,
    ensures
        pow2(e1) <= pow2(e2),
{
    if e1 < e2 {
        lemma_pow2_strictly_increases(e1, e2);
    }
}

proof fn lemma_pow2_lt_inv(e: nat, k: nat)
    requires
        pow2(e) < pow2(k),
    ensures
        e < k,
{
    if e >= k {
        lemma_pow2_le(k, e);
    }
}

proof fn lemma_pow2_values()
    ensures
        pow2(0) == 1,
        pow2(12) == 0x1000,
        pow2(52) == 0x10_0000_0000_0000,
        pow2(53) == 0x20_0000_0000_0000,
        pow2(54) == 0x40_0000_0000_0000,
        pow2(63) == 0x8000_0000_0000_0000,
        pow2(64) == 0x1_0000_0000_0000_0000,
        pow2(116) == 0x10_0000_0000_0000_0000_0000_0000_0000,
        pow2(119) == 0x80_0000_0000_0000_0000_0000_0000_0000,
{
    lemma2_to64();
    lemma2_to64_rest();
    lemma_pow2_adds(64, 52);
    lemma_pow2_adds(64, 55);
}

/// Scaling by `2^s2` is scaling by `2^s1` and then by `2^(s2 - s1)`.
proof fn lemma_scaled_ratio(a: nat, b: nat, s1: int, s2: int)
    requires
        s1 < s2,
    ensures
        scaled(a, b, s2).0 * scaled(a, b, s1).1 == scaled(a, b, s1).0 * scaled(a, b, s2).1
            * pow2((s2 - s1) as nat),
{
    let k = (s2 - s1) as nat;
    if s1 >= 0 {
        lemma_pow2_adds(s1 as nat, k);
        assert(a * pow2(s2 as nat) * b == a * pow2(s1 as nat) * b * pow2(k)) by (nonlinear_arith)
            requires
                pow2(s2 as nat) == pow2(s1 as nat) * pow2(k),
        ;
    } else if s2 >= 0 {
        lemma_pow2_adds(s2 as nat, (-s1) as nat);
        assert(a * pow2(s2 as nat) * (b * pow2((-s1) as nat)) == a * b * pow2(k)) by (
        nonlinear_arith)
            requires
                pow2(k) == pow2(s2 as nat) * pow2((-s1) as nat),
        ;
    } else {
        lemma_pow2_adds((-s2) as nat, k);
        assert(a * (b * pow2((-s1) as nat)) == a * (b * pow2((-s2) as nat)) * pow2(k)) by (
        nonlinear_arith)
            requires
                pow2((-s1) as nat) == pow2((-s2) as nat) * pow2(k),
        ;
    }
}

/// At most one power of two brings a positive fraction into the
/// significand range.
proof fn lemma_normalizes_unique(a: nat, b: nat, s1: int, s2: int)
    requires
        b > 0,
        normalizes(a, b, s1),
        normalizes(a, b, s2),
    ensures
        s1 == s2,
{
    if s1 != s2 {
        let (lo, hi) = if s1 < s2 {
            (s1, s2)
        } else {
            (s2, s1)
        };
        lemma_scaled_ratio(a, b, lo, hi);
        let (x1, y1) = scaled(a, b, lo);
        let (x2, y2) = scaled(a, b, hi);
        let k = (hi - lo) as nat;
        lemma_pow2_le(1, k);
        lemma_pow2_unfold(1);
        lemma_pow2_pos(0);
        lemma_pow2_pos((-lo) as nat);
        lemma_pow2_pos((-hi) as nat);
        assert(y1 > 0 && y2 > 0);
        assert(false) by (nonlinear_arith)
            requires
                x2 * y1 == x1 * y2 * pow2(k),
                pow2(k) >= 2,
                sig_low() * y1 <= x1,
                x2 < sig_high() * y2,
                y1 > 0,
                y2 > 0,
                sig_high() == 2 * sig_low(),
        ;
    }
}

/// Scales `a / b` into the significand range: the numerator and denominator
/// scaled by `2^s`, and `s`.
fn normalize(a: u128, b: u128) -> (r: (u128, u128, i64))
    requires
        1 <= a < 0x1_0000_0000_0000_0000,
        1 <= b <= sig_high(),
    ensures
        (r.0 as nat, r.1 as nat) == scaled(a as nat, b as nat, r.2 as int),
        normalizes(a as nat, b as nat, r.2 as int),
        r.1 <= sig_high(),
        -11 <= r.2,
        b == 1 ==> r.2 <= 52,
        sig_low() <= a <= sig_high() && sig_low() <= b ==> 0 <= r.2 <= 53,
{
    proof {
        lemma_pow2_values();
    }
    let low: u128 = 0x10_0000_0000_0000;
    let high: u128 = 0x20_0000_0000_0000;
    let mut x = a;
    let mut y = b;
    if x < low * y {
        let mut up: u32 = 0;
        while x < low * y
            invariant
                1 <= a < 0x1_0000_0000_0000_0000,
                1 <= b <= sig_high(),
                low == sig_low(),
                high == sig_high(),
                y == b,
                x == a * pow2(up as nat),
                x < high * y,
                x >= 1,
                up <= 116,
                pow2(0) == 1,
                pow2(53) == sig_high(),
                pow2(54) == 0x40_0000_0000_0000,
                pow2(116) == 0x10_0000_0000_0000_0000_0000_0000_0000,
            decreases 116 - up,
        {
            proof {
                lemma_pow2_unfold((up + 1) as nat);
                assert(pow2(up as nat) <= x) by (nonlinear_arith)
                    requires
                        x == a * pow2(up as nat),
                        a >= 1,
                ;
                assert(x < pow2(116)) by (nonlinear_arith)
                    requires
                        x < low * y,
                        y <= sig_high(),
                        low == sig_low(),
                        pow2(116) == 0x10_0000_0000_0000_0000_0000_0000_0000,
                ;
                lemma_pow2_lt_inv(up as nat, 116);
            }
            x = 2 * x;
            up = up + 1;
            proof {
                assert(x == a * pow2(up as nat)) by (nonlinear_arith)
                    requires
                        x == 2 * (a * pow2((up - 1) as nat)),
                        pow2(up as nat) == 2 * pow2((up - 1) as nat),
                ;
            }
        }
        proof {
            assert(pow2(up as nat) * a < high * y) by (nonlinear_arith)
                requires
                    x == a * pow2(up as nat),
                    x < high * y,
            ;
            if b == 1 {
                assert(pow2(up as nat) < pow2(53)) by (nonlinear_arith)
                    requires
                        pow2(up as nat) * a < high * y,
                        y == 1,
                        a >= 1,
                        pow2(53) == high,
                ;
                lemma_pow2_lt_inv(up as nat, 53);
            }
            if sig_low() <= a {
                assert(pow2(up as nat) < pow2(54)) by (nonlinear_arith)
                    requires
                        pow2(up as nat) * a < high * y,
                        y <= sig_high(),
                        a >= sig_low(),
                        high == sig_high(),
                        pow2(54) == 0x40_0000_0000_0000,
                ;
                lemma_pow2_lt_inv(up as nat, 54);
            }
        }
        let s = up as i64;
        proof {
            assert(s >= 0);
            assert(scaled(a as nat, b as nat, s as int) == (x as nat, y as nat));
            assert(normalizes(a as nat, b as nat, s as int));
        }
        (x, y, s)
    } else {
        let mut down: u32 = 0;
        while x >= high * y
            invariant
                1 <= a < 0x1_0000_0000_0000_0000,
                1 <= b <= sig_high(),
                low == sig_low(),
                high == sig_high(),
                x == a,
                y == b * pow2(down as nat),
                low * y <= x,
                y <= 0x1000,
                y >= 1,
                pow2(0) == 1,
                pow2(12) == 0x1000,
                pow2(64) == 0x1_0000_0000_0000_0000,
                down <= 11,
            decreases 12 - down,
        {
            proof {
                lemma_pow2_unfold((down + 1) as nat);
                assert(pow2((down + 1) as nat) * low <= x) by (nonlinear_arith)
                    requires
                        x >= high * y,
                        y == b * pow2(down as nat),
                        b >= 1,
                        high == 2 * low,
                        pow2((down + 1) as nat) == 2 * pow2(down as nat),
                ;
                assert(pow2((down + 1) as nat) < pow2(12)) by (nonlinear_arith)
                    requires
                        pow2((down + 1) as nat) * low <= x,
                        x < 0x1_0000_0000_0000_0000,
                        low == sig_low(),
                        pow2(12) == 0x1000,
                ;
                lemma_pow2_lt_inv((down + 1) as nat, 12);
            }
            y = 2 * y;
            down = down + 1;
            proof {
                lemma_pow2_pos(down as nat);
                assert(y >= 1) by (nonlinear_arith)
                    requires
                        y == 2 * (b * pow2((down - 1) as nat)),
                        b >= 1,
                        pow2((down - 1) as nat) > 0,
                ;
                assert(y <= 0x1000) by (nonlinear_arith)
                    requires
                        low * y <= x,
                        x < 0x1_0000_0000_0000_0000,
                        low == sig_low(),
                ;
                assert(y == b * pow2(down as nat)) by (nonlinear_arith)
                    requires
                        y == 2 * (b * pow2((down - 1) as nat)),
                        pow2(down as nat) == 2 * pow2((down - 1) as nat),
                ;
            }
        }
        proof {
            if down == 0 {
                assert(y == b);
            }
            if a <= sig_high() && sig_low() <= b {
                assert(false) by (nonlinear_arith)
                    requires
                        x >= low * b,
                        x == a,
                        a <= sig_high(),
                        b >= sig_low(),
                        low == sig_low(),
                ;
            }
        }
        let s: i64 = 0 - (down as i64);
        proof {
            if down == 0 {
                assert(y == b * pow2(0));
                assert(y == b);
                assert(x == a * pow2(0));
                assert(scaled(a as nat, b as nat, s as int) == (x as nat, y as nat));
            } else {
                assert((-(s as int)) as nat == down as nat);
                assert(scaled(a as nat, b as nat, s as int) == (x as nat, y as nat));
            }
            assert(normalizes(a as nat, b as nat, s as int));
        }
        (x, y, s)
    }
}

/// Rounds the positive fraction `a / b` to binary64: significand and
/// exponent.
fn binary64_of(a: u128, b: u128) -> (r: (u128, i64))
    requires
        1 <= a < 0x1_0000_0000_0000_0000,
        1 <= b <= sig_high(),
    ensures
        (r.0 as nat, r.1 as int) == binary64(a as nat, b as nat),
        sig_low() <= r.0 <= sig_high(),
        r.1 <= 11,
        b == 1 ==> -52 <= r.1,
        sig_low() <= a <= sig_high() && sig_low() <= b ==> -53 <= r.1 <= 0,
{
    let (x, y, s) = normalize(a, b);
    proof {
        let c = choose|t: int| normalizes(a as nat, b as nat, t);
        assert(normalizes(a as nat, b as nat, s as int));
        lemma_normalizes_unique(a as nat, b as nat, c, s as int);
    }
    let m = rounded_quotient(x, y);
    proof {
        let q = x / y;
        vstd::arithmetic::div_mod::lemma_fundamental_div_mod(x as int, y as int);
        assert(sig_low() <= q < sig_high()) by (nonlinear_arith)
            requires
                x == y * q + x % y,
                0 <= x % y < y,
                sig_low() * y <= x,
                x < sig_high() * y,
                y > 0,
        ;
    }
    (m, 0 - s)
}

/// `2^k`.
fn power_of_two(k: u32) -> (p: u128)
    requires
        k <= 119,
    ensures
        p == pow2(k as nat),
        p <= 0x80_0000_0000_0000_0000_0000_0000_0000,
{
    proof {
        lemma_pow2_values();
    }
    let mut p: u128 = 1;
    let mut i: u32 = 0;
    while i < k
        invariant
            i <= k <= 119,
            p == pow2(i as nat),
            pow2(119) == 0x80_0000_0000_0000_0000_0000_0000_0000,
        decreases k - i,
    {
        proof {
            lemma_pow2_le(i as nat, 118);
            lemma_pow2_strictly_increases(118, 119);
            lemma_pow2_unfold((i + 1) as nat);
        }
        p = 2 * p;
        i = i + 1;
    }
    proof {
        lemma_pow2_le(k as nat, 119);
    }
    p
}

/// Renders `m * 2^e` with one decimal, rounded to the nearest tenth.
fn binary_tenths_text(m: u128, e: i64) -> (s: String)
    requires
        sig_low() <= m <= sig_high(),
        -116 <= e <= 63,
    ensures
        s@ == binary_tenths(m as nat, e as int),
{
    if e >= 0 {
        let p = power_of_two(e as u32);
        proof {
            lemma_pow2_le(e as nat, 63);
            lemma_pow2_values();
            assert(10 * m * p <= 10 * sig_high() * 0x8000_0000_0000_0000) by (nonlinear_arith)
                requires
                    m <= sig_high(),
                    p <= 0x8000_0000_0000_0000,
            ;
        }
        tenths_text(10 * m * p, 1)
    } else {
        let p = power_of_two((0 - e) as u32);
        proof {
            lemma_pow2_pos((0 - e) as nat);
        }
        tenths_text(10 * m, p)
    }
}

/// The quotient `num / den` as binary64 division of the two integers
/// converted to binary64 computes it, rendered with one decimal.
pub fn binary64_quotient_text(num: u64, den: u64) -> (s: String)
    requires
        num > 0,
        den > 0,
    ensures
        s@ == binary_tenths(binary64_quotient(num as nat, den as nat).0, binary64_quotient(
            num as nat,
            den as nat,
        ).1),
{
    let (m1, e1) = binary64_of(num as u128, 1);
    let (m2, e2) = binary64_of(den as u128, 1);
    let (m, e3) = binary64_of(m1, m2);
    binary_tenths_text(m, e3 + e1 - e2)
}

} // verus!
