//! Text rendering for the library's findings and reports: integers in
//! decimal, exact fractions rounded to a fixed number of decimals, and
//! columns padded with spaces.
use vstd::prelude::*;

verus! {

/// The character of decimal digit `d`.
pub open spec fn digit_char(d: int) -> char {
    if d == 0 {
        '0'
    } else if d == 1 {
        '1'
    } else if d == 2 {
        '2'
    } else if d == 3 {
        '3'
    } else if d == 4 {
        '4'
    } else if d == 5 {
        '5'
    } else if d == 6 {
        '6'
    } else if d == 7 {
        '7'
    } else if d == 8 {
        '8'
    } else {
        '9'
    }
}

/// Decimal digits of `n`, most significant first, without leading zeros.
pub open spec fn decimal(n: nat) -> Seq<char>
    decreases n,
{
    if n < 10 {
        seq![digit_char(n as int)]
    } else {
        decimal(n / 10).push(digit_char((n % 10) as int))
    }
}

/// Decimal rendering of a signed integer: a minus sign before the digits of
/// its magnitude when it is negative.
pub open spec fn signed_decimal(n: int) -> Seq<char> {
    if n < 0 {
        seq!['-'] + decimal((-n) as nat)
    } else {
        decimal(n as nat)
    }
}

fn digit_str(d: u128) -> (s: &'static str)
    requires
        d < 10,
    ensures
        s@ == seq![digit_char(d as int)],
{
    proof {
        reveal_strlit("0");
        reveal_strlit("1");
        reveal_strlit("2");
        reveal_strlit("3");
        reveal_strlit("4");
        reveal_strlit("5");
        reveal_strlit("6");
        reveal_strlit("7");
        reveal_strlit("8");
        reveal_strlit("9");
    }
    if d == 0 {
        "0"
    } else if d == 1 {
        "1"
    } else if d == 2 {
        "2"
    } else if d == 3 {
        "3"
    } else if d == 4 {
        "4"
    } else if d == 5 {
        "5"
    } else if d == 6 {
        "6"
    } else if d == 7 {
        "7"
    } else if d == 8 {
        "8"
    } else {
        "9"
    }
}

/// Renders `n` in decimal.
pub fn decimal_text(n: u128) -> (s: String)
    ensures
        s@ == decimal(n as nat),
    decreases n,
{
    if n < 10 {
        String::from_str(digit_str(n))
    } else {
        let mut s = decimal_text(n / 10);
        s.append(digit_str(n % 10));
        s
    }
}

/// Renders `n` in decimal, with a minus sign when it is negative.
pub fn signed_decimal_text(n: i128) -> (s: String)
    ensures
        s@ == signed_decimal(n as int),
{
    if n < 0 {
        let mut s = String::from_str("-");
        proof {
            reveal_strlit("-");
        }
        let magnitude = ((-(n + 1)) as u128) + 1;
        let digits = decimal_text(magnitude);
        s.append(digits.as_str());
        s
    } else {
        decimal_text(n as u128)
    }
}


/// Heavy rule framing a report.
pub const REPORT_RULE: &'static str = "═══════════════════════════════════════════════════════════";

/// Light rule between the sections of a report.
pub const REPORT_THIN_RULE: &'static str = "───────────────────────────────────────────────────────────";

/// `10` to the power `d`.
pub open spec fn pow10(d: nat) -> nat
    decreases d,
{
    if d == 0 {
        1
    } else {
        10 * pow10((d - 1) as nat)
    }
}

/// `n` copies of character `c`.
pub open spec fn repeated(c: char, n: nat) -> Seq<char> {
    Seq::new(n, |i: int| c)
}

/// `s` preceded by spaces up to `width` characters.
pub open spec fn pad_left(s: Seq<char>, width: nat) -> Seq<char> {
    if s.len() >= width {
        s
    } else {
        repeated(' ', (width - s.len()) as nat) + s
    }
}

/// `s` followed by spaces up to `width` characters.
pub open spec fn pad_right(s: Seq<char>, width: nat) -> Seq<char> {
    if s.len() >= width {
        s
    } else {
        s + repeated(' ', (width - s.len()) as nat)
    }
}

/// `num / den` rounded to the nearest integer, an exact half to the even
/// neighbour.
pub open spec fn round_half_even(num: nat, den: nat) -> nat {
    let q = num / den;
    let r = num % den;
    if 2 * r > den || (2 * r == den && q % 2 == 1) {
        q + 1
    } else {
        q
    }
}

/// `num / den` rounded to `d` decimals, in units of `10^-d`: to the nearest,
/// an exact half to the even neighbour.
pub open spec fn rounded_scaled(num: nat, den: nat, d: nat) -> nat {
    round_half_even(num * pow10(d), den)
}

/// `num / den` rounded to `d` decimals (an exact half to the even last
/// digit) and rendered with `d` decimals.
pub open spec fn fixed_point(num: nat, den: nat, d: nat) -> Seq<char> {
    let scaled = rounded_scaled(num, den, d);
    if d == 0 {
        decimal(scaled)
    } else {
        decimal(scaled / pow10(d)) + "."@ + pad_left_zeros(decimal(scaled % pow10(d)), d)
    }
}

/// `s` preceded by zeros up to `width` characters.
pub open spec fn pad_left_zeros(s: Seq<char>, width: nat) -> Seq<char> {
    if s.len() >= width {
        s
    } else {
        repeated('0', (width - s.len()) as nat) + s
    }
}

/// A signed fraction `num / den` rounded in magnitude to `d` decimals: a minus sign when it is negative, a plus sign when `plus` asks
/// for one and it is not.
pub open spec fn signed_fixed_point(num: int, den: nat, d: nat, plus: bool) -> Seq<char> {
    if num < 0 {
        seq!['-'] + fixed_point((-num) as nat, den, d)
    } else if plus {
        seq!['+'] + fixed_point(num as nat, den, d)
    } else {
        fixed_point(num as nat, den, d)
    }
}

fn power_of_ten(d: u32) -> (p: u128)
    requires
        d <= 38,
    ensures
        p == pow10(d as nat),
{
    proof {
        lemma_pow10_monotone(0, 38);
        assert(pow10(38) == 100_000_000_000_000_000_000_000_000_000_000_000_000) by {
            reveal_with_fuel(pow10, 39);
        }
    }
    let mut p: u128 = 1;
    let mut k: u32 = 0;
    while k < d
        invariant
            k <= d <= 38,
            p == pow10(k as nat),
            pow10(38) == 100_000_000_000_000_000_000_000_000_000_000_000_000,
        decreases d - k,
    {
        proof {
            lemma_pow10_monotone((k + 1) as nat, 38);
        }
        p = p * 10;
        k = k + 1;
    }
    p
}

/// The first powers of ten.
pub proof fn lemma_pow10_small()
    ensures
        pow10(0) == 1,
        pow10(1) == 10,
        pow10(2) == 100,
        pow10(3) == 1000,
        pow10(4) == 10000,
{
    reveal_with_fuel(pow10, 5);
}

proof fn lemma_pow10_monotone(a: nat, b: nat)
    requires
        a <= b,
    ensures
        1 <= pow10(a) <= pow10(b),
    decreases b,
{
    if b > 0 {
        if a < b {
            lemma_pow10_monotone(a, (b - 1) as nat);
        } else {
            lemma_pow10_monotone((a - 1) as nat, (b - 1) as nat);
        }
    }
}

/// Appends `n` copies of the one-character string `c`.
pub fn append_repeated(out: &mut String, c: &str, n: usize)
    requires
        c@.len() == 1,
    ensures
        final(out)@ == old(out)@ + repeated(c@[0], n as nat),
{
    let ghost start = out@;
    for k in 0..n
        invariant
            c@.len() == 1,
            out@ == start + repeated(c@[0], k as nat),
    {
        out.append(c);
        assert(start + repeated(c@[0], (k + 1) as nat) =~= start + repeated(c@[0], k as nat) + c@);
    }
}

/// Appends `s`, preceded by spaces up to `width` characters.
pub fn append_padded_left(out: &mut String, s: &str, width: usize)
    ensures
        final(out)@ == old(out)@ + pad_left(s@, width as nat),
{
    let len = s.unicode_len();
    proof {
        reveal_strlit(" ");
    }
    if len < width {
        append_repeated(out, " ", width - len);
    }
    out.append(s);
    assert(old(out)@ + pad_left(s@, width as nat) =~= if len < width {
        old(out)@ + repeated(' ', (width - len) as nat) + s@
    } else {
        old(out)@ + s@
    });
}

/// Appends `s`, followed by spaces up to `width` characters.
pub fn append_padded_right(out: &mut String, s: &str, width: usize)
    ensures
        final(out)@ == old(out)@ + pad_right(s@, width as nat),
{
    let len = s.unicode_len();
    out.append(s);
    proof {
        reveal_strlit(" ");
    }
    if len < width {
        append_repeated(out, " ", width - len);
    }
    assert(old(out)@ + pad_right(s@, width as nat) =~= if len < width {
        old(out)@ + s@ + repeated(' ', (width - len) as nat)
    } else {
        old(out)@ + s@
    });
}

/// `num / den` rounded to the nearest integer, an exact half to the even
/// neighbour.
pub fn rounded_quotient(num: u128, den: u128) -> (q: u128)
    requires
        den > 0,
        2 * den <= u128::MAX,
    ensures
        q == round_half_even(num as nat, den as nat),
{
    let q = num / den;
    let r = num % den;
    if 2 * r > den || (2 * r == den && q % 2 == 1) {
        proof {
            vstd::arithmetic::div_mod::lemma_fundamental_div_mod(num as int, den as int);
            assert(den * q >= q) by (nonlinear_arith)
                requires
                    den >= 1,
                    q >= 0,
            ;
        }
        q + 1
    } else {
        q
    }
}

/// The fraction `num / den` rounded to a whole number (an exact half to the
/// even neighbour); `inf` or `NaN` for a zero denominator, as a
/// floating-point division would give.
pub open spec fn rounded_whole(num: nat, den: nat) -> Seq<char> {
    if den == 0 {
        if num == 0 {
            "NaN"@
        } else {
            "inf"@
        }
    } else {
        decimal(round_half_even(num, den))
    }
}

/// Renders the fraction `num / den` rounded to a whole number.
pub fn rounded_whole_text(num: u64, den: u64) -> (s: String)
    ensures
        s@ == rounded_whole(num as nat, den as nat),
{
    proof {
        reveal_strlit("NaN");
        reveal_strlit("inf");
    }
    if den == 0 {
        if num == 0 {
            String::from_str("NaN")
        } else {
            String::from_str("inf")
        }
    } else {
        decimal_text(rounded_quotient(num as u128, den as u128))
    }
}

/// `num / (10 * den)` rendered with one decimal: `num / den` tenths, rounded
/// to the nearest tenth (an exact half to the even tenth).
pub open spec fn tenths(num: nat, den: nat) -> Seq<char> {
    let t = round_half_even(num, den);
    decimal(t / 10) + "."@ + decimal(t % 10)
}

/// Renders `num / (10 * den)` with one decimal, rounded to the nearest tenth.
pub fn tenths_text(num: u128, den: u128) -> (s: String)
    requires
        den > 0,
        2 * den <= u128::MAX,
    ensures
        s@ == tenths(num as nat, den as nat),
{
    let t = rounded_quotient(num, den);
    let mut s = decimal_text(t / 10);
    s.append(".");
    s.append(decimal_text(t % 10).as_str());
    s
}

/// Renders `num / den` rounded to `d` decimals, an exact half to the even
/// last digit.
pub fn fixed_point_text(num: u128, den: u128, d: u32) -> (s: String)
    requires
        den > 0,
        d <= 38,
        2 * num * pow10(d as nat) + den <= u128::MAX,
        2 * den <= u128::MAX,
    ensures
        s@ == fixed_point(num as nat, den as nat, d as nat),
{
    let p = power_of_ten(d);
    proof {
        lemma_pow10_monotone(0, d as nat);
        assert(num * p <= 2 * num * p + den) by (nonlinear_arith)
            requires
                p >= 1,
                den >= 0,
        ;
    }
    let scaled = rounded_quotient(num * p, den);
    if d == 0 {
        return decimal_text(scaled);
    }
    let mut s = decimal_text(scaled / p);
    s.append(".");
    let frac = decimal_text(scaled % p);
    let digits = frac.as_str().unicode_len();
    proof {
        reveal_strlit("0");
    }
    if digits < d as usize {
        append_repeated(&mut s, "0", d as usize - digits);
    }
    s.append(frac.as_str());
    proof {
        let a = decimal(scaled as nat / pow10(d as nat));
        let b = decimal(scaled as nat % pow10(d as nat));
        assert(s@ =~= a + "."@ + pad_left_zeros(b, d as nat));
    }
    s
}

/// Renders the signed fraction `num / den` rounded in magnitude to `d`
/// decimals, with a minus sign when it is negative and, if `plus` asks,
/// a plus sign when it is not.
pub fn signed_fixed_point_text(num: i128, den: u128, d: u32, plus: bool) -> (s: String)
    requires
        den > 0,
        d <= 38,
        2 * abs_int(num as int) * pow10(d as nat) + den <= u128::MAX,
        2 * den <= u128::MAX,
    ensures
        s@ == signed_fixed_point(num as int, den as nat, d as nat, plus),
{
    proof {
        reveal_strlit("-");
        reveal_strlit("+");
    }
    if num < 0 {
        let magnitude = ((-(num + 1)) as u128) + 1;
        let mut s = String::from_str("-");
        s.append(fixed_point_text(magnitude, den, d).as_str());
        s
    } else if plus {
        let mut s = String::from_str("+");
        s.append(fixed_point_text(num as u128, den, d).as_str());
        s
    } else {
        fixed_point_text(num as u128, den, d)
    }
}

/// Absolute value.
pub open spec fn abs_int(x: int) -> int {
    if x < 0 {
        -x
    } else {
        x
    }
}

} // verus!
