//! Human-readable file sizes ("512 Bytes", "1.50 KB", ...).
//!
//! Sizes of a kilobyte and more are shown with two decimals of the size held as a
//! double-precision number and divided by a power of 1024; this module computes that
//! rendering exactly with integers: the double nearest to the byte count (ties to
//! even), then the quotient rounded to two decimals, ties to even.
use vstd::prelude::*;
use crate::text::{
    all_digits,
    decimal,
    digit,
    digit_char,
    digits_value,
    lemma_decimal_value,
    push_char,
    push_decimal,
    push_str,
};

verus! {

/// Byte counts below this are held exactly by a double.
pub open spec fn f64_exact_limit() -> nat {
    9007199254740992
}

/// `2` to the power `s`.
pub open spec fn two_pow(s: nat) -> nat
    decreases s,
{
    if s == 0 {
        1
    } else {
        2 * two_pow((s - 1) as nat)
    }
}

/// How many low bits a double drops from `b`: the number of halvings that bring
/// `b` below the exact limit.
pub open spec fn f64_shift(b: nat) -> nat
    decreases b,
{
    if b < f64_exact_limit() {
        0
    } else {
        1 + f64_shift(b / 2)
    }
}

/// `n / d` rounded to the nearest integer, ties to the even one.
pub open spec fn div_round_half_even(n: nat, d: nat) -> nat {
    let q = n / d;
    let r = n % d;
    if 2 * r > d || (2 * r == d && q % 2 == 1) {
        q + 1
    } else {
        q
    }
}

/// The value of the double nearest to `b` (ties to even), i.e. of `b as f64`.
pub open spec fn f64_value(b: nat) -> nat {
    if b < f64_exact_limit() {
        b
    } else {
        let p = two_pow(f64_shift(b));
        div_round_half_even(b, p) * p
    }
}

/// The unit a size is shown in: 0 for bytes, then KB, MB, GB and TB.
pub open spec fn size_unit(b: nat) -> nat {
    if b < 1024 {
        0
    } else if b < 1048576 {
        1
    } else if b < 1073741824 {
        2
    } else if b < 1099511627776 {
        3
    } else {
        4
    }
}

/// The number of bytes in one of unit `i`.
pub open spec fn unit_divisor(i: nat) -> nat {
    if i == 0 {
        1
    } else if i == 1 {
        1024
    } else if i == 2 {
        1048576
    } else if i == 3 {
        1073741824
    } else {
        1099511627776
    }
}

/// The name of unit `i`.
pub open spec fn unit_name(i: nat) -> Seq<char> {
    if i == 0 {
        "Bytes"@
    } else if i == 1 {
        "KB"@
    } else if i == 2 {
        "MB"@
    } else if i == 3 {
        "GB"@
    } else {
        "TB"@
    }
}

/// The size in its unit, in hundredths, rounded half to even.
pub open spec fn size_hundredths(b: nat) -> nat {
    div_round_half_even(f64_value(b) * 100, unit_divisor(size_unit(b)))
}

/// The rendering of a size of `b` bytes: below a kilobyte the exact count and
/// `Bytes`; otherwise the size in the largest unit (up to TB) that it reaches,
/// with two decimals.
pub open spec fn format_size_spec(b: nat) -> Seq<char> {
    if b < 1024 {
        decimal(b) + seq![' '] + unit_name(0)
    } else {
        let h = size_hundredths(b);
        decimal(h / 100) + seq!['.', digit_char(h % 100 / 10), digit_char(h % 10), ' ']
            + unit_name(size_unit(b))
    }
}

proof fn lemma_shift_bound(b: nat, p: nat, t: nat)
    requires
        t == b / p,
        p > 0,
        t >= f64_exact_limit(),
        b < 18446744073709551616,
    ensures
        p < 2048,
{
    vstd::arithmetic::div_mod::lemma_fundamental_div_mod(b as int, p as int);
    assert(p * t <= b);
    assert(p * t >= p * 9007199254740992) by (nonlinear_arith)
        requires
            t >= 9007199254740992,
            p > 0,
    ;
    assert(p < 2048) by (nonlinear_arith)
        requires
            p * 9007199254740992 < 18446744073709551616,
    ;
}

/// The value of `b as f64`, computed with integers.
fn f64_value_exec(b: u64) -> (v: u128)
    ensures
        v == f64_value(b as nat),
        v <= 36893488147419103232,
{
    if b < 9007199254740992 {
        return b as u128;
    }
    let mut t: u64 = b;
    let mut p: u64 = 1;
    let ghost mut s: nat = 0;
    while t >= 9007199254740992
        invariant
            p == two_pow(s),
            p >= 1,
            p <= 4096,
            t == b as nat / p as nat,
            f64_shift(b as nat) == s + f64_shift(t as nat),
        decreases t,
    {
        proof {
            lemma_shift_bound(b as nat, p as nat, t as nat);
            vstd::arithmetic::div_mod::lemma_div_denominator(b as int, p as int, 2);
        }
        t = t / 2;
        p = p * 2;
        proof {
            s = s + 1;
        }
    }
    proof {
        assert(f64_shift(b as nat) == s);
    }
    let r = b % p;
    let q: u64 = if 2 * r > p || (2 * r == p && t % 2 == 1) {
        t + 1
    } else {
        t
    };
    assert(q <= 9007199254740992);
    assert((q as nat) * (p as nat) <= 36893488147419103232) by (nonlinear_arith)
        requires
            q <= 9007199254740992,
            p <= 4096,
    ;
    (q as u128) * (p as u128)
}

/// Renders a size in bytes for display.
pub fn format_size(bytes: u64) -> (s: String)
    ensures
        s@ == format_size_spec(bytes as nat),
{
    let mut s = String::new();
    if bytes < 1024 {
        push_decimal(&mut s, bytes as u128);
        push_char(&mut s, ' ');
        push_str(&mut s, "Bytes");
        return s;
    }
    let ghost unit = size_unit(bytes as nat);
    let (divisor, name): (u128, &str) = if bytes < 1048576 {
        (1024, "KB")
    } else if bytes < 1073741824 {
        (1048576, "MB")
    } else if bytes < 1099511627776 {
        (1073741824, "GB")
    } else {
        (1099511627776, "TB")
    };
    assert(divisor == unit_divisor(unit) && name@ == unit_name(unit));
    let v = f64_value_exec(bytes);
    let n: u128 = v * 100;
    let q = n / divisor;
    let r = n % divisor;
    proof {
        vstd::arithmetic::div_mod::lemma_fundamental_div_mod(n as int, divisor as int);
        assert(q * divisor <= n) by (nonlinear_arith)
            requires
                n == divisor * q + r,
                r >= 0,
        ;
        assert(q < 4611686018427387904) by (nonlinear_arith)
            requires
                q * divisor <= n,
                divisor >= 1024,
                n <= 3689348814741910323200,
        ;
    }
    let h: u128 = if 2 * r > divisor || (2 * r == divisor && q % 2 == 1) {
        q + 1
    } else {
        q
    };
    assert(h == size_hundredths(bytes as nat));
    let whole = h / 100;
    push_decimal(&mut s, whole);
    push_char(&mut s, '.');
    push_char(&mut s, digit((h % 100 / 10) as u64));
    push_char(&mut s, digit((h % 10) as u64));
    push_char(&mut s, ' ');
    push_str(&mut s, name);
    s
}

/// Below a kilobyte a size is the exact byte count followed by `Bytes`.
pub proof fn lemma_small_sizes_exact(b: nat)
    requires
        b < 1024,
    ensures
        format_size_spec(b) == decimal(b) + seq![' '] + "Bytes"@,
{
}

/// Sizes below 2^53 bytes are held exactly, so the shown value is the exact
/// quotient by the unit, rounded to two decimals (ties to even).
pub proof fn lemma_exact_below_limit(b: nat)
    requires
        b < f64_exact_limit(),
    ensures
        size_hundredths(b) == div_round_half_even(b * 100, unit_divisor(size_unit(b))),
{
}

/// The unit shown is the largest one (up to TB) that the size reaches: the shown
/// amount is at least one of that unit, and below 1024 of it unless the unit is TB.
pub proof fn lemma_unit_choice(b: nat)
    requires
        b >= 1024,
    ensures
        1 <= size_unit(b) <= 4,
        b >= unit_divisor(size_unit(b)),
        size_unit(b) < 4 ==> b < 1024 * unit_divisor(size_unit(b)),
{
}

proof fn lemma_round_half_even_near(n: nat, d: nat)
    requires
        d > 0,
    ensures
        2 * div_round_half_even(n, d) * d <= 2 * n + d,
        2 * n <= 2 * div_round_half_even(n, d) * d + d,
{
    let q = n / d;
    let r = n % d;
    assert(n == q * d + r) by (nonlinear_arith)
        requires
            d > 0,
            q == n / d,
            r == n % d,
    ;
    assert(2 * (q + 1) * d == 2 * q * d + 2 * d) by (nonlinear_arith);
    assert(2 * q * d == 2 * (q * d)) by (nonlinear_arith);
}

/// A size of at least a kilobyte that a double holds exactly is shown in the largest
/// of KB (1024 bytes), MB (1024^2), GB (1024^3) and TB (1024^4) that it reaches, as
/// the number of hundredths of that unit nearest to its exact value.
pub proof fn lemma_size_shown(b: nat)
    requires
        1024 <= b < f64_exact_limit(),
    ensures
        (size_unit(b) == 1 && unit_divisor(1) == 1024 && unit_name(1) == "KB"@) || (size_unit(b)
            == 2 && unit_divisor(2) == 1024 * 1024 && unit_name(2) == "MB"@) || (size_unit(b) == 3
            && unit_divisor(3) == 1024 * 1024 * 1024 && unit_name(3) == "GB"@) || (size_unit(b)
            == 4 && unit_divisor(4) == 1024 * 1024 * 1024 * 1024 && unit_name(4) == "TB"@),
        b >= unit_divisor(size_unit(b)),
        size_unit(b) < 4 ==> b < 1024 * unit_divisor(size_unit(b)),
        2 * size_hundredths(b) * unit_divisor(size_unit(b)) <= 200 * b + unit_divisor(
            size_unit(b),
        ),
        200 * b <= 2 * size_hundredths(b) * unit_divisor(size_unit(b)) + unit_divisor(
            size_unit(b),
        ),
{
    lemma_round_half_even_near(b * 100, unit_divisor(size_unit(b)));
}

/// A size of at least a kilobyte is written as its amount in hundredths of its unit
/// with a decimal point before the last two digits, a space, and the unit's name:
/// the digits around the point read back as the hundredths.
pub proof fn lemma_size_text(b: nat)
    requires
        b >= 1024,
    ensures
        ({
            let s = format_size_spec(b);
            let n = decimal(size_hundredths(b) / 100).len() as int;
            &&& s.len() == n + 4 + unit_name(size_unit(b)).len()
            &&& s[n] == '.'
            &&& s[n + 3] == ' '
            &&& s.subrange(n + 4, s.len() as int) == unit_name(size_unit(b))
            &&& all_digits(s.take(n) + s.subrange(n + 1, n + 3))
            &&& digits_value(s.take(n) + s.subrange(n + 1, n + 3)) == size_hundredths(b)
        }),
{
    let h = size_hundredths(b);
    let whole = decimal(h / 100);
    let n = whole.len() as int;
    let s = format_size_spec(b);
    let c1 = digit_char(h % 100 / 10);
    let c2 = digit_char(h % 10);
    lemma_decimal_value(h / 100);
    assert(s == whole + seq!['.', c1, c2, ' '] + unit_name(size_unit(b)));
    assert(s.take(n) == whole);
    assert(s.subrange(n + 1, n + 3) == seq![c1, c2]);
    assert(s.subrange(n + 4, s.len() as int) == unit_name(size_unit(b)));
    let t = whole + seq![c1, c2];
    assert(t.drop_last() == whole.push(c1));
    assert(whole.push(c1).drop_last() == whole);
    assert(c1 as int == 48 + h % 100 / 10);
    assert(c2 as int == 48 + h % 10);
    assert(h == 100 * (h / 100) + 10 * (h % 100 / 10) + h % 10);
    assert(t.last() == c2);
    assert(whole.push(c1).last() == c1);
    assert(digits_value(whole.push(c1)) == 10 * digits_value(whole) + (c1 as int - 48));
    assert(digits_value(t) == 10 * digits_value(whole.push(c1)) + (c2 as int - 48));
    assert(digits_value(t) == h);
    assert(s.take(n) + s.subrange(n + 1, n + 3) == t);
    assert(s[n] == '.');
    assert(s[n + 3] == ' ');
    assert forall|i: int| 0 <= i < t.len() implies '0' <= #[trigger] t[i] && t[i] <= '9' by {
        if i < n {
            assert(t[i] == whole[i]);
        }
    }
}

} // verus!
