//! Character-level string building blocks shared by the rest of the crate:
//! appending, comparing, decimal rendering, and the two std text conversions
//! (lower-casing and lossy UTF-8 decoding) that the library relies on.
use vstd::prelude::*;
use vstd::utf8::{encode_scalar, encode_utf8};

verus! {

/// Appends one character to `s`. Calls std's `String::push`, which the
/// documentation describes as appending the given `char` to the end.
#[verifier::external_body]
pub(crate) fn push_char(s: &mut String, c: char)
    ensures
        final(s)@ == old(s)@.push(c),
{
    s.push(c);
}

/// What std's `str::to_lowercase` returns for the given characters
/// (full Unicode lower-casing, including context-dependent and multi-char mappings).
pub uninterp spec fn unicode_lowercase(s: Seq<char>) -> Seq<char>;

/// `s` with ASCII upper-case letters made lower-case.
pub open spec fn ascii_lowercase(s: Seq<char>) -> Seq<char> {
    Seq::new(
        s.len(),
        |i: int|
            if 'A' <= s[i] && s[i] <= 'Z' {
                ((s[i] as u32) + 32) as char
            } else {
                s[i]
            },
    )
}

/// The lower-case form of `s` as std's `str::to_lowercase` gives it: ASCII text
/// has its letters made lower-case one by one.
pub open spec fn lowercase(s: Seq<char>) -> Seq<char> {
    if vstd::utf8::is_ascii_chars(s) {
        ascii_lowercase(s)
    } else {
        unicode_lowercase(s)
    }
}

/// Calls std's `str::to_lowercase`. The result depends on the characters of the
/// argument alone and is named `unicode_lowercase`; for ASCII text it is the text with
/// its letters made lower-case one by one (as the documentation's example shows).
/// What it gives for other characters is not stated.
#[verifier::external_body]
pub(crate) fn to_lowercase(s: &str) -> (r: String)
    ensures
        r@ == unicode_lowercase(s@),
        vstd::utf8::is_ascii_chars(s@) ==> r@ == ascii_lowercase(s@),
{
    s.to_lowercase()
}

/// What std's `String::from_utf8_lossy` returns for the given bytes.
pub uninterp spec fn utf8_lossy(bytes: Seq<u8>) -> Seq<char>;

/// Calls std's `String::from_utf8_lossy`. The result depends on the bytes alone and
/// is named `utf8_lossy`; as the documentation says, bytes that are valid UTF-8 are
/// decoded unchanged (invalid sequences become U+FFFD, which is not stated here).
#[verifier::external_body]
pub(crate) fn decode_utf8_lossy(bytes: &[u8]) -> (r: String)
    ensures
        r@ == utf8_lossy(bytes@),
        vstd::utf8::valid_utf8(bytes@) ==> r@ == vstd::utf8::decode_utf8(bytes@),
{
    String::from_utf8_lossy(bytes).into_owned()
}

/// Appends all characters of `t` to `s`.
pub fn push_str(s: &mut String, t: &str)
    ensures
        final(s)@ == old(s)@ + t@,
{
    let ghost start = s@;
    for c in it: t.chars()
        invariant
            it.seq() == t@,
            s@ == start + t@.take(it.index() as int),
    {
        proof {
            assert(t@.take(it.index() + 1) == t@.take(it.index() as int).push(c));
        }
        push_char(s, c);
    }
    proof {
        assert(t@.take(t@.len() as int) == t@);
    }
}

/// The characters of `t`, in order.
pub fn chars_vec(t: &str) -> (v: Vec<char>)
    ensures
        v@ == t@,
{
    let mut v: Vec<char> = Vec::new();
    for c in it: t.chars()
        invariant
            it.seq() == t@,
            v@ == t@.take(it.index() as int),
    {
        proof {
            assert(t@.take(it.index() + 1) == t@.take(it.index() as int).push(c));
        }
        v.push(c);
    }
    proof {
        assert(t@.take(t@.len() as int) == t@);
    }
    v
}

/// A new `String` holding the characters of `t`.
pub fn to_string(t: &str) -> (r: String)
    ensures
        r@ == t@,
{
    let mut r = String::new();
    push_str(&mut r, t);
    r
}

/// Whether two strings hold the same characters.
pub fn str_eq(a: &str, b: &str) -> (r: bool)
    ensures
        r == (a@ == b@),
{
    let n = a.unicode_len();
    let m = b.unicode_len();
    if n != m {
        return false;
    }
    let mut i: usize = 0;
    while i < n
        invariant
            n == a@.len(),
            m == b@.len(),
            n == m,
            i <= n,
            a@.take(i as int) == b@.take(i as int),
        decreases n - i,
    {
        if a.get_char(i) != b.get_char(i) {
            assert(a@.take(i + 1)[i as int] != b@.take(i + 1)[i as int]);
            return false;
        }
        assert(a@.take(i + 1) == a@.take(i as int).push(a@[i as int]));
        assert(b@.take(i + 1) == b@.take(i as int).push(b@[i as int]));
        i = i + 1;
    }
    assert(a@.take(n as int) == a@);
    assert(b@.take(n as int) == b@);
    true
}

/// Whether `s` begins with the characters of `prefix`.
pub open spec fn has_prefix(s: Seq<char>, prefix: Seq<char>) -> bool {
    prefix.len() <= s.len() && s.take(prefix.len() as int) == prefix
}

/// Whether `s` begins with `prefix` (std's `str::starts_with` with a `&str` pattern).
pub fn starts_with(s: &str, prefix: &str) -> (r: bool)
    ensures
        r == has_prefix(s@, prefix@),
{
    let n = s.unicode_len();
    let m = prefix.unicode_len();
    if m > n {
        return false;
    }
    let mut i: usize = 0;
    while i < m
        invariant
            n == s@.len(),
            m == prefix@.len(),
            m <= n,
            i <= m,
            s@.take(i as int) == prefix@.take(i as int),
        decreases m - i,
    {
        if s.get_char(i) != prefix.get_char(i) {
            assert(s@.take(m as int)[i as int] != prefix@[i as int]);
            return false;
        }
        assert(s@.take(i + 1) == s@.take(i as int).push(s@[i as int]));
        assert(prefix@.take(i + 1) == prefix@.take(i as int).push(prefix@[i as int]));
        i = i + 1;
    }
    assert(prefix@.take(m as int) == prefix@);
    true
}

/// The character of a decimal digit.
pub open spec fn digit_char(d: nat) -> char {
    (48 + d) as char
}

/// The decimal representation of `n`, as `{}` prints it.
pub open spec fn decimal(n: nat) -> Seq<char>
    decreases n,
{
    if n < 10 {
        seq![digit_char(n)]
    } else {
        decimal(n / 10).push(digit_char(n % 10))
    }
}

pub(crate) fn digit(d: u64) -> (c: char)
    requires
        d < 10,
    ensures
        c == digit_char(d as nat),
{
    let b: u8 = 48u8 + (d as u8);
    b as char
}

/// Appends the decimal representation of `n`.
pub fn push_decimal(s: &mut String, n: u128)
    ensures
        final(s)@ == old(s)@ + decimal(n as nat),
    decreases n,
{
    if n >= 10 {
        push_decimal(s, n / 10);
    }
    push_char(s, digit((n % 10) as u64));
}

/// The number of decimal digits of `n`.
pub fn decimal_len(n: u64) -> (r: usize)
    ensures
        r == decimal(n as nat).len(),
        1 <= r <= 20,
    decreases n,
{
    if n >= 10 {
        let k = decimal_len(n / 10);
        proof {
            lemma_decimal_len_bound(n as nat);
        }
        k + 1
    } else {
        1
    }
}

proof fn lemma_decimal_len_bound(n: nat)
    requires
        n <= u64::MAX,
    ensures
        1 <= decimal(n).len() <= 20,
    decreases n,
{
    if n >= 10 {
        lemma_decimal_len_bound(n / 10);
        if decimal(n / 10).len() == 20 {
            lemma_decimal_len_lower(n / 10, 19);
            reveal_with_fuel(pow10, 20);
            assert(pow10(19) == 10000000000000000000);
            assert(false);
        }
    }
}

proof fn lemma_decimal_len_lower(n: nat, k: nat)
    requires
        decimal(n).len() > k,
    ensures
        k == 0 || n >= pow10(k),
    decreases n,
{
    if n >= 10 && k > 0 {
        lemma_decimal_len_lower(n / 10, (k - 1) as nat);
        let q = n / 10;
        let p = pow10((k - 1) as nat);
        if k == 1 {
            assert(p == 1);
        }
        assert(q >= p);
        assert(n >= 10 * q);
        assert(10 * q >= 10 * p) by (nonlinear_arith)
            requires
                q >= p,
        ;
    }
}

/// Ten to the power `k`.
pub open spec fn pow10(k: nat) -> nat
    decreases k,
{
    if k == 0 {
        1
    } else {
        10 * pow10((k - 1) as nat)
    }
}

/// `k` zero characters.
pub open spec fn zeros(k: nat) -> Seq<char> {
    Seq::new(k, |i: int| '0')
}

/// How `{:0W}` renders the integer `v` for width `w`: the sign, then zeros up to
/// the width, then the digits of the magnitude.
pub open spec fn zero_padded(v: int, w: nat) -> Seq<char> {
    let sign: Seq<char> = if v < 0 {
        seq!['-']
    } else {
        seq![]
    };
    let digits = decimal((if v < 0 {
        -v
    } else {
        v
    }) as nat);
    let used = sign.len() + digits.len();
    sign + zeros(if w > used {
        (w - used) as nat
    } else {
        0
    }) + digits
}

/// Appends `v` rendered as `{:0W}` with `W == width`.
pub fn push_zero_padded(s: &mut String, v: i64, width: usize)
    ensures
        final(s)@ == old(s)@ + zero_padded(v as int, width as nat),
{
    let ghost s0 = s@;
    let negative = v < 0;
    let mag: u64 = if negative {
        (0i128 - (v as i128)) as u64
    } else {
        v as u64
    };
    let sign_len: usize = if negative {
        1
    } else {
        0
    };
    if negative {
        push_char(s, '-');
    }
    let used = sign_len + decimal_len(mag);
    let pad: usize = if width > used {
        width - used
    } else {
        0
    };
    let ghost s1 = s@;
    let mut k: usize = 0;
    while k < pad
        invariant
            k <= pad,
            s@ == s1 + zeros(k as nat),
        decreases pad - k,
    {
        push_char(s, '0');
        k = k + 1;
        assert(zeros(k as nat) == zeros((k - 1) as nat).push('0'));
    }
    push_decimal(s, mag as u128);
    proof {
        let sign: Seq<char> = if v < 0 {
            seq!['-']
        } else {
            seq![]
        };
        assert(s1 == s0 + sign);
        assert(s@ == s0 + (sign + zeros(pad as nat) + decimal(mag as nat)));
    }
}

/// The number of bytes UTF-8 takes for `c`.
pub(crate) fn utf8_width(c: char) -> (w: usize)
    ensures
        w == encode_scalar(c as u32).len(),
        1 <= w <= 4,
{
    proof {
        lemma_scalar_width(c);
    }
    let v = c as u32;
    if v < 0x80 {
        1
    } else if v < 0x800 {
        2
    } else if v < 0x10000 {
        3
    } else {
        4
    }
}

pub(crate) proof fn lemma_scalar_width(c: char)
    ensures
        encode_scalar(c as u32).len() == (if (c as u32) < 0x80 {
            1nat
        } else if (c as u32) < 0x800 {
            2nat
        } else if (c as u32) < 0x10000 {
            3nat
        } else {
            4nat
        }),
{
    broadcast use vstd::utf8::char_is_scalar;

}

/// UTF-8 encoding distributes over concatenation.
pub(crate) proof fn lemma_encode_concat(a: Seq<char>, b: Seq<char>)
    ensures
        encode_utf8(a + b) == encode_utf8(a) + encode_utf8(b),
    decreases a.len(),
{
    if a.len() == 0 {
        assert(a + b == b);
    } else {
        lemma_encode_concat(a.drop_first(), b);
        assert((a + b).drop_first() == a.drop_first() + b);
        assert((a + b)[0] == a[0]);
    }
}

pub(crate) proof fn lemma_encode_push(a: Seq<char>, c: char)
    ensures
        encode_utf8(a.push(c)).len() == encode_utf8(a).len() + encode_scalar(c as u32).len(),
{
    lemma_encode_concat(a, seq![c]);
    assert(a.push(c) == a + seq![c]);
    assert(seq![c].drop_first() == Seq::<char>::empty());
    assert(encode_utf8(Seq::<char>::empty()) == Seq::<u8>::empty());
    assert(encode_utf8(seq![c]) == encode_scalar(c as u32) + encode_utf8(Seq::<char>::empty()));
}

/// The number of bytes of the UTF-8 encoding of `s` (what `str::len` reports).
pub fn utf8_len(s: &str) -> (n: u128)
    ensures
        n == encode_utf8(s@).len(),
{
    let count = s.unicode_len();
    let mut n: u128 = 0;
    let ghost start: Seq<char> = s@;
    proof {
        assert(encode_utf8(Seq::<char>::empty()) == Seq::<u8>::empty());
    }
    for c in it: s.chars()
        invariant
            it.seq() == s@,
            count == s@.len(),
            n == encode_utf8(s@.take(it.index() as int)).len(),
            n <= 4 * it.index(),
    {
        let ghost before = s@.take(it.index() as int);
        proof {
            assert(s@.take(it.index() + 1) == before.push(c));
            lemma_encode_push(before, c);
        }
        n = n + utf8_width(c) as u128;
    }
    proof {
        assert(s@.take(s@.len() as int) == s@);
    }
    n
}

/// Whether every character of `s` is a decimal digit.
pub open spec fn all_digits(s: Seq<char>) -> bool {
    forall|i: int| 0 <= i < s.len() ==> '0' <= #[trigger] s[i] && s[i] <= '9'
}

/// The number that a string of decimal digits stands for, most significant first.
pub open spec fn digits_value(s: Seq<char>) -> int
    decreases s.len(),
{
    if s.len() == 0 {
        0
    } else {
        10 * digits_value(s.drop_last()) + (s.last() as int - 48)
    }
}

/// The decimal representation of `n` is made of digits, reads back as `n`, and has
/// no leading zero (but for zero itself).
pub proof fn lemma_decimal_value(n: nat)
    ensures
        all_digits(decimal(n)),
        digits_value(decimal(n)) == n,
        decimal(n).len() >= 1,
        n > 0 ==> decimal(n)[0] != '0',
    decreases n,
{
    if n < 10 {
        assert(decimal(n).drop_last() == Seq::<char>::empty());
        assert(digit_char(n) as int == 48 + n);
        assert(digits_value(decimal(n)) == 10 * digits_value(Seq::<char>::empty()) + (
        digit_char(n) as int - 48));
    } else {
        lemma_decimal_value(n / 10);
        let d = decimal(n / 10);
        assert(n == 10 * (n / 10) + n % 10);
        assert(digit_char(n % 10) as int == 48 + n % 10);
        assert(decimal(n).last() == digit_char(n % 10));
        assert(decimal(n).drop_last() == d);
        assert(decimal(n)[0] == d[0]);
        assert forall|i: int| 0 <= i < decimal(n).len() implies '0' <= #[trigger] decimal(n)[i]
            && decimal(n)[i] <= '9' by {
            if i < d.len() {
                assert(decimal(n)[i] == d[i]);
            }
        }
    }
}

proof fn lemma_zeros_value(z: Seq<char>, d: Seq<char>)
    requires
        forall|i: int| 0 <= i < z.len() ==> z[i] == '0',
    ensures
        digits_value(z + d) == digits_value(d),
    decreases z.len() + d.len(),
{
    if d.len() == 0 {
        assert(z + d == z);
        if z.len() > 0 {
            lemma_zeros_value(z.drop_last(), d);
            assert(z.drop_last() + d == z.drop_last());
        }
    } else {
        lemma_zeros_value(z, d.drop_last());
        assert((z + d).drop_last() == z + d.drop_last());
        assert((z + d).last() == d.last());
    }
}

/// A number below `10^w` rendered zero-padded to width `w` (at least one) takes exactly `w`
/// digits, which read back as the number.
pub proof fn lemma_zero_padded_value(v: int, w: nat)
    requires
        w >= 1,
        0 <= v < pow10(w),
    ensures
        zero_padded(v, w).len() == w,
        all_digits(zero_padded(v, w)),
        digits_value(zero_padded(v, w)) == v,
{
    let d = decimal(v as nat);
    lemma_decimal_value(v as nat);
    if d.len() > w {
        lemma_decimal_len_lower(v as nat, w);
    }
    let z = zeros((w - d.len()) as nat);
    assert(zero_padded(v, w) == Seq::<char>::empty() + z + d);
    assert(Seq::<char>::empty() + z + d == z + d);
    lemma_zeros_value(z, d);
    assert forall|i: int| 0 <= i < (z + d).len() implies '0' <= #[trigger] (z + d)[i] && (z
        + d)[i] <= '9' by {
        if i >= z.len() {
            assert((z + d)[i] == d[i - z.len()]);
        }
    }
}

} // verus!
