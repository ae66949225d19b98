//! Decoding of URL query values (`%XX` escapes and `+` for space).
use vstd::prelude::*;
use crate::text::{chars_vec, digit_char, push_char};

verus! {

/// The value of a hexadecimal digit, if `c` is one.
pub open spec fn hex_digit(c: char) -> Option<nat> {
    if '0' <= c && c <= '9' {
        Some((c as nat - 48) as nat)
    } else if 'a' <= c && c <= 'f' {
        Some((c as nat - 87) as nat)
    } else if 'A' <= c && c <= 'F' {
        Some((c as nat - 55) as nat)
    } else {
        None
    }
}

/// What `u8::from_str_radix(s, 16)` gives for the two-character string `h1 h2`:
/// an optional leading `+` followed by hexadecimal digits only.
pub open spec fn hex_pair(h1: char, h2: char) -> Option<nat> {
    if h1 == '+' {
        hex_digit(h2)
    } else {
        match (hex_digit(h1), hex_digit(h2)) {
            (Some(a), Some(b)) => Some(16 * a + b),
            _ => None,
        }
    }
}

/// The decoding of `s`: `+` becomes a space; `%` takes the next two characters
/// (`'0'` for each one missing) and, when they form a byte in hexadecimal, adds the
/// character with that code (Latin-1); an invalid escape is dropped with its two
/// characters; every other character is kept.
pub open spec fn url_decode_spec(s: Seq<char>) -> Seq<char>
    decreases s.len(),
{
    if s.len() == 0 {
        seq![]
    } else if s[0] == '%' {
        let h1 = if s.len() > 1 {
            s[1]
        } else {
            '0'
        };
        let h2 = if s.len() > 2 {
            s[2]
        } else {
            '0'
        };
        let rest = s.skip(
            if s.len() >= 3 {
                3
            } else {
                s.len() as int
            },
        );
        match hex_pair(h1, h2) {
            Some(b) => seq![b as char] + url_decode_spec(rest),
            None => url_decode_spec(rest),
        }
    } else if s[0] == '+' {
        seq![' '] + url_decode_spec(s.skip(1))
    } else {
        seq![s[0]] + url_decode_spec(s.skip(1))
    }
}

fn hex_digit_exec(c: char) -> (r: Option<u32>)
    ensures
        match hex_digit(c) {
            Some(v) => r == Some(v as u32),
            None => r is None,
        },
{
    if '0' <= c && c <= '9' {
        Some((c as u32) - 48)
    } else if 'a' <= c && c <= 'f' {
        Some((c as u32) - 87)
    } else if 'A' <= c && c <= 'F' {
        Some((c as u32) - 55)
    } else {
        None
    }
}

fn hex_pair_exec(h1: char, h2: char) -> (r: Option<u8>)
    ensures
        match hex_pair(h1, h2) {
            Some(v) => r == Some(v as u8) && v < 256,
            None => r is None,
        },
{
    if h1 == '+' {
        match hex_digit_exec(h2) {
            Some(v) => Some(v as u8),
            None => None,
        }
    } else {
        match (hex_digit_exec(h1), hex_digit_exec(h2)) {
            (Some(a), Some(b)) => Some((16 * a + b) as u8),
            _ => None,
        }
    }
}

/// Decodes a URL query value.
pub fn url_decode(s: &str) -> (d: String)
    ensures
        d@ == url_decode_spec(s@),
{
    let cs = chars_vec(s);
    let n = cs.len();
    let mut d = String::new();
    let mut i: usize = 0;
    proof {
        assert(s@.skip(0) == s@);
    }
    while i < n
        invariant
            cs@ == s@,
            n == cs@.len(),
            i <= n,
            url_decode_spec(s@) == d@ + url_decode_spec(s@.skip(i as int)),
        decreases n - i,
    {
        let ghost rest = s@.skip(i as int);
        let ghost before = d@;
        let ch = cs[i];
        assert(rest[0] == ch);
        if ch == '%' {
            let h1 = if i + 1 < n {
                cs[i + 1]
            } else {
                '0'
            };
            let h2 = if n - i > 2 {
                cs[i + 2]
            } else {
                '0'
            };
            let next = if n - i >= 3 {
                i + 3
            } else {
                n
            };
            proof {
                assert(rest.len() > 1 ==> rest[1] == cs@[i + 1]);
                assert(rest.len() > 2 ==> rest[2] == cs@[i + 2]);
                assert(rest.skip(
                    if rest.len() >= 3 {
                        3
                    } else {
                        rest.len() as int
                    },
                ) == s@.skip(next as int));
            }
            match hex_pair_exec(h1, h2) {
                Some(b) => {
                    push_char(&mut d, b as char);
                },
                None => {},
            }
            i = next;
        } else if ch == '+' {
            push_char(&mut d, ' ');
            proof {
                assert(rest.skip(1) == s@.skip(i + 1));
            }
            i = i + 1;
        } else {
            push_char(&mut d, ch);
            proof {
                assert(rest.skip(1) == s@.skip(i + 1));
            }
            i = i + 1;
        }
    }
    proof {
        assert(s@.skip(n as int) == Seq::<char>::empty());
    }
    d
}

/// A value without `%` or `+` decodes to itself.
pub proof fn lemma_url_decode_plain(s: Seq<char>)
    requires
        forall|i: int| 0 <= i < s.len() ==> s[i] != '%' && s[i] != '+',
    ensures
        url_decode_spec(s) == s,
    decreases s.len(),
{
    if s.len() > 0 {
        lemma_url_decode_plain(s.skip(1));
        assert(s == seq![s[0]] + s.skip(1));
    }
}

/// Decoding never lengthens a value.
pub proof fn lemma_url_decode_shorter(s: Seq<char>)
    ensures
        url_decode_spec(s).len() <= s.len(),
    decreases s.len(),
{
    if s.len() > 0 {
        if s[0] == '%' {
            lemma_url_decode_shorter(
                s.skip(
                    if s.len() >= 3 {
                        3
                    } else {
                        s.len() as int
                    },
                ),
            );
        } else {
            lemma_url_decode_shorter(s.skip(1));
        }
    }
}

/// Each hexadecimal digit is read with its value, in lower or upper case, and no
/// character reads as more than 15.
pub proof fn lemma_hex_digits()
    ensures
        forall|d: nat| d < 10 ==> hex_digit(#[trigger] digit_char(d)) == Some(d),
        forall|d: nat|
            10 <= d < 16 ==> hex_digit(#[trigger] ((87 + d) as char)) == Some(d) && hex_digit(
                ((55 + d) as char),
            ) == Some(d),
        forall|c: char| #[trigger] hex_digit(c) matches Some(d) ==> d < 16,
{
}

/// An escape `%` with two hexadecimal digits decodes to the character whose code
/// they give (high digit first), and decoding goes on after them.
pub proof fn lemma_url_escape(h1: char, h2: char, rest: Seq<char>)
    requires
        hex_digit(h1) is Some,
        hex_digit(h2) is Some,
    ensures
        url_decode_spec(seq!['%', h1, h2] + rest) == seq![
            (16 * hex_digit(h1).unwrap() + hex_digit(h2).unwrap()) as char,
        ] + url_decode_spec(rest),
{
    let s = seq!['%', h1, h2] + rest;
    assert(s[0] == '%' && s[1] == h1 && s[2] == h2);
    assert(s.skip(3) == rest);
}

/// A `+` decodes to a space, and decoding goes on after it.
pub proof fn lemma_url_plus(rest: Seq<char>)
    ensures
        url_decode_spec(seq!['+'] + rest) == seq![' '] + url_decode_spec(rest),
{
    assert((seq!['+'] + rest).skip(1) == rest);
}

/// Any character other than `%` and `+` decodes to itself, and decoding goes on
/// after it.
pub proof fn lemma_url_other(c: char, rest: Seq<char>)
    requires
        c != '%',
        c != '+',
    ensures
        url_decode_spec(seq![c] + rest) == seq![c] + url_decode_spec(rest),
{
    assert((seq![c] + rest).skip(1) == rest);
}

} // verus!
