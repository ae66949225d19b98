//! Standard Base64 (RFC 4648 alphabet, `=` padding), as used for image data URLs.
use vstd::prelude::*;
use crate::text::push_char;

verus! {

/// The Base64 character for a 6-bit value.
pub open spec fn sextet_char(v: int) -> char {
    if v < 26 {
        (65 + v) as char
    } else if v < 52 {
        (97 + v - 26) as char
    } else if v < 62 {
        (48 + v - 52) as char
    } else if v == 62 {
        '+'
    } else {
        '/'
    }
}

/// Whether `c` is one of the 64 Base64 characters.
pub open spec fn is_base64_char(c: char) -> bool {
    ('A' <= c && c <= 'Z') || ('a' <= c && c <= 'z') || ('0' <= c && c <= '9') || c == '+' || c
        == '/'
}

/// The four characters encoding the first (up to three) bytes of `d`.
pub open spec fn encode_group(d: Seq<u8>) -> Seq<char>
    recommends
        d.len() > 0,
{
    let b0 = d[0] as int;
    let b1 = if d.len() > 1 {
        d[1] as int
    } else {
        0
    };
    let b2 = if d.len() > 2 {
        d[2] as int
    } else {
        0
    };
    let triple = b0 * 65536 + b1 * 256 + b2;
    seq![
        sextet_char(triple / 262144 % 64),
        sextet_char(triple / 4096 % 64),
        if d.len() > 1 {
            sextet_char(triple / 64 % 64)
        } else {
            '='
        },
        if d.len() > 2 {
            sextet_char(triple % 64)
        } else {
            '='
        },
    ]
}

/// The Base64 encoding of `d`: one group of four characters per three bytes,
/// the last group padded with `=` where bytes are missing.
pub open spec fn base64_spec(d: Seq<u8>) -> Seq<char>
    decreases d.len(),
{
    if d.len() == 0 {
        seq![]
    } else if d.len() <= 3 {
        encode_group(d)
    } else {
        encode_group(d) + base64_spec(d.skip(3))
    }
}

fn sextet(v: u32) -> (c: char)
    requires
        v < 64,
    ensures
        c == sextet_char(v as int),
{
    if v < 26 {
        ((65 + v) as u8) as char
    } else if v < 52 {
        ((97 + v - 26) as u8) as char
    } else if v < 62 {
        ((48 + v - 52) as u8) as char
    } else if v == 62 {
        '+'
    } else {
        '/'
    }
}

/// Encodes `data` in Base64.
pub fn base64_encode(data: &[u8]) -> (out: String)
    ensures
        out@ == base64_spec(data@),
{
    let mut out = String::new();
    let len = data.len();
    let mut i: usize = 0;
    proof {
        assert(data@.skip(0) == data@);
    }
    while i < len
        invariant
            len == data@.len(),
            i <= len,
            base64_spec(data@) == out@ + base64_spec(data@.skip(i as int)),
        decreases len - i,
    {
        let ghost rest = data@.skip(i as int);
        let b0: u32 = data[i] as u32;
        let b1: u32 = if len - i > 1 {
            data[i + 1] as u32
        } else {
            0
        };
        let b2: u32 = if len - i > 2 {
            data[i + 2] as u32
        } else {
            0
        };
        let triple: u32 = (b0 << 16) | (b1 << 8) | b2;
        assert(triple == b0 * 65536 + b1 * 256 + b2
            && (triple >> 18) & 0x3f == triple / 262144 % 64
            && (triple >> 12) & 0x3f == triple / 4096 % 64
            && (triple >> 6) & 0x3f == triple / 64 % 64
            && triple & 0x3f == triple % 64
            && (triple >> 18) & 0x3f < 64
            && (triple >> 12) & 0x3f < 64
            && (triple >> 6) & 0x3f < 64
            && triple & 0x3f < 64) by (bit_vector)
            requires
                b0 < 256,
                b1 < 256,
                b2 < 256,
                triple == (b0 << 16) | (b1 << 8) | b2,
        ;
        let c0 = sextet((triple >> 18) & 0x3f);
        let c1 = sextet((triple >> 12) & 0x3f);
        let c2 = if len - i > 1 {
            sextet((triple >> 6) & 0x3f)
        } else {
            '='
        };
        let c3 = if len - i > 2 {
            sextet(triple & 0x3f)
        } else {
            '='
        };
        let ghost before = out@;
        push_char(&mut out, c0);
        push_char(&mut out, c1);
        push_char(&mut out, c2);
        push_char(&mut out, c3);
        proof {
            let g = encode_group(rest);
            assert(rest[0] == data@[i as int]);
            assert(rest.len() > 1 ==> rest[1] == data@[i + 1]);
            assert(rest.len() > 2 ==> rest[2] == data@[i + 2]);
            assert(g == seq![c0, c1, c2, c3]);
            assert(out@ == before + g);
        }
        if len - i <= 3 {
            proof {
                assert(data@.skip(len as int) == Seq::<u8>::empty());
            }
            i = len;
        } else {
            proof {
                assert(rest.skip(3) == data@.skip(i + 3));
            }
            i = i + 3;
        }
    }
    proof {
        assert(data@.skip(len as int) == Seq::<u8>::empty());
    }
    out
}

/// Base64 output has four characters for every started group of three input
/// bytes: its length is `4 * ceil(n / 3)`.
pub proof fn lemma_base64_length(d: Seq<u8>)
    ensures
        base64_spec(d).len() == 4 * ((d.len() + 2) / 3),
    decreases d.len(),
{
    if d.len() > 3 {
        lemma_base64_length(d.skip(3));
    }
}

/// Every character of an encoding is a Base64 character, except `=` padding,
/// which only fills the last positions: an encoding never has a Base64
/// character after an `=`.
pub proof fn lemma_base64_alphabet(d: Seq<u8>)
    ensures
        forall|i: int|
            0 <= i < base64_spec(d).len() ==> is_base64_char(#[trigger] base64_spec(d)[i])
                || base64_spec(d)[i] == '=',
        forall|i: int, j: int|
            #![trigger base64_spec(d)[i], base64_spec(d)[j]]
            0 <= i < j < base64_spec(d).len() && base64_spec(d)[i] == '=' ==> base64_spec(d)[j]
                == '=',
    decreases d.len(),
{
    if d.len() > 0 {
        let g = encode_group(d);
        assert forall|k: int| 0 <= k < 64 implies is_base64_char(#[trigger] sextet_char(k)) by {
            if k < 26 {
                assert(65 <= 65 + k <= 90);
            } else if k < 52 {
                assert(97 <= 97 + k - 26 <= 122);
            } else if k < 62 {
                assert(48 <= 48 + k - 52 <= 57);
            }
        }
        let b0 = d[0] as int;
        let b1 = if d.len() > 1 {
            d[1] as int
        } else {
            0
        };
        let b2 = if d.len() > 2 {
            d[2] as int
        } else {
            0
        };
        let triple = b0 * 65536 + b1 * 256 + b2;
        assert(is_base64_char(sextet_char(triple / 262144 % 64)));
        assert(is_base64_char(sextet_char(triple / 4096 % 64)));
        assert(is_base64_char(sextet_char(triple / 64 % 64)));
        assert(is_base64_char(sextet_char(triple % 64)));
        assert(!is_base64_char('='));
        if d.len() > 3 {
            lemma_base64_alphabet(d.skip(3));
            let r = base64_spec(d.skip(3));
            assert(base64_spec(d) == g + r);
            assert(d.len() > 2);
            assert forall|i: int, j: int|
                #![trigger base64_spec(d)[i], base64_spec(d)[j]]
                0 <= i < j < base64_spec(d).len() && base64_spec(d)[i] == '=' implies base64_spec(
                d,
            )[j] == '=' by {
                if i < 4 {
                    assert(g[i] != '=');
                } else {
                    assert(base64_spec(d)[i] == r[i - 4]);
                    assert(base64_spec(d)[j] == r[j - 4]);
                }
            }
            assert forall|i: int| 0 <= i < base64_spec(d).len() implies is_base64_char(
                #[trigger] base64_spec(d)[i],
            ) || base64_spec(d)[i] == '=' by {
                if i >= 4 {
                    assert(base64_spec(d)[i] == r[i - 4]);
                }
            }
        }
    }
}

/// Encoding is compositional at group boundaries: when the first part's length
/// is a multiple of three, the encoding of the whole is the two encodings joined.
pub proof fn lemma_base64_concat(a: Seq<u8>, b: Seq<u8>)
    requires
        a.len() % 3 == 0,
    ensures
        base64_spec(a + b) == base64_spec(a) + base64_spec(b),
    decreases a.len(),
{
    if a.len() == 0 {
        assert(a + b == b);
    } else {
        let ab = a + b;
        assert(ab.take(3) == a.take(3));
        assert(ab.skip(3) == a.skip(3) + b);
        lemma_base64_concat(a.skip(3), b);
        assert(encode_group(ab) == encode_group(a)) by {
            assert(ab[0] == a[0]);
            assert(ab[1] == a[1]);
            assert(ab[2] == a[2]);
        }
        if a.len() == 3 {
            assert(a.skip(3) == Seq::<u8>::empty());
            assert(a.skip(3) + b == b);
            if b.len() == 0 {
                assert(ab == a);
            }
        }
    }
}

/// The 6-bit value of a Base64 character.
pub open spec fn sextet_value(c: char) -> int {
    if 'A' <= c && c <= 'Z' {
        c as int - 65
    } else if 'a' <= c && c <= 'z' {
        c as int - 71
    } else if '0' <= c && c <= '9' {
        c as int + 4
    } else if c == '+' {
        62
    } else {
        63
    }
}

/// The bytes that a group of four Base64 characters stands for: three, or fewer
/// when the group ends in `=` padding.
pub open spec fn decode_group(g: Seq<char>) -> Seq<u8> {
    let n: int = if g[2] == '=' {
        1
    } else if g[3] == '=' {
        2
    } else {
        3
    };
    let s2 = if g[2] == '=' {
        0
    } else {
        sextet_value(g[2])
    };
    let s3 = if g[3] == '=' {
        0
    } else {
        sextet_value(g[3])
    };
    let t = sextet_value(g[0]) * 262144 + sextet_value(g[1]) * 4096 + s2 * 64 + s3;
    seq![(t / 65536) as u8, (t / 256 % 256) as u8, (t % 256) as u8].take(n)
}

/// Standard padded Base64 decoding, group by group.
pub open spec fn base64_decode_spec(s: Seq<char>) -> Seq<u8>
    decreases s.len(),
{
    if s.len() < 4 {
        seq![]
    } else {
        decode_group(s.take(4)) + base64_decode_spec(s.skip(4))
    }
}

proof fn lemma_sextet_value(v: int)
    requires
        0 <= v < 64,
    ensures
        sextet_value(sextet_char(v)) == v,
        sextet_char(v) != '=',
{
}

proof fn lemma_split_triple(t: u32)
    requires
        t < 16777216,
    ensures
        t / 262144 % 64 * 262144 + t / 4096 % 64 * 4096 + t / 64 % 64 * 64 + t % 64 == t,
{
    assert(t / 262144 % 64 * 262144 + t / 4096 % 64 * 4096 + t / 64 % 64 * 64 + t % 64 == t)
        by (bit_vector)
        requires
            t < 16777216,
    ;
}

proof fn lemma_join_bytes(b0: u32, b1: u32, b2: u32)
    requires
        b0 < 256,
        b1 < 256,
        b2 < 256,
    ensures
        (b0 * 65536 + b1 * 256 + b2) / 65536 == b0,
        (b0 * 65536 + b1 * 256 + b2) / 256 % 256 == b1,
        (b0 * 65536 + b1 * 256 + b2) % 256 == b2,
        (b0 * 65536 + b1 * 256 + b2) / 64 % 64 == (b1 * 256 + b2) / 64 % 64,
        b1 == 0 && b2 == 0 ==> (b0 * 65536 + b1 * 256 + b2) / 64 % 64 == 0,
        b2 == 0 ==> (b0 * 65536 + b1 * 256 + b2) % 64 == 0,
        b0 * 65536 + b1 * 256 + b2 < 16777216,
{
    assert((b0 * 65536 + b1 * 256 + b2) / 65536 == b0 && (b0 * 65536 + b1 * 256 + b2) / 256 % 256
        == b1 && (b0 * 65536 + b1 * 256 + b2) % 256 == b2 && (b0 * 65536 + b1 * 256 + b2) / 64 % 64
        == (b1 * 256 + b2) / 64 % 64 && (b1 == 0 && b2 == 0 ==> (b0 * 65536 + b1 * 256 + b2) / 64
        % 64 == 0) && (b2 == 0 ==> (b0 * 65536 + b1 * 256 + b2) % 64 == 0) && b0 * 65536 + b1 * 256
        + b2 < 16777216) by (bit_vector)
        requires
            b0 < 256,
            b1 < 256,
            b2 < 256,
    ;
}

proof fn lemma_group_roundtrip(d: Seq<u8>)
    requires
        d.len() > 0,
    ensures
        encode_group(d).len() == 4,
        decode_group(encode_group(d)) == d.take(if d.len() < 3 {
            d.len() as int
        } else {
            3
        }),
{
    let b0 = d[0] as u32;
    let b1: u32 = if d.len() > 1 {
        d[1] as u32
    } else {
        0
    };
    let b2: u32 = if d.len() > 2 {
        d[2] as u32
    } else {
        0
    };
    lemma_join_bytes(b0, b1, b2);
    let t: u32 = (b0 * 65536 + b1 * 256 + b2) as u32;
    lemma_split_triple(t);
    let g = encode_group(d);
    assert(t as int == d[0] as int * 65536 + (if d.len() > 1 {
        d[1] as int
    } else {
        0
    }) * 256 + (if d.len() > 2 {
        d[2] as int
    } else {
        0
    }));
    lemma_sextet_value((t / 262144 % 64) as int);
    lemma_sextet_value((t / 4096 % 64) as int);
    lemma_sextet_value((t / 64 % 64) as int);
    lemma_sextet_value((t % 64) as int);
    let n: int = if d.len() < 3 {
        d.len() as int
    } else {
        3
    };
    let out = decode_group(g);
    assert(out.len() == n);
    assert(out =~= d.take(n)) by {
        assert(out[0] == d[0]);
        if n > 1 {
            assert(out[1] == d[1]);
        }
        if n > 2 {
            assert(out[2] == d[2]);
        }
    }
}

/// Decoding an encoding gives back the bytes: Base64 loses nothing, so two
/// different byte sequences never have the same encoding.
pub proof fn lemma_base64_roundtrip(d: Seq<u8>)
    ensures
        base64_decode_spec(base64_spec(d)) == d,
    decreases d.len(),
{
    if d.len() == 0 {
    } else {
        lemma_group_roundtrip(d);
        let g = encode_group(d);
        if d.len() <= 3 {
            assert(g.take(4) == g);
            assert(g.skip(4).len() == 0);
            assert(d.take(d.len() as int) == d);
            assert(base64_decode_spec(g) == decode_group(g) + base64_decode_spec(g.skip(4)));
        } else {
            lemma_base64_roundtrip(d.skip(3));
            let r = base64_spec(d.skip(3));
            assert((g + r).take(4) == g);
            assert((g + r).skip(4) == r);
            assert(d.take(3) + d.skip(3) == d);
        }
    }
}

/// Different byte sequences have different encodings.
pub proof fn lemma_base64_injective(a: Seq<u8>, b: Seq<u8>)
    requires
        base64_spec(a) == base64_spec(b),
    ensures
        a == b,
{
    lemma_base64_roundtrip(a);
    lemma_base64_roundtrip(b);
}

} // verus!
