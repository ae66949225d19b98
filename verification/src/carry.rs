//! Decoding the chunks of a file as they are read: each chunk is decoded on its
//! own, invalid UTF-8 becoming replacement characters, except that a character
//! whose valid encoding is split between chunks is held until it is complete and
//! then decoded whole.
use vstd::prelude::*;
use vstd::utf8::{
    decode_utf8,
    is_char_boundary,
    is_continuation_byte,
    length_of_first_scalar,
    pop_first_scalar,
    valid_first_scalar,
    valid_utf8,
};
use crate::text::{decode_utf8_lossy, push_str, utf8_lossy};

verus! {

/// The number of bytes of the character that a leading byte starts (1 for any
/// other byte).
pub open spec fn lead_width(b: u8) -> int {
    if 0xc0 <= b <= 0xdf {
        2
    } else if 0xe0 <= b <= 0xef {
        3
    } else if 0xf0 <= b <= 0xf7 {
        4
    } else {
        1
    }
}

/// Where the bytes `b` are cut: before the last character's leading byte when fewer
/// bytes follow it than the character needs, else at the end. Only the last three
/// bytes are looked at, as no character is longer than four.
pub open spec fn tail_cut(b: Seq<u8>) -> int {
    let n = b.len() as int;
    if n >= 1 && !is_continuation_byte(b[n - 1]) {
        if lead_width(b[n - 1]) > 1 {
            n - 1
        } else {
            n
        }
    } else if n >= 2 && !is_continuation_byte(b[n - 2]) {
        if lead_width(b[n - 2]) > 2 {
            n - 2
        } else {
            n
        }
    } else if n >= 3 && !is_continuation_byte(b[n - 3]) {
        if lead_width(b[n - 3]) > 3 {
            n - 3
        } else {
            n
        }
    } else {
        n
    }
}

fn lead_width_of(b: u8) -> (r: usize)
    ensures
        r == lead_width(b),
{
    if 0xc0 <= b && b <= 0xdf {
        2
    } else if 0xe0 <= b && b <= 0xef {
        3
    } else if 0xf0 <= b && b <= 0xf7 {
        4
    } else {
        1
    }
}

fn is_continuation(b: u8) -> (r: bool)
    ensures
        r == is_continuation_byte(b),
{
    0x80 <= b && b <= 0xbf
}

/// Where the bytes are cut so that the part before the cut ends with a whole
/// character (see `tail_cut`).
pub fn find_tail_cut(b: &[u8]) -> (k: usize)
    ensures
        k == tail_cut(b@),
{
    let n = b.len();
    if n >= 1 && !is_continuation(b[n - 1]) {
        if lead_width_of(b[n - 1]) > 1 {
            n - 1
        } else {
            n
        }
    } else if n >= 2 && !is_continuation(b[n - 2]) {
        if lead_width_of(b[n - 2]) > 2 {
            n - 2
        } else {
            n
        }
    } else if n >= 3 && !is_continuation(b[n - 3]) {
        if lead_width_of(b[n - 3]) > 3 {
            n - 3
        } else {
            n
        }
    } else {
        n
    }
}

/// In valid UTF-8, each byte lies in the encoding of one character: it starts at a
/// character boundary `q` with a leading byte, is as long as that byte says, and
/// ends at a character boundary.
proof fn lemma_inside_char(w: Seq<u8>, i: int) -> (q: int)
    requires
        valid_utf8(w),
        0 <= i < w.len(),
    ensures
        0 <= q <= i < q + lead_width(w[q]) <= w.len(),
        is_char_boundary(w, q),
        is_char_boundary(w, q + lead_width(w[q])),
        !is_continuation_byte(w[q]),
        forall|j: int| q < j < q + lead_width(w[q]) ==> is_continuation_byte(#[trigger] w[j]),
    decreases w.len(),
{
    let l = length_of_first_scalar(w);
    let tail = pop_first_scalar(w);
    assert(l == lead_width(w[0]));
    assert(tail.len() == w.len() - l);
    if i < l {
        assert(is_char_boundary(tail, 0));
        assert(is_char_boundary(w, l));
        0
    } else {
        let q1 = lemma_inside_char(tail, i - l);
        let q = q1 + l;
        assert(tail[q1] == w[q]);
        assert(is_char_boundary(w, q) == is_char_boundary(tail, q1));
        let e = q + lead_width(w[q]);
        assert(is_char_boundary(w, e) == is_char_boundary(tail, e - l));
        assert forall|j: int| q < j < q + lead_width(w[q]) implies is_continuation_byte(
            #[trigger] w[j],
        ) by {
            assert(w[j] == tail[j - l]);
        }
        q
    }
}

/// Where the bytes `all` are followed by `rest` and together they are valid UTF-8,
/// the cut of `all` falls on a character boundary: the bytes before it and the
/// bytes after it together with `rest` are each valid, and decode to the whole
/// text. Where nothing follows, nothing is cut off.
pub proof fn lemma_tail_cut(all: Seq<u8>, rest: Seq<u8>)
    requires
        valid_utf8(all + rest),
    ensures
        0 <= tail_cut(all) <= all.len(),
        valid_utf8(all.take(tail_cut(all))),
        valid_utf8(all.skip(tail_cut(all)) + rest),
        decode_utf8(all + rest) == decode_utf8(all.take(tail_cut(all))) + decode_utf8(
            all.skip(tail_cut(all)) + rest,
        ),
        rest.len() == 0 ==> tail_cut(all) == all.len(),
{
    let w = all + rest;
    let n = all.len() as int;
    let k = tail_cut(all);
    if n == 0 {
        assert(is_char_boundary(w, 0));
    } else {
        let q = lemma_inside_char(w, n - 1);
        let l = lead_width(w[q]);
        assert(w[q] == all[q]);
        assert(forall|j: int| q < j < n ==> w[j] == all[j]);
        if q == n - 1 {
        } else if q == n - 2 {
            assert(is_continuation_byte(w[n - 1]));
        } else if q == n - 3 {
            assert(is_continuation_byte(w[n - 1]));
            assert(is_continuation_byte(w[n - 2]));
        } else {
            assert(is_continuation_byte(w[n - 1]));
            assert(is_continuation_byte(w[n - 2]));
            assert(is_continuation_byte(w[n - 3]));
        }
        assert(k == q || k == q + l);
        assert(is_char_boundary(w, k));
    }
    vstd::utf8::valid_utf8_split(w, k);
    vstd::utf8::decode_utf8_split(w, k);
    assert(w.subrange(0, k) == all.take(k));
    assert(w.subrange(k, w.len() as int) == all.skip(k) + rest);
}

/// The text of bytes as std's `String::from_utf8_lossy` gives it: valid UTF-8 is
/// decoded unchanged.
pub open spec fn lossy_text(b: Seq<u8>) -> Seq<char> {
    if valid_utf8(b) {
        decode_utf8(b)
    } else {
        utf8_lossy(b)
    }
}

/// The bytes of the chunks, one after another.
pub open spec fn concat_chunks(chunks: Seq<Seq<u8>>) -> Seq<u8>
    decreases chunks.len(),
{
    if chunks.len() == 0 {
        seq![]
    } else {
        concat_chunks(chunks.drop_last()) + chunks.last()
    }
}

/// The text of chunks, each decoded on its own.
pub open spec fn lossy_each(chunks: Seq<Seq<u8>>) -> Seq<char>
    decreases chunks.len(),
{
    if chunks.len() == 0 {
        seq![]
    } else {
        lossy_each(chunks.drop_last()) + lossy_text(chunks.last())
    }
}

/// Whether the bytes `t` of a begun character can still be the beginning of one:
/// fewer than its leading byte announces, all after the first continuation bytes.
pub open spec fn still_open(t: Seq<u8>) -> bool {
    0 < t.len() < lead_width(t[0]) && forall|i: int|
        1 <= i < t.len() ==> is_continuation_byte(#[trigger] t[i])
}

/// The bytes of the character begun in the first held chunk, to the end of the
/// held chunks.
pub open spec fn open_tail(held: Seq<Seq<u8>>) -> Seq<u8> {
    concat_chunks(held).skip(tail_cut(held[0]))
}

/// Chunks that wait for the end of a character: none, or a first chunk that ends
/// with the beginning of a character, and after it chunks that only continue it.
pub open spec fn held_ok(held: Seq<Seq<u8>>) -> bool {
    held.len() > 0 ==> tail_cut(held[0]) < held[0].len() && still_open(open_tail(held))
}

/// A chunk with nothing held before it: decoded on its own when it ends with a
/// whole character, else held.
pub open spec fn settle(x: Seq<u8>) -> (Seq<char>, Seq<Seq<u8>>) {
    if tail_cut(x) == x.len() {
        (lossy_text(x), seq![])
    } else {
        (seq![], seq![x])
    }
}

/// The text that a chunk gives, after the chunks `held`, and the chunks held after
/// it. With nothing held the chunk is settled. Otherwise the begun character, with
/// the chunk's bytes after it, is either still open (the chunk is held too), or
/// complete and valid (the first held chunk is decoded up to it, the character is
/// decoded whole and the rest of the chunk is settled), or neither (each held chunk
/// is decoded on its own and the chunk is settled).
pub open spec fn chunk_text(held: Seq<Seq<u8>>, chunk: Seq<u8>) -> (Seq<char>, Seq<Seq<u8>>) {
    if held.len() == 0 {
        settle(chunk)
    } else {
        let r = held[0];
        let k = tail_cut(r);
        let t = open_tail(held) + chunk;
        let l = lead_width(t[0]);
        if still_open(t) {
            (seq![], held.push(chunk))
        } else if t.len() >= l && valid_first_scalar(t) {
            let m = l - open_tail(held).len();
            let (rest, h) = settle(chunk.skip(m));
            (lossy_text(r.take(k)) + decode_utf8(t.take(l)) + rest, h)
        } else {
            let (rest, h) = settle(chunk);
            (lossy_each(held) + rest, h)
        }
    }
}

/// The chunks of `v` as byte sequences.
pub open spec fn byte_chunks(v: Seq<Vec<u8>>) -> Seq<Seq<u8>> {
    v.map_values(|x: Vec<u8>| x@)
}

/// Whether the bytes `t` start with the valid encoding of one character.
fn first_scalar_valid(t: &[u8]) -> (r: bool)
    requires
        t@.len() >= 1,
        0xc0 <= t@[0] <= 0xf7,
        t@.len() >= lead_width(t@[0]),
    ensures
        r == valid_first_scalar(t@),
{
    let b0 = t[0];
    if b0 <= 0xdf {
        let b1 = t[1];
        if !is_continuation(b1) {
            return false;
        }
        let cp: u32 = (((b0 & 0x1F) as u32) << 6) | ((b1 & 0x3f) as u32);
        0x80 <= cp && !(0xD800 <= cp && cp <= 0xDFFF)
    } else if b0 <= 0xef {
        let b1 = t[1];
        let b2 = t[2];
        if !is_continuation(b1) || !is_continuation(b2) {
            return false;
        }
        let cp: u32 = (((b0 & 0x0F) as u32) << 12) | (((b1 & 0x3f) as u32) << 6) | ((b2
            & 0x3f) as u32);
        0x800 <= cp && !(0xD800 <= cp && cp <= 0xDFFF)
    } else {
        let b1 = t[1];
        let b2 = t[2];
        let b3 = t[3];
        if !is_continuation(b1) || !is_continuation(b2) || !is_continuation(b3) {
            return false;
        }
        let cp: u32 = (((b0 & 0x07) as u32) << 18) | (((b1 & 0x3f) as u32) << 12) | (((b2
            & 0x3f) as u32) << 6) | ((b3 & 0x3f) as u32);
        0x10000 <= cp && cp <= 0x10ffff && !(0xD800 <= cp && cp <= 0xDFFF)
    }
}

fn all_continue(t: &[u8]) -> (r: bool)
    ensures
        r == (forall|i: int| 1 <= i < t@.len() ==> is_continuation_byte(#[trigger] t@[i])),
{
    let mut i: usize = 1;
    while i < t.len()
        invariant
            1 <= i,
            forall|j: int| 1 <= j < i && j < t@.len() ==> is_continuation_byte(#[trigger] t@[j]),
        decreases t.len() - i,
    {
        if !is_continuation(t[i]) {
            return false;
        }
        i = i + 1;
    }
    true
}

/// Whether the bytes `t` of a begun character can still be the beginning of one.
fn is_still_open(t: &[u8]) -> (r: bool)
    ensures
        r == still_open(t@),
{
    if t.len() == 0 {
        return false;
    }
    t.len() < lead_width_of(t[0]) && all_continue(t)
}

/// The bytes of `b` from `from` to `to`.
pub(crate) fn copy_bytes(b: &[u8], from: usize, to: usize) -> (v: Vec<u8>)
    requires
        from <= to <= b@.len(),
    ensures
        v@ == b@.subrange(from as int, to as int),
{
    let mut v: Vec<u8> = Vec::new();
    let mut i: usize = from;
    while i < to
        invariant
            from <= i <= to <= b@.len(),
            v@ == b@.subrange(from as int, i as int),
        decreases to - i,
    {
        v.push(b[i]);
        proof {
            assert(b@.subrange(from as int, i + 1) == b@.subrange(from as int, i as int).push(
                b@[i as int],
            ));
        }
        i = i + 1;
    }
    v
}

/// Appends the bytes of `b` to `v`.
fn append_bytes(v: &mut Vec<u8>, b: &[u8])
    ensures
        final(v)@ == old(v)@ + b@,
{
    let ghost start = v@;
    let mut i: usize = 0;
    while i < b.len()
        invariant
            i <= b@.len(),
            v@ == start + b@.take(i as int),
        decreases b@.len() - i,
    {
        v.push(b[i]);
        proof {
            assert(b@.take(i + 1) == b@.take(i as int).push(b@[i as int]));
        }
        i = i + 1;
    }
    proof {
        assert(b@.take(b@.len() as int) == b@);
    }
}

/// Where the cut of `x` is not at its end, the bytes after it are a begun
/// character that is still open, starting with a leading byte.
proof fn lemma_cut_open(x: Seq<u8>)
    requires
        tail_cut(x) < x.len(),
    ensures
        0 <= tail_cut(x),
        still_open(x.skip(tail_cut(x))),
        0xc0 <= x[tail_cut(x)] <= 0xf7,
{
    let k = tail_cut(x);
    let t = x.skip(k);
    assert forall|i: int| 1 <= i < t.len() implies is_continuation_byte(#[trigger] t[i]) by {
        assert(t[i] == x[k + i]);
    }
}

proof fn lemma_concat_push(h: Seq<Seq<u8>>, c: Seq<u8>)
    ensures
        concat_chunks(h.push(c)) == concat_chunks(h) + c,
{
    assert(h.push(c).drop_last() == h);
}

/// The first chunk begins the bytes of all.
proof fn lemma_concat_first(h: Seq<Seq<u8>>)
    requires
        h.len() > 0,
    ensures
        concat_chunks(h).len() >= h[0].len(),
        concat_chunks(h).take(h[0].len() as int) == h[0],
    decreases h.len(),
{
    if h.len() == 1 {
        assert(h.drop_last() == Seq::<Seq<u8>>::empty());
        assert(concat_chunks(h.drop_last()) == Seq::<u8>::empty());
        assert(h.last() == h[0]);
        assert(concat_chunks(h) == Seq::<u8>::empty() + h[0]);
        assert(concat_chunks(h).take(h[0].len() as int) == h[0]);
    } else {
        lemma_concat_first(h.drop_last());
        assert(h.drop_last()[0] == h[0]);
        let a = concat_chunks(h.drop_last());
        assert((a + h.last()).take(h[0].len() as int) == a.take(h[0].len() as int));
    }
}

/// Two byte sequences that agree on the bytes of the character begun at their
/// start agree on whether it is validly encoded.
proof fn lemma_first_scalar_same(x: Seq<u8>, y: Seq<u8>)
    requires
        0xc0 <= x[0] <= 0xf7,
        x.len() >= lead_width(x[0]),
        y.len() >= lead_width(x[0]),
        forall|i: int| 0 <= i < lead_width(x[0]) ==> x[i] == y[i],
    ensures
        valid_first_scalar(x) == valid_first_scalar(y),
        valid_first_scalar(x) ==> length_of_first_scalar(x) == lead_width(x[0]),
{
    assert(x[0] == y[0]);
    assert(x[1] == y[1]);
    if lead_width(x[0]) >= 3 {
        assert(x[2] == y[2]);
    }
    if lead_width(x[0]) >= 4 {
        assert(x[3] == y[3]);
    }
}

/// A valid encoding of one character is valid UTF-8 on its own.
proof fn lemma_one_scalar(t: Seq<u8>)
    requires
        t.len() >= 1,
        0xc0 <= t[0] <= 0xf7,
        t.len() >= lead_width(t[0]),
        valid_first_scalar(t),
    ensures
        valid_utf8(t.take(lead_width(t[0]))),
{
    let l = lead_width(t[0]);
    let x = t.take(l);
    assert(forall|i: int| 0 <= i < l ==> t[i] == x[i]);
    lemma_first_scalar_same(t, x);
    let rest = pop_first_scalar(x);
    assert(rest.len() == 0);
    assert(valid_utf8(rest));
    assert(valid_utf8(x));
}

/// Settles a chunk with nothing held before it.
fn settle_chunk(x: Vec<u8>) -> (r: (String, Vec<Vec<u8>>))
    ensures
        (r.0@, byte_chunks(r.1@)) == settle(x@),
        held_ok(byte_chunks(r.1@)),
{
    let k = find_tail_cut(x.as_slice());
    if k == x.len() {
        let text = decode_utf8_lossy(x.as_slice());
        let h: Vec<Vec<u8>> = Vec::new();
        proof {
            assert(byte_chunks(h@) == Seq::<Seq<u8>>::empty());
        }
        (text, h)
    } else {
        let ghost xs = x@;
        let mut h: Vec<Vec<u8>> = Vec::new();
        h.push(x);
        proof {
            assert(byte_chunks(h@) == seq![xs]);
            lemma_concat_push(Seq::<Seq<u8>>::empty(), xs);
            assert(Seq::<Seq<u8>>::empty().push(xs) == seq![xs]);
            assert(Seq::<u8>::empty() + xs == xs);
            lemma_cut_open(xs);
        }
        (String::new(), h)
    }
}

/// The bytes of the character begun in the first held chunk, to the end of the
/// held chunks.
fn held_tail(held: &Vec<Vec<u8>>) -> (t: Vec<u8>)
    requires
        held@.len() > 0,
        tail_cut(held@[0]@) < held@[0]@.len(),
    ensures
        t@ == open_tail(byte_chunks(held@)),
{
    let ghost h = byte_chunks(held@);
    let k = find_tail_cut(held[0].as_slice());
    let mut t = copy_bytes(held[0].as_slice(), k, held[0].len());
    let mut i: usize = 1;
    proof {
        assert(h.take(1) == seq![h[0]]);
        lemma_concat_push(Seq::<Seq<u8>>::empty(), h[0]);
        assert(Seq::<Seq<u8>>::empty().push(h[0]) == seq![h[0]]);
        assert(Seq::<u8>::empty() + h[0] == h[0]);
    }
    while i < held.len()
        invariant
            h == byte_chunks(held@),
            1 <= i <= held@.len(),
            k == tail_cut(h[0]),
            k <= h[0].len(),
            t@ == concat_chunks(h.take(i as int)).skip(k as int),
        decreases held@.len() - i,
    {
        proof {
            lemma_concat_first(h.take(i as int));
            lemma_concat_push(h.take(i as int), h[i as int]);
            assert(h.take(i + 1) == h.take(i as int).push(h[i as int]));
            let a = concat_chunks(h.take(i as int));
            assert((a + h[i as int]).skip(k as int) == a.skip(k as int) + h[i as int]);
        }
        append_bytes(&mut t, held[i].as_slice());
        i = i + 1;
    }
    proof {
        assert(h.take(held@.len() as int) == h);
    }
    t
}

/// The text of the held chunks, each decoded on its own.
pub(crate) fn lossy_each_of(held: &Vec<Vec<u8>>) -> (s: String)
    ensures
        s@ == lossy_each(byte_chunks(held@)),
{
    let ghost h = byte_chunks(held@);
    let mut s = String::new();
    let mut i: usize = 0;
    while i < held.len()
        invariant
            h == byte_chunks(held@),
            i <= held@.len(),
            s@ == lossy_each(h.take(i as int)),
        decreases held@.len() - i,
    {
        let part = decode_utf8_lossy(held[i].as_slice());
        push_str(&mut s, part.as_str());
        proof {
            assert(h.take(i + 1).drop_last() == h.take(i as int));
        }
        i = i + 1;
    }
    proof {
        assert(h.take(held@.len() as int) == h);
    }
    s
}

/// The text that a chunk gives after the held chunks, and the chunks held after it
/// (see `chunk_text`).
#[verifier::rlimit(40)]
pub fn decode_chunk(held: Vec<Vec<u8>>, chunk: Vec<u8>) -> (r: (String, Vec<Vec<u8>>))
    requires
        held_ok(byte_chunks(held@)),
    ensures
        (r.0@, byte_chunks(r.1@)) == chunk_text(byte_chunks(held@), chunk@),
        held_ok(byte_chunks(r.1@)),
{
    if held.len() == 0 {
        return settle_chunk(chunk);
    }
    let ghost h = byte_chunks(held@);
    let ghost c = chunk@;
    let k = find_tail_cut(held[0].as_slice());
    let tail = held_tail(&held);
    let tl = tail.len();
    let mut t = tail;
    append_bytes(&mut t, chunk.as_slice());
    proof {
        lemma_concat_first(h);
        assert(open_tail(h)[0] == h[0][k as int]);
        lemma_cut_open(h[0]);
        assert(t@[0] == open_tail(h)[0]);
    }
    let l = lead_width_of(t[0]);
    if is_still_open(t.as_slice()) {
        let ghost t0 = t@;
        let mut next = held;
        next.push(chunk);
        proof {
            assert(byte_chunks(next@) == h.push(c));
            lemma_concat_push(h, c);
            assert(h.push(c)[0] == h[0]);
            assert((concat_chunks(h) + c).skip(k as int) == concat_chunks(h).skip(k as int) + c);
        }
        return (String::new(), next);
    }
    if t.len() >= l && first_scalar_valid(t.as_slice()) {
        let head = copy_bytes(held[0].as_slice(), 0, k);
        let mut text = decode_utf8_lossy(head.as_slice());
        let one = copy_bytes(t.as_slice(), 0, l);
        proof {
            lemma_one_scalar(t@);
            assert(one@ == t@.take(l as int));
            assert(head@ == h[0].take(k as int));
        }
        let ch = decode_utf8_lossy(one.as_slice());
        push_str(&mut text, ch.as_str());
        let m = l - tl;
        let rest = copy_bytes(chunk.as_slice(), m, chunk.len());
        proof {
            assert(rest@ == c.skip(m as int));
        }
        let (more, next) = settle_chunk(rest);
        push_str(&mut text, more.as_str());
        (text, next)
    } else {
        let mut text = lossy_each_of(&held);
        let (more, next) = settle_chunk(chunk);
        push_str(&mut text, more.as_str());
        (text, next)
    }
}

proof fn lemma_one_chunk(x: Seq<u8>)
    ensures
        concat_chunks(seq![x]) == x,
{
    lemma_concat_push(Seq::<Seq<u8>>::empty(), x);
    assert(Seq::<Seq<u8>>::empty().push(x) == seq![x]);
    assert(Seq::<u8>::empty() + x == x);
}

/// What a chunk leaves held after it is again a well-formed set of held chunks.
pub proof fn lemma_chunk_text_ok(held: Seq<Seq<u8>>, chunk: Seq<u8>)
    requires
        held_ok(held),
    ensures
        held_ok(chunk_text(held, chunk).1),
{
    assert forall|x: Seq<u8>| #[trigger] held_ok(settle(x).1) by {
        if tail_cut(x) < x.len() {
            lemma_one_chunk(x);
            lemma_cut_open(x);
        }
    }
    if held.len() > 0 {
        let k = tail_cut(held[0]);
        let t = open_tail(held) + chunk;
        lemma_concat_first(held);
        if still_open(t) {
            lemma_concat_push(held, chunk);
            assert(held.push(chunk)[0] == held[0]);
            let a = concat_chunks(held);
            assert((a + chunk).skip(k) == a.skip(k) + chunk);
        }
    }
}

proof fn lemma_settle_valid(x: Seq<u8>, rest: Seq<u8>)
    requires
        valid_utf8(x + rest),
    ensures
        valid_utf8(concat_chunks(settle(x).1) + rest),
        decode_utf8(x + rest) == settle(x).0 + decode_utf8(concat_chunks(settle(x).1) + rest),
        rest.len() == 0 ==> settle(x).1.len() == 0,
{
    lemma_tail_cut(x, rest);
    let k = tail_cut(x);
    if k == x.len() {
        assert(x.take(k) == x);
        assert(x.skip(k) + rest == rest);
        assert(concat_chunks(Seq::<Seq<u8>>::empty()) + rest == rest);
    } else {
        lemma_one_chunk(x);
        assert(Seq::<char>::empty() + decode_utf8(x + rest) == decode_utf8(x + rest));
    }
}

/// Where the held chunks, the chunk and the bytes `rest` after it are together valid
/// UTF-8, the chunk gives the text that they decode to, up to what it leaves held;
/// that and `rest` are valid together, and with nothing after, nothing is held.
#[verifier::rlimit(40)]
pub proof fn lemma_chunk_text_valid(held: Seq<Seq<u8>>, chunk: Seq<u8>, rest: Seq<u8>)
    requires
        held_ok(held),
        valid_utf8(concat_chunks(held) + chunk + rest),
    ensures
        valid_utf8(concat_chunks(chunk_text(held, chunk).1) + rest),
        decode_utf8(concat_chunks(held) + chunk + rest) == chunk_text(held, chunk).0
            + decode_utf8(concat_chunks(chunk_text(held, chunk).1) + rest),
        rest.len() == 0 ==> chunk_text(held, chunk).1.len() == 0,
{
    if held.len() == 0 {
        assert(concat_chunks(held) + chunk + rest == chunk + rest);
        lemma_settle_valid(chunk, rest);
    } else {
        let r = held[0];
        let k = tail_cut(r);
        let a = concat_chunks(held);
        lemma_concat_first(held);
        let after = a.skip(r.len() as int) + chunk + rest;
        assert(r + after == a + chunk + rest);
        lemma_tail_cut(r, after);
        let tail = open_tail(held);
        let t = tail + chunk;
        let u = t + rest;
        assert(r.skip(k) + after == u);
        assert(tail.len() > 0);
        let q = lemma_inside_char(u, 0);
        let l = lead_width(u[0]);
        assert(q == 0);
        assert(t[0] == u[0]);
        if t.len() < l {
            assert forall|i: int| 1 <= i < t.len() implies is_continuation_byte(#[trigger] t[i]) by {
                assert(t[i] == u[i]);
            }
            assert(still_open(t));
            lemma_concat_push(held, chunk);
            assert(concat_chunks(held.push(chunk)) + rest == a + chunk + rest);
            assert(Seq::<char>::empty() + decode_utf8(a + chunk + rest) == decode_utf8(
                a + chunk + rest,
            ));
        } else {
            assert(!still_open(t));
            assert(valid_first_scalar(u));
            assert(forall|i: int| 0 <= i < l ==> t[i] == u[i]);
            lemma_first_scalar_same(t, u);
            let m = l - tail.len();
            let x = chunk.skip(m);
            assert(u.take(l) == t.take(l));
            assert(u.skip(l) == x + rest);
            vstd::utf8::valid_utf8_split(u, l);
            vstd::utf8::decode_utf8_split(u, l);
            lemma_settle_valid(x, rest);
            assert(lossy_text(r.take(k)) == decode_utf8(r.take(k)));
        }
    }
}

} // verus!
