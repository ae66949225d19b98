//! The text snippet of a preview: the beginning of a file's text, cut after a
//! byte budget or a number of lines, fed chunk by chunk as the file is read.
use vstd::prelude::*;
use vstd::utf8::{decode_utf8, encode_utf8, valid_utf8};
use crate::carry::{
    byte_chunks,
    chunk_text,
    concat_chunks,
    copy_bytes,
    decode_chunk,
    held_ok,
    lemma_chunk_text_ok,
    lemma_chunk_text_valid,
    lossy_each,
    lossy_each_of,
};
use crate::text::{
    chars_vec,
    lemma_encode_concat,
    lemma_encode_push,
    lemma_scalar_width,
    push_char,
    push_str,
    to_string,
    utf8_width,
};

verus! {

/// The byte budget of a snippet: once the kept text reaches it, reading stops.
pub const MAX_SNIPPET_BYTES: usize = 4096;

/// The number of lines a snippet keeps.
pub const MAX_SNIPPET_LINES: usize = 30;

/// Where a snippet stands after some text: still reading, with the kept text and
/// the number of line breaks in it, or finished with its final text.
pub enum SnippetState {
    Reading { kept: Seq<char>, lines: nat },
    Finished { out: Seq<char> },
}

/// The state before any text.
pub open spec fn snippet_start() -> SnippetState {
    SnippetState::Reading { kept: seq![], lines: 0 }
}

/// The marker appended when the byte budget is reached.
pub open spec fn bytes_marker() -> Seq<char> {
    "...\n[Preview truncated]"@
}

/// The marker that replaces the line break ending the last kept line when more
/// text follows the line limit.
pub open spec fn lines_marker() -> Seq<char> {
    "\n... [Lines truncated]"@
}

/// The effect of one character: once the kept text has reached the byte budget
/// the snippet finishes with the budget marker; once the line limit's worth of line
/// breaks is kept, any further character finishes it at the end of the last kept
/// line, whose line break the lines marker replaces; otherwise the character is kept.
pub open spec fn snippet_step(st: SnippetState, c: char) -> SnippetState {
    match st {
        SnippetState::Finished { out } => st,
        SnippetState::Reading { kept, lines } => if encode_utf8(kept).len() >= MAX_SNIPPET_BYTES {
            SnippetState::Finished { out: kept + bytes_marker() }
        } else if lines >= MAX_SNIPPET_LINES {
            SnippetState::Finished { out: kept.drop_last() + lines_marker() }
        } else if c == '\n' {
            SnippetState::Reading { kept: kept.push(c), lines: lines + 1 }
        } else {
            SnippetState::Reading { kept: kept.push(c), lines }
        },
    }
}

/// The state after the characters of `s`, one at a time, from `st`.
pub open spec fn snippet_scan(st: SnippetState, s: Seq<char>) -> SnippetState
    decreases s.len(),
{
    if s.len() == 0 {
        st
    } else {
        snippet_step(snippet_scan(st, s.drop_last()), s.last())
    }
}

/// The snippet when the file ends in state `st`: the kept text, or `[Empty file]`
/// when nothing was kept.
pub open spec fn snippet_at_end(st: SnippetState) -> Seq<char> {
    match st {
        SnippetState::Reading { kept, lines } => if kept.len() == 0 {
            "[Empty file]"@
        } else {
            kept
        },
        SnippetState::Finished { out } => out,
    }
}

/// The number of line breaks in `s`.
pub open spec fn newline_count(s: Seq<char>) -> nat
    decreases s.len(),
{
    if s.len() == 0 {
        0
    } else {
        newline_count(s.drop_last()) + if s.last() == '\n' {
            1nat
        } else {
            0nat
        }
    }
}

/// The effect of a chunk of bytes on a snippet in state `st` whose builder holds the
/// chunks `held` that wait for the end of a character: the text that the chunk
/// gives (see `chunk_text`) is fed, and the chunks to hold next are kept.
pub open spec fn feed_step(st: SnippetState, held: Seq<Seq<u8>>, chunk: Seq<u8>) -> (
    SnippetState,
    Seq<Seq<u8>>,
) {
    let (text, next) = chunk_text(held, chunk);
    (snippet_scan(st, text), next)
}

/// The state and the held chunks after the chunks, fed in order to a new builder.
pub open spec fn feed_chunks(chunks: Seq<Seq<u8>>) -> (SnippetState, Seq<Seq<u8>>)
    decreases chunks.len(),
{
    if chunks.len() == 0 {
        (snippet_start(), seq![])
    } else {
        let (st, held) = feed_chunks(chunks.drop_last());
        feed_step(st, held, chunks.last())
    }
}

/// The snippet when the file ends in state `st` with the chunks `held`: these are
/// each decoded on their own and fed first.
pub open spec fn snippet_finish(st: SnippetState, held: Seq<Seq<u8>>) -> Seq<char> {
    snippet_at_end(
        if held.len() == 0 {
            st
        } else {
            snippet_scan(st, lossy_each(held))
        },
    )
}

/// Builds a snippet from the chunks of a file, in the order they are read. Each
/// chunk is decoded on its own, invalid UTF-8 becoming replacement characters, but
/// a character whose valid encoding is split between chunks is decoded whole.
pub struct SnippetBuilder {
    buf: String,
    buf_bytes: usize,
    line_count: usize,
    finished: bool,
    held: Vec<Vec<u8>>,
}

impl SnippetBuilder {
    #[verifier::type_invariant]
    closed spec fn inv(self) -> bool {
        held_ok(byte_chunks(self.held@)) && (self.finished || (self.buf_bytes == encode_utf8(self.buf@).len() && self.buf_bytes
            < MAX_SNIPPET_BYTES + 4 && self.line_count <= MAX_SNIPPET_LINES && (self.line_count
            == MAX_SNIPPET_LINES ==> self.buf@.len() > 0 && self.buf@.last() == '\n')))
    }

    /// The state of the snippet.
    pub closed spec fn state(self) -> SnippetState {
        if self.finished {
            SnippetState::Finished { out: self.buf@ }
        } else {
            SnippetState::Reading { kept: self.buf@, lines: self.line_count as nat }
        }
    }

    /// The chunks held until a character begun in them ends.
    pub closed spec fn held(self) -> Seq<Seq<u8>> {
        byte_chunks(self.held@)
    }

    /// A builder that has seen no text.
    pub fn new() -> (b: Self)
        ensures
            b.state() == snippet_start(),
            b.held().len() == 0,
    {
        proof {
            assert(encode_utf8(Seq::<char>::empty()) == Seq::<u8>::empty());
        }
        SnippetBuilder {
            buf: String::new(),
            buf_bytes: 0,
            line_count: 0,
            finished: false,
            held: Vec::new(),
        }
    }

    /// Feeds the next chunk of the file, decoded as UTF-8 (invalid bytes replaced),
    /// except that a character begun at its end is held until a later chunk ends it
    /// (see `chunk_text`).
    /// Returns the finished snippet once the byte budget or the line limit has been
    /// passed, `None` while more text can still be kept.
    pub fn feed(&mut self, chunk: &[u8]) -> (r: Option<String>)
        ensures
            (final(self).state(), final(self).held()) == feed_step(
                old(self).state(),
                old(self).held(),
                chunk@,
            ),
            match final(self).state() {
                SnippetState::Finished { out } => r matches Some(s) && s@ == out,
                SnippetState::Reading { .. } => r is None,
            },
    {
        proof {
            use_type_invariant(&*self);
        }
        let mut held: Vec<Vec<u8>> = Vec::new();
        proof {
            assert(byte_chunks(held@) == Seq::<Seq<u8>>::empty());
        }
        std::mem::swap(&mut held, &mut self.held);
        let bytes = copy_bytes(chunk, 0, chunk.len());
        proof {
            assert(chunk@.subrange(0, chunk@.len() as int) == chunk@);
        }
        let (text, next) = decode_chunk(held, bytes);
        self.held = next;
        self.feed_text(text.as_str())
    }

    /// Feeds decoded text. Returns the finished snippet once the byte budget or the
    /// line limit has been passed, `None` while more text can still be kept.
    pub fn feed_text(&mut self, text: &str) -> (r: Option<String>)
        ensures
            final(self).state() == snippet_scan(old(self).state(), text@),
            final(self).held() == old(self).held(),
            match final(self).state() {
                SnippetState::Finished { out } => r matches Some(s) && s@ == out,
                SnippetState::Reading { .. } => r is None,
            },
    {
        let mut cur = SnippetBuilder::new();
        std::mem::swap(&mut cur, self);
        proof {
            use_type_invariant(&cur);
        }
        let ghost st0 = cur.state();
        let SnippetBuilder { buf, buf_bytes, line_count, finished, held } = cur;
        let mut buf = buf;
        let mut bytes = buf_bytes;
        let mut lines = line_count;
        let mut done = finished;
        for c in it: text.chars()
            invariant
                it.seq() == text@,
                done || (bytes == encode_utf8(buf@).len() && bytes < MAX_SNIPPET_BYTES + 4 && lines
                    <= MAX_SNIPPET_LINES && (lines == MAX_SNIPPET_LINES ==> buf@.len() > 0
                    && buf@.last() == '\n')),
                (if done {
                    SnippetState::Finished { out: buf@ }
                } else {
                    SnippetState::Reading { kept: buf@, lines: lines as nat }
                }) == snippet_scan(st0, text@.take(it.index() as int)),
        {
            let ghost prefix = text@.take(it.index() as int);
            proof {
                assert(text@.take(it.index() + 1).drop_last() == prefix);
                assert(text@.take(it.index() + 1).last() == c);
            }
            if !done {
                if bytes >= MAX_SNIPPET_BYTES {
                    push_str(&mut buf, "...\n[Preview truncated]");
                    done = true;
                } else if lines >= MAX_SNIPPET_LINES {
                    let mut cut = without_last(buf.as_str());
                    push_str(&mut cut, "\n... [Lines truncated]");
                    buf = cut;
                    done = true;
                } else if c == '\n' {
                    let ghost before = buf@;
                    push_char(&mut buf, c);
                    proof {
                        lemma_encode_push(before, c);
                        lemma_scalar_width(c);
                    }
                    bytes = bytes + 1;
                    lines = lines + 1;
                } else {
                    let ghost before = buf@;
                    push_char(&mut buf, c);
                    let w = utf8_width(c);
                    proof {
                        lemma_encode_push(before, c);
                    }
                    bytes = bytes + w;
                }
            }
        }
        proof {
            assert(text@.take(text@.len() as int) == text@);
        }
        let result = if done {
            Some(to_string(buf.as_str()))
        } else {
            None
        };
        *self = SnippetBuilder { buf, buf_bytes: bytes, line_count: lines, finished: done, held };
        result
    }

    /// The snippet when the file has ended (or cannot be read further).
    /// Chunks still held are each decoded on their own and fed first.
    pub fn finish(self) -> (s: String)
        ensures
            s@ == snippet_finish(self.state(), self.held()),
    {
        let mut me = self;
        if me.held.len() > 0 {
            let text = lossy_each_of(&me.held);
            me.feed_text(text.as_str());
        }
        let empty = me.buf.unicode_len() == 0;
        if !me.finished && empty {
            to_string("[Empty file]")
        } else {
            me.buf
        }
    }
}

/// All characters of `s` but the last.
fn without_last(s: &str) -> (r: String)
    requires
        s@.len() > 0,
    ensures
        r@ == s@.drop_last(),
{
    let cs = chars_vec(s);
    let n = cs.len() - 1;
    let mut r = String::new();
    let mut i: usize = 0;
    while i < n
        invariant
            cs@ == s@,
            n == cs@.len() - 1,
            i <= n,
            r@ == s@.take(i as int),
        decreases n - i,
    {
        push_char(&mut r, cs[i]);
        proof {
            assert(s@.take(i + 1) == s@.take(i as int).push(cs@[i as int]));
        }
        i = i + 1;
    }
    r
}

/// Feeding text in pieces ends in the same state as feeding it at once.
pub proof fn lemma_scan_concat(st: SnippetState, a: Seq<char>, b: Seq<char>)
    ensures
        snippet_scan(st, a + b) == snippet_scan(snippet_scan(st, a), b),
    decreases b.len(),
{
    if b.len() == 0 {
        assert(a + b == a);
    } else {
        lemma_scan_concat(st, a, b.drop_last());
        assert((a + b).drop_last() == a + b.drop_last());
        assert((a + b).last() == b.last());
    }
}

/// Once finished, a snippet does not change.
pub proof fn lemma_finished_stays(out: Seq<char>, s: Seq<char>)
    ensures
        snippet_scan(SnippetState::Finished { out }, s) == (SnippetState::Finished { out }),
    decreases s.len(),
{
    if s.len() > 0 {
        lemma_finished_stays(out, s.drop_last());
    }
}

/// The number of lines of a text, as `str::lines` counts them: one per line break,
/// and one more for text after the last line break.
pub open spec fn line_total(s: Seq<char>) -> nat {
    newline_count(s) + if s.len() > 0 && s.last() != '\n' {
        1nat
    } else {
        0nat
    }
}

/// Whether text shown in a snippet respects the limits: at most 30 lines, and fewer
/// bytes than the 4096-byte budget plus one character's (at most four).
pub open spec fn within_limits(kept: Seq<char>) -> bool {
    line_total(kept) <= 30 && encode_utf8(kept).len() < 4100
}

/// A snippet shows at most 30 lines and about 4 KB: while reading it has kept all
/// of the text so far; once finished, its text before the marker is a beginning of
/// the input (without the line break that the lines marker replaces), within the
/// limits.
pub proof fn lemma_snippet_bounds(s: Seq<char>)
    ensures
        match snippet_scan(snippet_start(), s) {
            SnippetState::Reading { kept, lines } => kept == s && lines == newline_count(s)
                && within_limits(s) && (lines == MAX_SNIPPET_LINES ==> s.len() > 0 && s.last()
                == '\n'),
            SnippetState::Finished { out } => exists|k: int|
                0 <= k < s.len() && ((within_limits(#[trigger] s.take(k)) && out == s.take(k)
                    + bytes_marker()) || (s.take(k).len() > 0 && s.take(k).last() == '\n'
                    && within_limits(s.take(k).drop_last()) && out == s.take(k).drop_last()
                    + lines_marker())),
        },
    decreases s.len(),
{
    if s.len() == 0 {
        assert(encode_utf8(Seq::<char>::empty()) == Seq::<u8>::empty());
    } else {
        let p = s.drop_last();
        let c = s.last();
        lemma_snippet_bounds(p);
        match snippet_scan(snippet_start(), p) {
            SnippetState::Reading { kept, lines } => {
                assert(p.take(p.len() as int) == p);
                assert(s.take(p.len() as int) == p);
                if encode_utf8(kept).len() >= MAX_SNIPPET_BYTES {
                } else if lines >= MAX_SNIPPET_LINES {
                    let d = p.drop_last();
                    assert(d.push(p.last()) == p);
                    assert(newline_count(p) == newline_count(d) + 1);
                    lemma_encode_push(d, p.last());
                } else {
                    lemma_encode_push(p, c);
                    lemma_scalar_width(c);
                    assert(p.push(c) == s);
                }
            },
            SnippetState::Finished { out } => {
                let k = choose|k: int|
                    0 <= k < p.len() && ((within_limits(#[trigger] p.take(k)) && out == p.take(k)
                        + bytes_marker()) || (p.take(k).len() > 0 && p.take(k).last() == '\n'
                        && within_limits(p.take(k).drop_last()) && out == p.take(k).drop_last()
                        + lines_marker()));
                assert(s.take(k) == p.take(k));
            },
        }
    }
}

/// The text fed to a new builder by the chunks, in order.
spec fn fed_text(chunks: Seq<Seq<u8>>) -> Seq<char>
    decreases chunks.len(),
{
    if chunks.len() == 0 {
        seq![]
    } else {
        fed_text(chunks.drop_last()) + chunk_text(
            feed_chunks(chunks.drop_last()).1,
            chunks.last(),
        ).0
    }
}

proof fn lemma_feed_chunks(chunks: Seq<Seq<u8>>, rest: Seq<u8>)
    requires
        valid_utf8(concat_chunks(chunks) + rest),
    ensures
        feed_chunks(chunks).0 == snippet_scan(snippet_start(), fed_text(chunks)),
        held_ok(feed_chunks(chunks).1),
        valid_utf8(concat_chunks(feed_chunks(chunks).1) + rest),
        decode_utf8(concat_chunks(chunks) + rest) == fed_text(chunks) + decode_utf8(
            concat_chunks(feed_chunks(chunks).1) + rest,
        ),
        rest.len() == 0 ==> feed_chunks(chunks).1.len() == 0,
    decreases chunks.len(),
{
    if chunks.len() == 0 {
        assert(concat_chunks(Seq::<Seq<u8>>::empty()) + rest == rest);
        assert(Seq::<char>::empty() + decode_utf8(rest) == decode_utf8(rest));
    } else {
        let front = chunks.drop_last();
        let c = chunks.last();
        assert(concat_chunks(chunks) + rest == concat_chunks(front) + (c + rest));
        lemma_feed_chunks(front, c + rest);
        let (st0, held) = feed_chunks(front);
        assert(concat_chunks(held) + (c + rest) == concat_chunks(held) + c + rest);
        lemma_chunk_text_valid(held, c, rest);
        lemma_chunk_text_ok(held, c);
        let (text, next) = chunk_text(held, c);
        let t0 = fed_text(front);
        lemma_scan_concat(snippet_start(), t0, text);
        assert(fed_text(chunks) == t0 + text);
        assert(t0 + (text + decode_utf8(concat_chunks(next) + rest)) == fed_text(chunks)
            + decode_utf8(concat_chunks(next) + rest));
    }
}

/// A file whose bytes are valid UTF-8 gives the snippet of its whole text, however
/// its bytes are cut into chunks: characters split between chunks are kept whole.
pub proof fn lemma_chunked_utf8(chunks: Seq<Seq<u8>>)
    requires
        valid_utf8(concat_chunks(chunks)),
    ensures
        snippet_finish(feed_chunks(chunks).0, feed_chunks(chunks).1) == snippet_at_end(
            snippet_scan(snippet_start(), decode_utf8(concat_chunks(chunks))),
        ),
{
    let whole = concat_chunks(chunks);
    assert(whole + Seq::<u8>::empty() == whole);
    lemma_feed_chunks(chunks, seq![]);
    let held = feed_chunks(chunks).1;
    assert(held.len() == 0);
    assert(concat_chunks(held) + Seq::<u8>::empty() == Seq::<u8>::empty());
    assert(decode_utf8(Seq::<u8>::empty()) == Seq::<char>::empty());
    assert(fed_text(chunks) + Seq::<char>::empty() == fed_text(chunks));
}

proof fn lemma_newline_concat(a: Seq<char>, b: Seq<char>)
    ensures
        newline_count(a + b) == newline_count(a) + newline_count(b),
    decreases b.len(),
{
    if b.len() == 0 {
        assert(a + b == a);
    } else {
        lemma_newline_concat(a, b.drop_last());
        assert((a + b).drop_last() == a + b.drop_last());
        assert((a + b).last() == b.last());
    }
}

proof fn lemma_small_prefix(s: Seq<char>, i: int)
    requires
        line_total(s) <= MAX_SNIPPET_LINES,
        encode_utf8(s).len() <= MAX_SNIPPET_BYTES,
        0 <= i <= s.len(),
    ensures
        snippet_scan(snippet_start(), s.take(i)) == (SnippetState::Reading {
            kept: s.take(i),
            lines: newline_count(s.take(i)),
        }),
    decreases i,
{
    if i == 0 {
        assert(s.take(0) == Seq::<char>::empty());
    } else {
        lemma_small_prefix(s, i - 1);
        let p = s.take(i - 1);
        let c = s[i - 1];
        assert(s.take(i).drop_last() == p);
        assert(s.take(i).last() == c);
        assert(p.push(c) == s.take(i));
        assert(s == s.take(i) + s.skip(i));
        lemma_encode_concat(s.take(i), s.skip(i));
        lemma_encode_push(p, c);
        assert(s == p + s.skip(i - 1));
        lemma_newline_concat(p, s.skip(i - 1));
        let t = s.skip(i - 1);
        if newline_count(p) >= MAX_SNIPPET_LINES {
            if newline_count(t) == 0 {
                assert(t.last() != '\n');
                assert(s.last() == t.last());
            }
            assert(false);
        }
    }
}

/// A text within the limits, at most 30 lines and 4096 bytes, is shown whole and
/// unchanged (an empty one as the empty-file note).
pub proof fn lemma_small_text_whole(s: Seq<char>)
    requires
        line_total(s) <= 30,
        encode_utf8(s).len() <= 4096,
    ensures
        snippet_at_end(snippet_scan(snippet_start(), s)) == if s.len() == 0 {
            "[Empty file]"@
        } else {
            s
        },
{
    lemma_small_prefix(s, s.len() as int);
    assert(s.take(s.len() as int) == s);
}

} // verus!
