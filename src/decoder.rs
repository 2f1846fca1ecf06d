//! Turns a byte stream, delivered in chunks of any size, into complete text
//! lines. A partial trailing line is carried over to the next chunk.
use vstd::prelude::*;

use vstd::utf8::{decode_utf8, valid_utf8};

use crate::text::{all_ws, chars_of, is_blank};

verus! {

/// The text that lossy UTF-8 decoding gives for `b`.
pub uninterp spec fn lossy_utf8(b: Seq<u8>) -> Seq<char>;

/// Relies on `String::from_utf8_lossy`: decodes `b`, replacing invalid
/// sequences rather than failing; valid UTF-8 comes back as it is.
#[verifier::external_body]
fn decode_lossy(b: &[u8]) -> (r: String)
    ensures
        r@ == lossy_utf8(b@),
        valid_utf8(b@) ==> r@ == decode_utf8(b@),
{
    String::from_utf8_lossy(b).into_owned()
}

/// The views of a sequence of strings.
pub open spec fn views(v: Seq<String>) -> Seq<Seq<char>> {
    v.map_values(|s: String| s@)
}

/// A segment without its trailing carriage return, if it has one.
pub open spec fn strip_cr(seg: Seq<u8>) -> Seq<u8> {
    if seg.len() > 0 && seg.last() == 13u8 {
        seg.drop_last()
    } else {
        seg
    }
}

/// The text of one newline-terminated segment.
pub open spec fn line_text(seg: Seq<u8>) -> Seq<char> {
    lossy_utf8(strip_cr(seg))
}

/// What one completed segment contributes: its text, unless it is blank.
pub open spec fn emitted(seg: Seq<u8>) -> Seq<Seq<char>> {
    if all_ws(line_text(seg)) {
        seq![]
    } else {
        seq![line_text(seg)]
    }
}

/// The unfinished line left after reading `s` with `carry` pending.
pub open spec fn carry_after(carry: Seq<u8>, s: Seq<u8>) -> Seq<u8>
    decreases s.len(),
{
    if s.len() == 0 {
        carry
    } else if s.last() == 10u8 {
        seq![]
    } else {
        carry_after(carry, s.drop_last()).push(s.last())
    }
}

/// The lines completed while reading `s` with `carry` pending.
pub open spec fn lines_after(carry: Seq<u8>, s: Seq<u8>) -> Seq<Seq<char>>
    decreases s.len(),
{
    if s.len() == 0 {
        seq![]
    } else if s.last() == 10u8 {
        lines_after(carry, s.drop_last()) + emitted(carry_after(carry, s.drop_last()))
    } else {
        lines_after(carry, s.drop_last())
    }
}

/// Lines and final carry of feeding `chunks` one after another.
pub open spec fn decode_chunks(carry: Seq<u8>, chunks: Seq<Seq<u8>>) -> (Seq<Seq<char>>, Seq<u8>)
    decreases chunks.len(),
{
    if chunks.len() == 0 {
        (seq![], carry)
    } else {
        let rest = decode_chunks(carry_after(carry, chunks[0]), chunks.drop_first());
        (lines_after(carry, chunks[0]) + rest.0, rest.1)
    }
}

/// Reading `a` and then `b` completes the same lines, and leaves the same
/// carry, as reading `a + b` at once.
pub proof fn lemma_split_read(carry: Seq<u8>, a: Seq<u8>, b: Seq<u8>)
    ensures
        lines_after(carry, a + b) == lines_after(carry, a) + lines_after(carry_after(carry, a), b),
        carry_after(carry, a + b) == carry_after(carry_after(carry, a), b),
    decreases b.len(),
{
    if b.len() == 0 {
        assert(a + b =~= a);
        assert(lines_after(carry, a) + seq![] =~= lines_after(carry, a));
    } else {
        lemma_split_read(carry, a, b.drop_last());
        assert((a + b).drop_last() =~= a + b.drop_last());
        assert((a + b).last() == b.last());
        let c = carry_after(carry, a);
        if b.last() == 10u8 {
            assert(lines_after(carry, a + b) == lines_after(carry, a + b.drop_last()) + emitted(
                carry_after(carry, a + b.drop_last()),
            ));
            assert(lines_after(c, b) == lines_after(c, b.drop_last()) + emitted(
                carry_after(c, b.drop_last()),
            ));
            assert(lines_after(carry, a) + lines_after(c, b.drop_last()) + emitted(
                carry_after(c, b.drop_last()),
            ) =~= lines_after(carry, a) + (lines_after(c, b.drop_last()) + emitted(
                carry_after(c, b.drop_last()),
            )));
        }
    }
}

/// Decoder carry correctness: however a byte sequence is split into chunks,
/// feeding the chunks in order yields the same ordered lines, and the same
/// pending carry, as feeding their concatenation in one chunk.
pub proof fn lemma_chunking_invariant(carry: Seq<u8>, chunks: Seq<Seq<u8>>)
    ensures
        decode_chunks(carry, chunks) == (
            lines_after(carry, chunks.flatten()),
            carry_after(carry, chunks.flatten()),
        ),
    decreases chunks.len(),
{
    if chunks.len() == 0 {
        assert(chunks.flatten() =~= Seq::<u8>::empty());
    } else {
        let c1 = carry_after(carry, chunks[0]);
        lemma_chunking_invariant(c1, chunks.drop_first());
        assert(chunks.flatten() == chunks[0] + chunks.drop_first().flatten());
        lemma_split_read(carry, chunks[0], chunks.drop_first().flatten());
    }
}

/// Splits a byte stream into lines; holds the bytes of the unfinished last
/// line between chunks.
pub struct LineDecoder {
    pub carry: Vec<u8>,
}

impl LineDecoder {
    pub fn new() -> (r: LineDecoder)
        ensures
            r.carry@ == Seq::<u8>::empty(),
    {
        LineDecoder { carry: Vec::new() }
    }

    /// Forgets the pending partial line.
    pub fn clear(&mut self)
        ensures
            final(self).carry@ == Seq::<u8>::empty(),
    {
        self.carry = Vec::new();
    }

    /// Feeds one chunk; returns the non-blank lines it completes, without
    /// their line terminators.
    pub fn feed(&mut self, chunk: &[u8]) -> (r: Vec<String>)
        ensures
            views(r@) == lines_after(old(self).carry@, chunk@),
            final(self).carry@ == carry_after(old(self).carry@, chunk@),
    {
        let ghost c0 = self.carry@;
        let mut cur: Vec<u8> = Vec::new();
        std::mem::swap(&mut cur, &mut self.carry);
        let mut out: Vec<String> = Vec::new();
        let mut i: usize = 0;
        while i < chunk.len()
            invariant
                i <= chunk@.len(),
                views(out@) == lines_after(c0, chunk@.take(i as int)),
                cur@ == carry_after(c0, chunk@.take(i as int)),
            decreases chunk@.len() - i,
        {
            let b = chunk[i];
            let ghost before = chunk@.take(i as int);
            assert(chunk@.take(i + 1).drop_last() =~= before);
            assert(chunk@.take(i + 1).last() == b);
            if b == 10u8 {
                let ghost seg = cur@;
                if cur.len() > 0 && cur[cur.len() - 1] == 13u8 {
                    cur.pop();
                }
                assert(cur@ == strip_cr(seg));
                let text = decode_lossy(cur.as_slice());
                let cs = chars_of(text.as_str());
                if !is_blank(&cs) {
                    assert(views(out@.push(text)) =~= views(out@).push(text@));
                    out.push(text);
                    assert(views(out@) =~= lines_after(c0, before) + emitted(seg));
                } else {
                    assert(views(out@) =~= lines_after(c0, before) + emitted(seg));
                }
                cur = Vec::new();
            } else {
                cur.push(b);
            }
            i = i + 1;
        }
        assert(chunk@.take(chunk@.len() as int) =~= chunk@);
        self.carry = cur;
        out
    }
}

} // verus!
