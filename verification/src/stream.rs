//! A byte stream as a sequence of envelopes followed by an unfinished rest.

use vstd::prelude::*;
use crate::envelope::{header_id, header_length, Envelope, HEADER_LEN};

verus! {

/// The length of the envelope whose header opens `s`.
pub open spec fn frame_len(s: Seq<u8>) -> int
    recommends
        s.len() >= HEADER_LEN,
{
    HEADER_LEN + header_length(s)
}

/// Whether `s` opens with a complete envelope.
pub open spec fn has_frame(s: Seq<u8>) -> bool {
    s.len() >= HEADER_LEN && s.len() >= frame_len(s)
}

/// The envelope that opens `s`.
pub open spec fn first_frame(s: Seq<u8>) -> Envelope
    recommends
        has_frame(s),
{
    Envelope { id: header_id(s), protocol: s[4], content: s.subrange(HEADER_LEN as int, frame_len(s)) }
}

/// The complete envelopes of `s`, in order.
pub open spec fn frames(s: Seq<u8>) -> Seq<Envelope>
    decreases s.len(),
{
    if has_frame(s) {
        seq![first_frame(s)] + frames(s.skip(frame_len(s)))
    } else {
        Seq::empty()
    }
}

/// What is left of `s` behind its complete envelopes.
pub open spec fn residue(s: Seq<u8>) -> Seq<u8>
    decreases s.len(),
{
    if has_frame(s) {
        residue(s.skip(frame_len(s)))
    } else {
        s
    }
}

/// The bytes of the chunks, one after another.
pub open spec fn concat(chunks: Seq<Seq<u8>>) -> Seq<u8>
    decreases chunks.len(),
{
    if chunks.len() == 0 {
        Seq::empty()
    } else {
        chunks[0] + concat(chunks.skip(1))
    }
}

/// The envelopes that come out when the chunks are handed, one call each
/// and in order, to a buffer whose pending bytes are `pending`.
pub open spec fn emitted(pending: Seq<u8>, chunks: Seq<Seq<u8>>) -> Seq<Envelope>
    decreases chunks.len(),
{
    if chunks.len() == 0 {
        Seq::empty()
    } else {
        frames(pending + chunks[0]) + emitted(residue(pending + chunks[0]), chunks.skip(1))
    }
}

/// The bytes that are pending in the buffer after those calls.
pub open spec fn left_over(pending: Seq<u8>, chunks: Seq<Seq<u8>>) -> Seq<u8>
    decreases chunks.len(),
{
    if chunks.len() == 0 {
        pending
    } else {
        left_over(residue(pending + chunks[0]), chunks.skip(1))
    }
}

/// The header fields of a stream are those of any extension of it.
pub proof fn lemma_header_of_prefix(a: Seq<u8>, b: Seq<u8>)
    requires
        a.len() >= HEADER_LEN,
    ensures
        header_id(a + b) == header_id(a),
        header_length(a + b) == header_length(a),
        frame_len(a + b) == frame_len(a),
        (a + b)[4] == a[4],
{
    assert((a + b).subrange(0, 4) =~= a.subrange(0, 4));
    assert((a + b).subrange(5, 9) =~= a.subrange(5, 9));
}

/// The rest of a stream holds no complete envelope, and is its own rest.
pub proof fn lemma_residue_is_rest(s: Seq<u8>)
    ensures
        !has_frame(residue(s)),
        frames(residue(s)) == Seq::<Envelope>::empty(),
        residue(residue(s)) == residue(s),
    decreases s.len(),
{
    if has_frame(s) {
        lemma_residue_is_rest(s.skip(frame_len(s)));
    }
}

/// Cutting a stream in two changes nothing: the envelopes of `a + b` are
/// those of `a`, then those of what `a` left followed by `b`.
pub proof fn lemma_frames_append(a: Seq<u8>, b: Seq<u8>)
    ensures
        frames(a + b) == frames(a) + frames(residue(a) + b),
        residue(a + b) == residue(residue(a) + b),
    decreases a.len(),
{
    if has_frame(a) {
        let n = frame_len(a);
        lemma_header_of_prefix(a, b);
        assert(has_frame(a + b));
        assert((a + b).skip(n) =~= a.skip(n) + b);
        assert((a + b).subrange(HEADER_LEN as int, n) =~= a.subrange(HEADER_LEN as int, n));
        assert(first_frame(a + b) == first_frame(a));
        lemma_frames_append(a.skip(n), b);
        assert(frames(a + b) =~= frames(a) + frames(residue(a) + b));
    } else {
        assert(frames(a) + frames(a + b) =~= frames(a + b));
    }
}

} // verus!
