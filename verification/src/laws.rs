//! What holds of the codec and of the reassembly buffer as a whole.

use vstd::prelude::*;
use crate::bytes::{be_bytes, lemma_be_bytes_of_u32, lemma_be_u32_of_bytes};
use crate::client::ClientPacket;
use crate::envelope::{
    decoded, envelope_bytes, header_id, header_length, parse_envelope, Envelope, FramingError,
    PacketProtocol, HEADER_LEN,
};
use crate::packet::{Packet, ZERO_PROTOCOL_ID};
use crate::stream::{
    concat, emitted, first_frame, frame_len, frames, has_frame, left_over, lemma_frames_append,
    lemma_header_of_prefix, lemma_residue_is_rest, residue,
};

verus! {

/// The wire bytes of the envelopes, one after another.
pub open spec fn stream_of(envelopes: Seq<Envelope>) -> Seq<u8>
    decreases envelopes.len(),
{
    if envelopes.len() == 0 {
        Seq::empty()
    } else {
        envelope_bytes(envelopes[0].id, envelopes[0].protocol, envelopes[0].content) + stream_of(
            envelopes.skip(1),
        )
    }
}

/// The header fields of an envelope's wire bytes are the envelope's, and
/// its content follows the header.
pub proof fn lemma_envelope_bytes(id: u32, protocol: u8, content: Seq<u8>)
    requires
        content.len() <= u32::MAX,
    ensures
        ({
            let s = envelope_bytes(id, protocol, content);
            &&& s.len() == HEADER_LEN + content.len()
            &&& header_id(s) == id
            &&& s[4] == protocol
            &&& header_length(s) == content.len()
            &&& s.skip(HEADER_LEN as int) == content
        }),
{
    let s = envelope_bytes(id, protocol, content);
    lemma_be_u32_of_bytes(id);
    lemma_be_u32_of_bytes(content.len() as u32);
    assert(s.subrange(0, 4) =~= be_bytes(id));
    assert(s.subrange(5, 9) =~= be_bytes(content.len() as u32));
    assert(s.skip(HEADER_LEN as int) =~= content);
}

/// Framing round trip: the bytes written for an envelope are read back as
/// that envelope, whatever its encoding.
pub proof fn law_frame_round_trip(id: u32, protocol: u8, content: Seq<u8>)
    requires
        content.len() <= u32::MAX,
    ensures
        parse_envelope(envelope_bytes(id, protocol, content)) == Ok::<Envelope, FramingError>(
            Envelope { id, protocol, content },
        ),
{
    lemma_envelope_bytes(id, protocol, content);
}

/// Binary round trip: a payload that the binary encoding can represent,
/// written as an envelope and read back as its own type, is the payload.
pub proof fn law_binary_round_trip<T: Packet>(p: T)
    requires
        p.zero_encodable(),
        p.zero_content().len() <= u32::MAX,
    ensures
        PacketProtocol::Zero(p).serialized() == Ok::<Seq<u8>, FramingError>(
            envelope_bytes(T::spec_id(), ZERO_PROTOCOL_ID, p.zero_content()),
        ),
        decoded::<T>(envelope_bytes(T::spec_id(), ZERO_PROTOCOL_ID, p.zero_content())) == Ok::<
            T,
            FramingError,
        >(p),
{
    law_frame_round_trip(T::spec_id(), ZERO_PROTOCOL_ID, p.zero_content());
    p.zero_round_trip();
}

/// Binary round trip of a client's input: every record is written as an
/// envelope of eighteen bytes and read back as itself.
pub proof fn law_client_binary_round_trip(p: ClientPacket)
    ensures
        PacketProtocol::Zero(p).serialized() == Ok::<Seq<u8>, FramingError>(
            envelope_bytes(0, ZERO_PROTOCOL_ID, p.bytes()),
        ),
        envelope_bytes(0, ZERO_PROTOCOL_ID, p.bytes()).len() == 18,
        decoded::<ClientPacket>(envelope_bytes(0, ZERO_PROTOCOL_ID, p.bytes())) == Ok::<
            ClientPacket,
            FramingError,
        >(p),
{
    law_binary_round_trip::<ClientPacket>(p);
    lemma_envelope_bytes(0, ZERO_PROTOCOL_ID, p.bytes());
}

/// Length validation: bytes whose header declares another content length
/// than the number of bytes behind it hold no payload of any type.
pub proof fn law_length_validation<T: Packet>(s: Seq<u8>)
    requires
        s.len() >= HEADER_LEN,
        header_length(s) != s.len() - HEADER_LEN,
    ensures
        decoded::<T>(s) == Err::<T, FramingError>(FramingError::LengthMismatch),
{
}

/// Type guard: a well-framed envelope whose type identifier is not that of
/// `T` holds no payload of type `T`, whatever its selector and content.
pub proof fn law_type_guard<T: Packet>(id: u32, protocol: u8, content: Seq<u8>)
    requires
        content.len() <= u32::MAX,
        id != T::spec_id(),
    ensures
        decoded::<T>(envelope_bytes(id, protocol, content)) == Err::<T, FramingError>(
            FramingError::TypeMismatch,
        ),
{
    law_frame_round_trip(id, protocol, content);
}

/// Partial-header resilience: fewer than nine bytes hold no envelope, and
/// all of them stay pending.
pub proof fn law_partial_header(s: Seq<u8>)
    requires
        s.len() < HEADER_LEN,
    ensures
        frames(s) == Seq::<Envelope>::empty(),
        residue(s) == s,
{
}

/// An envelope comes out with its last byte and not before: no proper
/// prefix of its wire bytes holds an envelope, and the whole holds exactly
/// this one and leaves nothing.
pub proof fn law_envelope_completes(id: u32, protocol: u8, content: Seq<u8>, n: int)
    requires
        content.len() <= u32::MAX,
        0 <= n < HEADER_LEN + content.len(),
    ensures
        frames(envelope_bytes(id, protocol, content).take(n)) == Seq::<Envelope>::empty(),
        residue(envelope_bytes(id, protocol, content).take(n)) == envelope_bytes(
            id,
            protocol,
            content,
        ).take(n),
        frames(envelope_bytes(id, protocol, content)) == seq![Envelope { id, protocol, content }],
        residue(envelope_bytes(id, protocol, content)) == Seq::<u8>::empty(),
{
    let s = envelope_bytes(id, protocol, content);
    lemma_envelope_bytes(id, protocol, content);
    let p = s.take(n);
    if n >= HEADER_LEN {
        assert(p + s.skip(n) =~= s);
        lemma_header_of_prefix(p, s.skip(n));
    }
    assert(!has_frame(p));
    lemma_single_frame(id, protocol, content, Seq::empty());
    assert(s + Seq::<u8>::empty() =~= s);
    assert(frames(Seq::<u8>::empty()) == Seq::<Envelope>::empty());
    assert(seq![Envelope { id, protocol, content }] + Seq::<Envelope>::empty() =~= seq![
        Envelope { id, protocol, content },
    ]);
}

/// A stream that opens with the wire bytes of an envelope holds that
/// envelope first, then what the bytes behind it hold.
pub proof fn lemma_single_frame(id: u32, protocol: u8, content: Seq<u8>, tail: Seq<u8>)
    requires
        content.len() <= u32::MAX,
    ensures
        frames(envelope_bytes(id, protocol, content) + tail) == seq![
            Envelope { id, protocol, content },
        ] + frames(tail),
        residue(envelope_bytes(id, protocol, content) + tail) == residue(tail),
{
    let s = envelope_bytes(id, protocol, content);
    lemma_envelope_bytes(id, protocol, content);
    lemma_header_of_prefix(s, tail);
    let t = s + tail;
    assert(has_frame(t));
    assert(t.subrange(HEADER_LEN as int, frame_len(t)) =~= content);
    assert(t.skip(frame_len(t)) =~= tail);
    assert(first_frame(t) == Envelope { id, protocol, content });
}

/// The envelopes found in the wire bytes of a sequence of envelopes are
/// those envelopes, in order, and nothing is left.
pub proof fn law_frames_of_stream(envelopes: Seq<Envelope>)
    requires
        forall|i: int| 0 <= i < envelopes.len() ==> (#[trigger] envelopes[i]).content.len() <= u32::MAX,
    ensures
        frames(stream_of(envelopes)) == envelopes,
        residue(stream_of(envelopes)) == Seq::<u8>::empty(),
    decreases envelopes.len(),
{
    if envelopes.len() > 0 {
        let e = envelopes[0];
        let rest = envelopes.skip(1);
        assert forall|i: int| 0 <= i < rest.len() implies (#[trigger] rest[i]).content.len()
            <= u32::MAX by {
            assert(rest[i] == envelopes[i + 1]);
        }
        law_frames_of_stream(rest);
        lemma_single_frame(e.id, e.protocol, e.content, stream_of(rest));
        assert(seq![e] + rest =~= envelopes);
    }
}

/// The first `n` bytes of a stream, cut where a header's fields begin and
/// end.
proof fn lemma_header_cuts(s: Seq<u8>, n: int)
    requires
        HEADER_LEN <= n <= s.len(),
    ensures
        s.subrange(0, 4) + seq![s[4]] + s.subrange(5, 9) + s.subrange(HEADER_LEN as int, n)
            == s.take(n),
{
    assert(s.subrange(0, 4) + seq![s[4]] + s.subrange(5, 9) + s.subrange(HEADER_LEN as int, n)
        =~= s.take(n));
}

/// The wire bytes of the envelope that opens a stream are the bytes that
/// the stream opens with.
pub proof fn lemma_first_frame_bytes(s: Seq<u8>)
    requires
        has_frame(s),
    ensures
        envelope_bytes(first_frame(s).id, first_frame(s).protocol, first_frame(s).content)
            == s.take(frame_len(s)),
{
    let e = first_frame(s);
    lemma_be_bytes_of_u32(s.subrange(0, 4));
    lemma_be_bytes_of_u32(s.subrange(5, 9));
    assert(e.content.len() as u32 == header_length(s));
    lemma_header_cuts(s, frame_len(s));
}

/// The wire bytes of a sequence of envelopes with one more in front.
proof fn lemma_stream_of_cons(e: Envelope, rest: Seq<Envelope>)
    ensures
        stream_of(seq![e] + rest) == envelope_bytes(e.id, e.protocol, e.content) + stream_of(rest),
{
    let all = seq![e] + rest;
    assert(all[0] == e);
    assert(all.skip(1) =~= rest);
}

/// Three byte sequences joined, and a sequence cut in two and joined again.
proof fn lemma_join(a: Seq<u8>, b: Seq<u8>, c: Seq<u8>, s: Seq<u8>, n: int)
    requires
        0 <= n <= s.len(),
    ensures
        (a + b) + c == a + (b + c),
        s.take(n) + s.skip(n) == s,
{
    assert((a + b) + c =~= a + (b + c));
    assert(s.take(n) + s.skip(n) =~= s);
}

/// No byte is lost: the wire bytes of the envelopes found in a stream,
/// followed by what is left behind them, are the stream.
pub proof fn law_no_byte_lost(s: Seq<u8>)
    ensures
        stream_of(frames(s)) + residue(s) == s,
    decreases s.len(),
{
    if has_frame(s) {
        let n = frame_len(s);
        let rest = s.skip(n);
        law_no_byte_lost(rest);
        lemma_stream_of_cons(first_frame(s), frames(rest));
        lemma_first_frame_bytes(s);
        lemma_join(s.take(n), stream_of(frames(rest)), residue(rest), s, n);
    } else {
        assert(stream_of(frames(s)) + residue(s) =~= s);
    }
}

/// Feeding a stream chunk by chunk gives the envelopes of the whole stream:
/// for a buffer whose pending bytes hold no complete envelope, as those of
/// every well-formed buffer do, what comes out of the calls, taken
/// together, is what the pending bytes followed by all the chunks hold, and
/// what stays pending is the rest behind them.
pub proof fn law_chunks_as_one(pending: Seq<u8>, chunks: Seq<Seq<u8>>)
    requires
        !has_frame(pending),
    ensures
        emitted(pending, chunks) == frames(pending + concat(chunks)),
        left_over(pending, chunks) == residue(pending + concat(chunks)),
    decreases chunks.len(),
{
    if chunks.len() == 0 {
        assert(pending + concat(chunks) =~= pending);
    } else {
        let head = pending + chunks[0];
        let tail = concat(chunks.skip(1));
        lemma_residue_is_rest(head);
        law_chunks_as_one(residue(head), chunks.skip(1));
        lemma_frames_append(head, tail);
        assert(head + tail =~= pending + concat(chunks));
    }
}

/// Chunk invariance: however one byte stream is cut into chunks, a fresh
/// buffer that is handed the chunks in order gives the same envelopes in
/// the same order, those of the whole stream, and keeps the same bytes
/// pending.
pub proof fn law_chunk_invariance(first: Seq<Seq<u8>>, second: Seq<Seq<u8>>)
    requires
        concat(first) == concat(second),
    ensures
        emitted(Seq::empty(), first) == emitted(Seq::empty(), second),
        left_over(Seq::empty(), first) == left_over(Seq::empty(), second),
        emitted(Seq::empty(), first) == frames(concat(first)),
{
    law_chunks_as_one(Seq::empty(), first);
    law_chunks_as_one(Seq::empty(), second);
    assert(Seq::<u8>::empty() + concat(first) =~= concat(first));
    assert(Seq::<u8>::empty() + concat(second) =~= concat(second));
}

} // verus!
