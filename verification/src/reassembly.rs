//! The per-connection buffer that turns chunks of a byte stream into
//! envelopes.

use vstd::prelude::*;
use vstd::slice::{slice_subrange, slice_to_vec};
use crate::bytes::{be_bytes, be_u32, lemma_be_bytes_of_u32, lemma_be_u32_of_bytes, read_be_u32};
use crate::envelope::{header_id, header_length, Envelope, PacketProtocol, HEADER_LEN};
use crate::packet::Packet;
use crate::stream::{emitted, first_frame, frame_len, frames, has_frame, left_over, residue};

verus! {

/// Which part of an envelope the buffer is waiting for.
#[derive(Debug, Clone, Copy, PartialEq, Eq, Structural)]
pub enum PacketBufState {
    Header,
    Content,
}

/// The bytes of a connection that do not yet make a complete envelope.
///
/// While the header is incomplete the buffer holds the header bytes seen so
/// far. Once it is complete its three fields are kept apart and the buffer
/// holds only the content bytes seen so far.
pub struct PacketBuf {
    buf: Vec<u8>,
    state: PacketBufState,
    id: u32,
    protocol: u8,
    content_length: u32,
    remaining: usize,
}

/// Chunks as mathematical values.
pub open spec fn chunk_views(chunks: Seq<Vec<u8>>) -> Seq<Seq<u8>> {
    chunks.map_values(|c: Vec<u8>| c@)
}

/// The nine header bytes of the given fields.
pub open spec fn header_bytes(id: u32, protocol: u8, content_length: u32) -> Seq<u8> {
    be_bytes(id) + seq![protocol] + be_bytes(content_length)
}

/// A stream that opens with the header of the given fields has them as its
/// header fields.
proof fn lemma_header_fields(id: u32, protocol: u8, content_length: u32, tail: Seq<u8>)
    ensures
        ({
            let s = header_bytes(id, protocol, content_length) + tail;
            &&& s.len() == HEADER_LEN + tail.len()
            &&& header_id(s) == id
            &&& s[4] == protocol
            &&& header_length(s) == content_length
            &&& s.skip(HEADER_LEN as int) == tail
        }),
{
    let s = header_bytes(id, protocol, content_length) + tail;
    lemma_be_u32_of_bytes(id);
    lemma_be_u32_of_bytes(content_length);
    assert(s.subrange(0, 4) =~= be_bytes(id));
    assert(s.subrange(5, 9) =~= be_bytes(content_length));
    assert(s.skip(HEADER_LEN as int) =~= tail);
}

/// A stream of at least nine bytes is its header, written from its fields,
/// followed by the rest.
proof fn lemma_header_split(s: Seq<u8>)
    requires
        s.len() >= HEADER_LEN,
    ensures
        s == header_bytes(header_id(s), s[4], header_length(s)) + s.skip(HEADER_LEN as int),
{
    lemma_be_bytes_of_u32(s.subrange(0, 4));
    lemma_be_bytes_of_u32(s.subrange(5, 9));
    assert(s =~= header_bytes(header_id(s), s[4], header_length(s)) + s.skip(HEADER_LEN as int));
}

/// Reading a header at `pos` of `buf` and keeping what follows it leaves
/// the same stream.
proof fn lemma_header_read(buf: Seq<u8>, pos: int)
    requires
        0 <= pos,
        pos + HEADER_LEN <= buf.len(),
    ensures
        buf.skip(pos) == header_bytes(
            be_u32(buf.subrange(pos, pos + 4)),
            buf[pos + 4],
            be_u32(buf.subrange(pos + 5, pos + 9)),
        ) + buf.skip(pos + 9),
{
    let tail = buf.skip(pos);
    assert(tail.subrange(0, 4) =~= buf.subrange(pos, pos + 4));
    assert(tail.subrange(5, 9) =~= buf.subrange(pos + 5, pos + 9));
    assert(tail.skip(HEADER_LEN as int) =~= buf.skip(pos + 9));
    lemma_header_split(tail);
}

/// A stream without a complete envelope adds nothing to the envelopes
/// found so far and is its own rest.
proof fn lemma_no_frame(cur: Seq<u8>, emitted: Seq<Envelope>)
    requires
        !has_frame(cur),
    ensures
        emitted + frames(cur) == emitted,
        residue(cur) == cur,
{
    assert(emitted + frames(cur) =~= emitted);
}

/// With the header read and the whole content in the buffer, the envelope
/// at the front of the stream is made of the header's fields and the next
/// `content_length` bytes, and the stream goes on behind them.
proof fn lemma_content_read(
    id: u32,
    protocol: u8,
    content_length: u32,
    buf: Seq<u8>,
    pos: int,
    emitted: Seq<Envelope>,
)
    requires
        0 <= pos,
        pos + content_length <= buf.len(),
    ensures
        ({
            let cur = header_bytes(id, protocol, content_length) + buf.skip(pos);
            let e = Envelope { id, protocol, content: buf.subrange(pos, pos + content_length) };
            &&& emitted + frames(cur) == emitted.push(e) + frames(buf.skip(pos + content_length))
            &&& residue(cur) == residue(buf.skip(pos + content_length))
        }),
{
    let cur = header_bytes(id, protocol, content_length) + buf.skip(pos);
    let e = Envelope { id, protocol, content: buf.subrange(pos, pos + content_length) };
    lemma_header_fields(id, protocol, content_length, buf.skip(pos));
    assert(has_frame(cur));
    assert(cur.subrange(HEADER_LEN as int, frame_len(cur)) =~= buf.subrange(
        pos,
        pos + content_length,
    ));
    assert(cur.skip(frame_len(cur)) =~= buf.skip(pos + content_length));
    assert(first_frame(cur) == e);
    assert(emitted + frames(cur) =~= emitted.push(e) + frames(buf.skip(pos + content_length)));
}

impl PacketBuf {
    /// Which part of an envelope the buffer is waiting for.
    pub closed spec fn phase(&self) -> PacketBufState {
        self.state
    }

    /// The bytes received since the last complete envelope.
    pub closed spec fn pending(&self) -> Seq<u8> {
        match self.state {
            PacketBufState::Header => self.buf@,
            PacketBufState::Content => header_bytes(self.id, self.protocol, self.content_length)
                + self.buf@,
        }
    }

    /// How many bytes are missing to complete the part that is waited for.
    pub closed spec fn missing(&self) -> int {
        self.remaining as int
    }

    /// The buffer never holds a complete envelope, and it knows how many
    /// bytes the current part still needs.
    pub closed spec fn wf(&self) -> bool {
        match self.state {
            PacketBufState::Header => {
                &&& self.buf@.len() < HEADER_LEN
                &&& self.remaining == HEADER_LEN - self.buf@.len()
            },
            PacketBufState::Content => {
                &&& self.buf@.len() < self.content_length
                &&& self.remaining == self.content_length - self.buf@.len()
            },
        }
    }

    /// What the fields of a well-formed buffer say in terms of its pending
    /// bytes.
    pub proof fn lemma_wf(&self)
        requires
            self.wf(),
        ensures
            !has_frame(self.pending()),
            frames(self.pending()) == Seq::<Envelope>::empty(),
            residue(self.pending()) == self.pending(),
            self.missing() > 0,
            self.phase() == PacketBufState::Header <==> self.pending().len() < HEADER_LEN,
            self.phase() == PacketBufState::Header ==> self.missing() == HEADER_LEN
                - self.pending().len(),
            self.phase() == PacketBufState::Content ==> self.missing() == frame_len(self.pending())
                - self.pending().len(),
    {
        if self.state == PacketBufState::Content {
            lemma_header_fields(self.id, self.protocol, self.content_length, self.buf@);
        }
    }

    /// An empty buffer that waits for a header.
    pub fn new() -> (r: Self)
        ensures
            r.wf(),
            r.pending() == Seq::<u8>::empty(),
            r.phase() == PacketBufState::Header,
            r.missing() == HEADER_LEN,
    {
        Self {
            buf: Vec::new(),
            state: PacketBufState::Header,
            id: 0,
            protocol: 0,
            content_length: 0,
            remaining: HEADER_LEN,
        }
    }

    /// Which part of an envelope the buffer is waiting for.
    pub fn state(&self) -> (r: PacketBufState)
        ensures
            r == self.phase(),
    {
        self.state
    }

    /// How many bytes are missing to complete the part that is waited for.
    pub fn remaining(&self) -> (r: usize)
        ensures
            r == self.missing(),
    {
        self.remaining
    }

    /// Takes the next chunk of the stream and returns the envelopes that it
    /// completes, in order. Every byte is kept until its envelope is
    /// complete: the envelopes are those of the pending bytes followed by
    /// the chunk, and what is pending afterwards is the rest behind them.
    pub fn process<T: Packet>(&mut self, bytes: &[u8]) -> (out: Vec<PacketProtocol<T>>)
        requires
            old(self).wf(),
        ensures
            final(self).wf(),
            final(self).pending() == residue(old(self).pending() + bytes@),
            out@.len() == frames(old(self).pending() + bytes@).len(),
            old(self).pending().len() + bytes@.len() < HEADER_LEN ==> out@.len() == 0,
            bytes@.len() == 0 ==> out@.len() == 0 && final(self).pending() == old(self).pending(),
            forall|i: int|
                0 <= i < out@.len() ==> (#[trigger] out@[i]).is_raw(
                    frames(old(self).pending() + bytes@)[i],
                ),
    {
        let ghost total = self.pending() + bytes@;
        let ghost before = self.buf@;
        proof {
            self.lemma_wf();
            if bytes@.len() == 0 {
                assert(total =~= self.pending());
            }
        }
        self.buf.extend_from_slice(bytes);
        let mut out: Vec<PacketProtocol<T>> = Vec::new();
        let mut pos: usize = 0;
        let ghost mut emitted = Seq::<Envelope>::empty();
        proof {
            assert(self.buf@ =~= before + bytes@);
            assert(self.buf@.skip(0) =~= self.buf@);
            assert(self.cursor(0) =~= total);
            assert(emitted + frames(total) =~= frames(total));
        }
        loop
            invariant_except_break
                pos <= self.buf@.len(),
                frames(total) == emitted + frames(self.cursor(pos as int)),
                residue(total) == residue(self.cursor(pos as int)),
                out@.len() == emitted.len(),
                forall|i: int| 0 <= i < out@.len() ==> (#[trigger] out@[i]).is_raw(emitted[i]),
            ensures
                pos <= self.buf@.len(),
                frames(total) == emitted,
                residue(total) == self.cursor(pos as int),
                out@.len() == emitted.len(),
                forall|i: int| 0 <= i < out@.len() ==> (#[trigger] out@[i]).is_raw(emitted[i]),
                self.state == PacketBufState::Header ==> self.buf@.len() - pos < HEADER_LEN,
                self.state == PacketBufState::Content ==> self.buf@.len() - pos
                    < self.content_length,
            decreases
                self.buf@.len() - pos,
                (if self.state == PacketBufState::Content { 1int } else { 0int }),
        {
            match self.state {
                PacketBufState::Header => {
                    if self.buf.len() - pos < HEADER_LEN {
                        proof {
                            lemma_no_frame(self.cursor(pos as int), emitted);
                        }
                        break;
                    }
                    let id = read_be_u32(self.buf.as_slice(), pos);
                    let protocol = self.buf[pos + 4];
                    let content_length = read_be_u32(self.buf.as_slice(), pos + 5);
                    proof {
                        lemma_header_read(self.buf@, pos as int);
                    }
                    self.id = id;
                    self.protocol = protocol;
                    self.content_length = content_length;
                    self.state = PacketBufState::Content;
                    pos = pos + HEADER_LEN;
                },
                PacketBufState::Content => {
                    proof {
                        lemma_header_fields(
                            self.id,
                            self.protocol,
                            self.content_length,
                            self.buf@.skip(pos as int),
                        );
                    }
                    if self.buf.len() - pos < self.content_length as usize {
                        proof {
                            lemma_no_frame(self.cursor(pos as int), emitted);
                        }
                        break;
                    }
                    let end: usize = pos + self.content_length as usize;
                    let content = slice_to_vec(slice_subrange(self.buf.as_slice(), pos, end));
                    proof {
                        lemma_content_read(
                            self.id,
                            self.protocol,
                            self.content_length,
                            self.buf@,
                            pos as int,
                            emitted,
                        );
                        emitted = emitted.push(
                            Envelope { id: self.id, protocol: self.protocol, content: content@ },
                        );
                    }
                    out.push(PacketProtocol::Raw { id: self.id, protocol: self.protocol, content });
                    self.state = PacketBufState::Header;
                    pos = end;
                },
            }
        }
        let rest = self.buf.split_off(pos);
        self.buf = rest;
        self.remaining = match self.state {
            PacketBufState::Header => HEADER_LEN - self.buf.len(),
            PacketBufState::Content => self.content_length as usize - self.buf.len(),
        };
        out
    }

    /// Takes several chunks, one after another, and returns the envelopes
    /// that they complete, in order: what one call of `process` for each
    /// chunk gives, taken together.
    pub fn process_all<T: Packet>(&mut self, chunks: &Vec<Vec<u8>>) -> (out: Vec<PacketProtocol<T>>)
        requires
            old(self).wf(),
        ensures
            final(self).wf(),
            final(self).pending() == left_over(old(self).pending(), chunk_views(chunks@)),
            out@.len() == emitted(old(self).pending(), chunk_views(chunks@)).len(),
            forall|i: int|
                0 <= i < out@.len() ==> (#[trigger] out@[i]).is_raw(
                    emitted(old(self).pending(), chunk_views(chunks@))[i],
                ),
    {
        let ghost all = chunk_views(chunks@);
        let ghost start = self.pending();
        let ghost mut shown = Seq::<Envelope>::empty();
        let mut out: Vec<PacketProtocol<T>> = Vec::new();
        let mut i: usize = 0;
        proof {
            assert(all.skip(0) =~= all);
            assert(shown + emitted(start, all) =~= emitted(start, all));
        }
        while i < chunks.len()
            invariant
                self.wf(),
                i <= chunks@.len(),
                all == chunk_views(chunks@),
                emitted(start, all) == shown + emitted(self.pending(), all.skip(i as int)),
                left_over(start, all) == left_over(self.pending(), all.skip(i as int)),
                out@.len() == shown.len(),
                forall|j: int| 0 <= j < out@.len() ==> (#[trigger] out@[j]).is_raw(shown[j]),
            decreases chunks@.len() - i,
        {
            let ghost pending = self.pending();
            let ghost found = frames(pending + chunks@[i as int]@);
            let ghost before = out@;
            let mut part = self.process::<T>(chunks[i].as_slice());
            let ghost added = part@;
            proof {
                let rest = all.skip(i as int);
                assert(rest[0] == chunks@[i as int]@);
                assert(rest.skip(1) =~= all.skip(i + 1));
                assert(shown + (found + emitted(self.pending(), all.skip(i + 1))) =~= (shown
                    + found) + emitted(self.pending(), all.skip(i + 1)));
            }
            out.append(&mut part);
            proof {
                assert forall|j: int| 0 <= j < out@.len() implies (#[trigger] out@[j]).is_raw(
                    (shown + found)[j],
                ) by {
                    if j >= before.len() {
                        assert(out@[j] == added[j - before.len()]);
                    }
                }
                shown = shown + found;
            }
            i = i + 1;
        }
        proof {
            assert(shown + emitted(self.pending(), all.skip(i as int)) =~= shown);
        }
        out
    }

    /// The stream that is still to be cut when the first `pos` bytes of the
    /// buffer have been used up.
    closed spec fn cursor(&self, pos: int) -> Seq<u8> {
        match self.state {
            PacketBufState::Header => self.buf@.skip(pos),
            PacketBufState::Content => header_bytes(self.id, self.protocol, self.content_length)
                + self.buf@.skip(pos),
        }
    }
}

} // verus!
