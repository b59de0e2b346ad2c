//! The envelope: a nine-byte header in front of an encoded payload.

use vstd::prelude::*;
use vstd::slice::{slice_subrange, slice_to_vec};
use crate::bytes::{be_bytes, be_u32, push_be_u32, read_be_u32};
use crate::packet::{Packet, JSON_PROTOCOL_ID, ZERO_PROTOCOL_ID};

verus! {

/// Length of the header: type identifier, encoding selector, content length.
pub const HEADER_LEN: usize = 9;

/// Why an envelope could not be written or read.
#[derive(Debug, Clone, Copy, PartialEq, Eq, Structural)]
pub enum FramingError {
    /// Fewer bytes than a header has.
    TruncatedHeader,
    /// The declared content length is not the number of content bytes.
    LengthMismatch,
    /// The type identifier is not that of the expected payload type.
    TypeMismatch,
    /// The encoding selector names no known encoding.
    UnknownEncoding,
    /// The content is not a value of the payload type in its encoding.
    MalformedContent,
}

impl FramingError {
    /// The message of each error as a mathematical string.
    pub open spec fn message_text(&self) -> Seq<char> {
        match self {
            FramingError::TruncatedHeader => "Truncated header"@,
            FramingError::LengthMismatch => "Length mismatch"@,
            FramingError::TypeMismatch => "Id mismatch"@,
            FramingError::UnknownEncoding => "Unknown protocol"@,
            FramingError::MalformedContent => "Malformed content"@,
        }
    }

    /// A short message that names the error.
    pub fn message(&self) -> (r: &'static str)
        ensures
            r@ == self.message_text(),
    {
        match self {
            FramingError::TruncatedHeader => "Truncated header",
            FramingError::LengthMismatch => "Length mismatch",
            FramingError::TypeMismatch => "Id mismatch",
            FramingError::UnknownEncoding => "Unknown protocol",
            FramingError::MalformedContent => "Malformed content",
        }
    }
}

/// The two encodings of a content.
#[derive(Debug, Clone, Copy, PartialEq, Eq, Structural)]
pub enum Encoding {
    /// Fixed-width big-endian binary, the fields in the order of their
    /// declaration.
    Zero,
    /// Self-describing text.
    Json,
}

/// An envelope as a mathematical value.
pub struct Envelope {
    pub id: u32,
    pub protocol: u8,
    pub content: Seq<u8>,
}

/// An envelope in one of three forms: as it travels, or as a payload that is
/// to be written in the binary or in the text encoding.
#[derive(Debug, Clone)]
pub enum PacketProtocol<T: Packet> {
    Raw { id: u32, protocol: u8, content: Vec<u8> },
    Zero(T),
    Json(T),
}

/// The bytes of an envelope on the wire.
pub open spec fn envelope_bytes(id: u32, protocol: u8, content: Seq<u8>) -> Seq<u8>
    recommends
        content.len() <= u32::MAX,
{
    be_bytes(id) + seq![protocol] + be_bytes(content.len() as u32) + content
}

/// The type identifier in a header.
pub open spec fn header_id(s: Seq<u8>) -> u32
    recommends
        s.len() >= HEADER_LEN,
{
    be_u32(s.subrange(0, 4))
}

/// The declared content length in a header.
pub open spec fn header_length(s: Seq<u8>) -> u32
    recommends
        s.len() >= HEADER_LEN,
{
    be_u32(s.subrange(5, 9))
}

/// What reading `s` as exactly one envelope gives.
pub open spec fn parse_envelope(s: Seq<u8>) -> Result<Envelope, FramingError> {
    if s.len() < HEADER_LEN {
        Err(FramingError::TruncatedHeader)
    } else if header_length(s) != s.len() - HEADER_LEN {
        Err(FramingError::LengthMismatch)
    } else {
        Ok(Envelope { id: header_id(s), protocol: s[4], content: s.skip(HEADER_LEN as int) })
    }
}

/// The encoding that an envelope names, for a reader that expects the type
/// identifier `expected`: the identifier is checked first, then the
/// selector.
pub open spec fn selected(id: u32, protocol: u8, expected: u32) -> Result<Encoding, FramingError> {
    if id != expected {
        Err(FramingError::TypeMismatch)
    } else if protocol == ZERO_PROTOCOL_ID {
        Ok(Encoding::Zero)
    } else if protocol == JSON_PROTOCOL_ID {
        Ok(Encoding::Json)
    } else {
        Err(FramingError::UnknownEncoding)
    }
}

/// Decides how the content of an envelope is to be read by a reader that
/// expects the type identifier `expected`.
pub fn select(id: u32, protocol: u8, expected: u32) -> (r: Result<Encoding, FramingError>)
    ensures
        r == selected(id, protocol, expected),
{
    if id != expected {
        Err(FramingError::TypeMismatch)
    } else if protocol == ZERO_PROTOCOL_ID {
        Ok(Encoding::Zero)
    } else if protocol == JSON_PROTOCOL_ID {
        Ok(Encoding::Json)
    } else {
        Err(FramingError::UnknownEncoding)
    }
}

/// The payload that an envelope holds for the payload type `T`.
pub open spec fn decode_envelope<T: Packet>(e: Envelope) -> Result<T, FramingError> {
    match selected(e.id, e.protocol, T::spec_id()) {
        Err(f) => Err(f),
        Ok(Encoding::Zero) => match T::zero_parse(e.content) {
            Some(p) => Ok(p),
            None => Err(FramingError::MalformedContent),
        },
        Ok(Encoding::Json) => match T::json_parse(e.content) {
            Some(p) => Ok(p),
            None => Err(FramingError::MalformedContent),
        },
    }
}

/// What writing header and content gives: the selector must be known and
/// the length must fit the header's field.
pub open spec fn framed(id: u32, protocol: u8, content: Seq<u8>) -> Result<Seq<u8>, FramingError> {
    if protocol != ZERO_PROTOCOL_ID && protocol != JSON_PROTOCOL_ID {
        Err(FramingError::UnknownEncoding)
    } else if content.len() > u32::MAX {
        Err(FramingError::LengthMismatch)
    } else {
        Ok(envelope_bytes(id, protocol, content))
    }
}

/// Whether the outcome `r` holds the bytes, or the error, of `s`.
pub open spec fn written_as(r: Result<Vec<u8>, FramingError>, s: Result<Seq<u8>, FramingError>) -> bool {
    match s {
        Ok(b) => r matches Ok(v) && v@ == b,
        Err(e) => r matches Err(f) && f == e,
    }
}

/// Writes header and content into one byte vector.
pub fn frame(id: u32, protocol: u8, content: &[u8]) -> (r: Result<Vec<u8>, FramingError>)
    ensures
        written_as(r, framed(id, protocol, content@)),
{
    if protocol != ZERO_PROTOCOL_ID && protocol != JSON_PROTOCOL_ID {
        return Err(FramingError::UnknownEncoding);
    }
    if content.len() > 0xffff_ffff {
        return Err(FramingError::LengthMismatch);
    }
    let mut out: Vec<u8> = Vec::new();
    push_be_u32(&mut out, id);
    out.push(protocol);
    push_be_u32(&mut out, content.len() as u32);
    out.extend_from_slice(content);
    assert(out@ =~= envelope_bytes(id, protocol, content@));
    Ok(out)
}

/// Cuts `bytes`, taken as exactly one envelope, into type identifier,
/// encoding selector and content.
pub fn read_envelope(bytes: &[u8]) -> (r: Result<(u32, u8, Vec<u8>), FramingError>)
    ensures
        match parse_envelope(bytes@) {
            Ok(e) => r matches Ok(t) && t.0 == e.id && t.1 == e.protocol && t.2@ == e.content,
            Err(e) => r matches Err(f) && f == e,
        },
{
    if bytes.len() < HEADER_LEN {
        return Err(FramingError::TruncatedHeader);
    }
    let id = read_be_u32(bytes, 0);
    let protocol = bytes[4];
    let expected_length = read_be_u32(bytes, 5);
    if expected_length as usize != bytes.len() - HEADER_LEN {
        return Err(FramingError::LengthMismatch);
    }
    let content = slice_to_vec(slice_subrange(bytes, HEADER_LEN, bytes.len()));
    Ok((id, protocol, content))
}

/// The payload of type `T` that the bytes of exactly one envelope hold: the
/// framing is checked first, then the type identifier, then the selector,
/// then the content.
pub open spec fn decoded<T: Packet>(s: Seq<u8>) -> Result<T, FramingError> {
    match parse_envelope(s) {
        Ok(e) => decode_envelope::<T>(e),
        Err(f) => Err(f),
    }
}

/// Reads the bytes of exactly one envelope as a payload of type `T`.
pub fn decode<T: Packet>(bytes: &[u8]) -> (r: Result<T, FramingError>)
    ensures
        r == decoded::<T>(bytes@),
{
    match PacketProtocol::<T>::try_from(bytes) {
        Ok(envelope) => envelope.deserialize(),
        Err(f) => Err(f),
    }
}

/// Writes a payload as an envelope in the encoding that `protocol` names.
/// An unknown selector is refused; a payload that its encoder turns down
/// gives `MalformedContent`.
pub fn encode<T: Packet>(payload: T, protocol: u8) -> (r: Result<Vec<u8>, FramingError>)
    ensures
        protocol == ZERO_PROTOCOL_ID ==> written_as(r, PacketProtocol::Zero(payload).serialized())
            || (!payload.zero_encodable() && r == Err::<Vec<u8>, FramingError>(
            FramingError::MalformedContent,
        )),
        protocol == JSON_PROTOCOL_ID ==> written_as(r, PacketProtocol::Json(payload).serialized())
            || (!payload.json_encodable() && r == Err::<Vec<u8>, FramingError>(
            FramingError::MalformedContent,
        )),
        protocol != ZERO_PROTOCOL_ID && protocol != JSON_PROTOCOL_ID ==> r == Err::<
            Vec<u8>,
            FramingError,
        >(FramingError::UnknownEncoding),
{
    if protocol == ZERO_PROTOCOL_ID {
        PacketProtocol::Zero(payload).serialize()
    } else if protocol == JSON_PROTOCOL_ID {
        PacketProtocol::Json(payload).serialize()
    } else {
        Err(FramingError::UnknownEncoding)
    }
}

impl<T: Packet> PacketProtocol<T> {
    /// Whether this is the travelling form of the envelope `e`.
    pub open spec fn is_raw(&self, e: Envelope) -> bool {
        &&& self matches PacketProtocol::Raw { id, protocol, content }
        &&& id == e.id
        &&& protocol == e.protocol
        &&& content@ == e.content
    }

    /// The mathematical envelope of a travelling form.
    pub open spec fn raw_envelope(&self) -> Envelope
        recommends
            self is Raw,
    {
        Envelope {
            id: self->Raw_id,
            protocol: self->Raw_protocol,
            content: self->Raw_content@,
        }
    }

    /// Reads `bytes` as exactly one envelope: a header, then as many content
    /// bytes as the header declares, and nothing after them.
    pub fn try_from(bytes: &[u8]) -> (r: Result<Self, FramingError>)
        ensures
            match parse_envelope(bytes@) {
                Ok(e) => r matches Ok(p) && p.is_raw(e),
                Err(e) => r matches Err(f) && f == e,
            },
    {
        match read_envelope(bytes) {
            Ok((id, protocol, content)) => Ok(PacketProtocol::Raw { id, protocol, content }),
            Err(e) => Err(e),
        }
    }

    /// What `serialize` gives once the payload, if there is one to encode,
    /// has been encoded.
    pub open spec fn serialized(&self) -> Result<Seq<u8>, FramingError> {
        match self {
            PacketProtocol::Raw { id, protocol, content } => framed(*id, *protocol, content@),
            PacketProtocol::Zero(data) => framed(T::spec_id(), ZERO_PROTOCOL_ID, data.zero_content()),
            PacketProtocol::Json(data) => framed(T::spec_id(), JSON_PROTOCOL_ID, data.json_content()),
        }
    }

    /// Whether the payload's encoder may turn the payload down.
    pub open spec fn may_be_refused(&self) -> bool {
        match self {
            PacketProtocol::Raw { .. } => false,
            PacketProtocol::Zero(data) => !data.zero_encodable(),
            PacketProtocol::Json(data) => !data.json_encodable(),
        }
    }

    /// Writes the envelope: the header, then the content. A payload is first
    /// written in the encoding that its form names; where the encoder turns
    /// it down, the error is `MalformedContent`.
    pub fn serialize(self) -> (r: Result<Vec<u8>, FramingError>)
        ensures
            written_as(r, self.serialized()) || (self.may_be_refused() && r == Err::<
                Vec<u8>,
                FramingError,
            >(FramingError::MalformedContent)),
    {
        match self {
            PacketProtocol::Raw { id, protocol, content } => frame(id, protocol, content.as_slice()),
            PacketProtocol::Zero(data) => {
                match data.to_zero() {
                    Some(content) => frame(T::id(), ZERO_PROTOCOL_ID, content.as_slice()),
                    None => Err(FramingError::MalformedContent),
                }
            },
            PacketProtocol::Json(data) => {
                match data.to_json() {
                    Some(content) => frame(T::id(), JSON_PROTOCOL_ID, content.as_slice()),
                    None => Err(FramingError::MalformedContent),
                }
            },
        }
    }

    /// What `deserialize` returns.
    pub open spec fn deserialized(&self) -> Result<T, FramingError> {
        match self {
            PacketProtocol::Raw { .. } => decode_envelope::<T>(self.raw_envelope()),
            PacketProtocol::Zero(data) => Ok(*data),
            PacketProtocol::Json(data) => Ok(*data),
        }
    }

    /// The payload of the envelope. A travelling form is checked against the
    /// payload type's identifier and read in the encoding that its selector
    /// names.
    pub fn deserialize(self) -> (r: Result<T, FramingError>)
        ensures
            r == self.deserialized(),
    {
        match self {
            PacketProtocol::Raw { id, protocol, content } => {
                match select(id, protocol, T::id()) {
                    Err(f) => Err(f),
                    Ok(Encoding::Zero) => match T::from_zero(content.as_slice()) {
                        Some(p) => Ok(p),
                        None => Err(FramingError::MalformedContent),
                    },
                    Ok(Encoding::Json) => match T::from_json(content.as_slice()) {
                        Some(p) => Ok(p),
                        None => Err(FramingError::MalformedContent),
                    },
                }
            },
            PacketProtocol::Zero(data) => Ok(data),
            PacketProtocol::Json(data) => Ok(data),
        }
    }
}

} // verus!
