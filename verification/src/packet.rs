//! Payload types and the capability every payload type provides.

use vstd::prelude::*;

verus! {

/// Selector of the fixed-width big-endian binary encoding.
pub const ZERO_PROTOCOL_ID: u8 = 0x00;

/// Selector of the self-describing text encoding.
pub const JSON_PROTOCOL_ID: u8 = 0x01;

/// A payload type: it knows its numeric type identifier and how its values
/// are written and read in each of the two encodings.
pub trait Packet: Sized {
    /// The identifier as a mathematical constant of the type.
    spec fn spec_id() -> u32;

    /// The content of a value in the binary encoding.
    spec fn zero_content(&self) -> Seq<u8>;

    /// Whether the binary encoding can represent the value.
    spec fn zero_encodable(&self) -> bool;

    /// The value that a binary content stands for, if any.
    spec fn zero_parse(content: Seq<u8>) -> Option<Self>;

    /// The content of a value in the text encoding.
    spec fn json_content(&self) -> Seq<u8>;

    /// Whether the text encoding can represent the value.
    spec fn json_encodable(&self) -> bool;

    /// The value that a text content stands for, if any.
    spec fn json_parse(content: Seq<u8>) -> Option<Self>;

    /// The type identifier, fixed for the lifetime of the type.
    fn id() -> (r: u32)
        ensures
            r == Self::spec_id(),
    ;

    /// Writes the value in the binary encoding.
    fn to_zero(&self) -> (r: Option<Vec<u8>>)
        ensures
            self.zero_encodable() ==> r is Some,
            r matches Some(v) ==> v@ == self.zero_content(),
    ;

    /// Reads a value from a binary content.
    fn from_zero(content: &[u8]) -> (r: Option<Self>)
        ensures
            r == Self::zero_parse(content@),
    ;

    /// Writes the value in the text encoding.
    fn to_json(&self) -> (r: Option<Vec<u8>>)
        ensures
            self.json_encodable() ==> r is Some,
            r matches Some(v) ==> v@ == self.json_content(),
    ;

    /// Reads a value from a text content.
    fn from_json(content: &[u8]) -> (r: Option<Self>)
        ensures
            r == Self::json_parse(content@),
    ;

    /// What the binary encoding writes, it reads back.
    proof fn zero_round_trip(&self)
        requires
            self.zero_encodable(),
        ensures
            Self::zero_parse(self.zero_content()) == Some(*self),
    ;
}

} // verus!
