//! The two content encodings, as the `bincode` and `serde_json` crates
//! compute them. Everything in this module that touches those crates is
//! believed, not proved.

use vstd::prelude::*;
use bincode::Options;
use crate::bytes::{be_bytes, be_u32};

verus! {

/// The error type of `bincode`.
#[verifier::external_type_specification]
#[verifier::external_body]
pub struct ExBincodeErrorKind(bincode::ErrorKind);

/// The error type of `serde_json`.
#[verifier::external_type_specification]
#[verifier::external_body]
pub struct ExJsonError(serde_json::Error);

/// The text that `serde_json::to_string` writes for an object with the given
/// unsigned integer fields, in the given order.
pub uninterp spec fn json_object_text(fields: Seq<(Seq<char>, u64)>) -> Seq<u8>;

/// The entries of the map that `serde_json::from_slice` reads from a text,
/// each with its value where that is an unsigned integer of at most 64 bits;
/// `None` where `from_slice` reads no map from the text.
pub uninterp spec fn json_object_fields(text: Seq<u8>) -> Option<Seq<(Seq<char>, Option<u64>)>>;

/// Named fields as mathematical values.
pub open spec fn field_views(fields: Seq<(String, u64)>) -> Seq<(Seq<char>, u64)> {
    fields.map_values(|f: (String, u64)| (f.0@, f.1))
}

/// Named fields that may lack an integer value, as mathematical values.
pub open spec fn optional_field_views(fields: Seq<(String, Option<u64>)>) -> Seq<
    (Seq<char>, Option<u64>),
> {
    fields.map_values(|f: (String, Option<u64>)| (f.0@, f.1))
}

/// Calls `bincode`'s `serialize`, configured big-endian with fixed-width
/// integers, on two 32-bit integers and a byte. Believed: it succeeds, since
/// no size limit is set and the output is a vector, and it writes the fields
/// in order, each integer as its four big-endian bytes, without padding.
#[verifier::external_body]
pub(crate) fn bincode_write_u32_u32_u8(a: u32, b: u32, c: u8) -> (r: Result<
    Vec<u8>,
    Box<bincode::ErrorKind>,
>)
    ensures
        r is Ok,
        r matches Ok(v) ==> v@ == be_bytes(a) + be_bytes(b) + seq![c],
{
    bincode::options().with_big_endian().with_fixint_encoding().serialize(&(a, b, c))
}

/// Calls `bincode`'s `deserialize`, configured as above, for two 32-bit
/// integers and a byte. Believed: it succeeds exactly on nine bytes (fewer
/// end too early, more are rejected as trailing bytes), and reads the fields
/// in order.
#[verifier::external_body]
pub(crate) fn bincode_read_u32_u32_u8(content: &[u8]) -> (r: Result<
    (u32, u32, u8),
    Box<bincode::ErrorKind>,
>)
    ensures
        r is Ok <==> content@.len() == 9,
        r matches Ok(t) ==> {
            &&& t.0 == be_u32(content@.subrange(0, 4))
            &&& t.1 == be_u32(content@.subrange(4, 8))
            &&& t.2 == content@[8]
        },
{
    bincode::options().with_big_endian().with_fixint_encoding().deserialize::<(u32, u32, u8)>(
        content,
    )
}

/// Calls `serde_json::to_string` on a `serde_json::Map` into which the given
/// fields were inserted in the given order, each value as a number. Believed:
/// it succeeds, since the two failures that `to_string` documents (a value
/// that refuses to be written, a map key that is no string) cannot occur in
/// a map from strings to integers, and the text depends on the fields alone.
#[verifier::external_body]
pub(crate) fn json_write_object(fields: &Vec<(String, u64)>) -> (r: Result<
    Vec<u8>,
    serde_json::Error,
>)
    ensures
        r is Ok,
        r matches Ok(v) ==> v@ == json_object_text(field_views(fields@)),
{
    let mut object = serde_json::Map::new();
    for (name, value) in fields.iter() {
        object.insert(name.clone(), serde_json::Value::from(*value));
    }
    serde_json::to_string(&object).map(|s| s.into_bytes())
}

/// Calls `serde_json::from_slice` for a `serde_json::Map` and hands out the
/// map's entries in the map's order, each with what `Value::as_u64` gives
/// for its value. Believed: the outcome depends on the text alone.
#[verifier::external_body]
pub(crate) fn json_read_object(content: &[u8]) -> (r: Result<
    Vec<(String, Option<u64>)>,
    serde_json::Error,
>)
    ensures
        r is Ok <==> json_object_fields(content@) is Some,
        r matches Ok(v) ==> json_object_fields(content@) == Some(optional_field_views(v@)),
{
    let object: serde_json::Map<String, serde_json::Value> = serde_json::from_slice(content)?;
    Ok(object.into_iter().map(|(name, value)| (name, value.as_u64())).collect())
}

} // verus!
