//! The record that a client sends: who it is, where it points, and which
//! thrusters are on.

use vstd::prelude::*;
use crate::bytes::{be_bytes, be_u32, lemma_be_u32_of_bytes};
use crate::codec::{
    bincode_read_u32_u32_u8, bincode_write_u32_u32_u8, field_views, json_object_fields,
    json_object_text, json_read_object, json_write_object, optional_field_views,
};
use crate::packet::Packet;

verus! {

/// A client's input. `propulsor` holds one bit per thruster in its low four
/// bits.
#[derive(Debug, Clone, Copy, PartialEq, Eq, Structural)]
pub struct ClientPacket {
    pub player_id: u32,
    pub orientation: u32,
    pub propulsor: u8,
}

/// The value of the first field called `name`, where it is an unsigned
/// integer.
pub open spec fn field_value(fields: Seq<(Seq<char>, Option<u64>)>, name: Seq<char>) -> Option<u64>
    decreases fields.len(),
{
    if fields.len() == 0 {
        None
    } else if fields[0].0 == name {
        fields[0].1
    } else {
        field_value(fields.skip(1), name)
    }
}

/// Finds the value of the first field called `name`.
pub fn find_field(fields: &Vec<(String, Option<u64>)>, name: &str) -> (r: Option<u64>)
    ensures
        r == field_value(optional_field_views(fields@), name@),
{
    let ghost all = optional_field_views(fields@);
    let wanted: String = name.to_owned();
    let mut i: usize = 0;
    assert(all.skip(0) =~= all);
    while i < fields.len()
        invariant
            i <= fields@.len(),
            all == optional_field_views(fields@),
            wanted@ == name@,
            field_value(all, name@) == field_value(all.skip(i as int), name@),
        decreases fields@.len() - i,
    {
        assert(all.skip(i as int)[0] == all[i as int]);
        assert(all.skip(i as int).skip(1) =~= all.skip(i + 1));
        if fields[i].0.eq(&wanted) {
            return fields[i].1;
        }
        i = i + 1;
    }
    None
}

/// The thruster byte of four switches, the first in the lowest bit.
pub open spec fn thruster_mask(on: [bool; 4]) -> u8 {
    ((if on@[0] { 1int } else { 0int }) + (if on@[1] { 2int } else { 0int }) + (if on@[2] {
        4int
    } else {
        0int
    }) + (if on@[3] { 8int } else { 0int })) as u8
}

/// Packs four thruster switches into the low four bits of a byte.
pub fn pack_thrusters(on: [bool; 4]) -> (r: u8)
    ensures
        r == thruster_mask(on),
        r < 16,
{
    let mut r: u8 = 0;
    if on[0] {
        r = r + 1;
    }
    if on[1] {
        r = r + 2;
    }
    if on[2] {
        r = r + 4;
    }
    if on[3] {
        r = r + 8;
    }
    r
}

/// Reads the four thruster switches out of the low four bits of a byte.
pub fn unpack_thrusters(mask: u8) -> (r: [bool; 4])
    ensures
        r@ == seq![mask & 1 != 0, mask & 2 != 0, mask & 4 != 0, mask & 8 != 0],
{
    let r = [mask & 1 != 0, mask & 2 != 0, mask & 4 != 0, mask & 8 != 0];
    assert(r@ =~= seq![mask & 1 != 0, mask & 2 != 0, mask & 4 != 0, mask & 8 != 0]);
    r
}

/// Four switches, packed into a byte, are read back as they were.
pub proof fn law_thrusters_round_trip(on: [bool; 4])
    ensures
        seq![
            thruster_mask(on) & 1 != 0,
            thruster_mask(on) & 2 != 0,
            thruster_mask(on) & 4 != 0,
            thruster_mask(on) & 8 != 0,
        ] == on@,
{
    let a: u8 = if on@[0] { 1 } else { 0 };
    let b: u8 = if on@[1] { 2 } else { 0 };
    let c: u8 = if on@[2] { 4 } else { 0 };
    let d: u8 = if on@[3] { 8 } else { 0 };
    let m = thruster_mask(on);
    assert(m == a + b + c + d);
    assert((a == 0 || a == 1) && (b == 0 || b == 2) && (c == 0 || c == 4) && (d == 0 || d == 8) && m
        == a + b + c + d ==> ((m & 1 != 0) == (a == 1)) && ((m & 2 != 0) == (b == 2)) && ((m
        & 4 != 0) == (c == 4)) && ((m & 8 != 0) == (d == 8))) by (bit_vector);
    assert(seq![m & 1 != 0, m & 2 != 0, m & 4 != 0, m & 8 != 0] =~= on@);
}

impl ClientPacket {
    /// The four thruster switches of the record.
    pub fn thrusters(&self) -> (r: [bool; 4])
        ensures
            r@ == seq![
                self.propulsor & 1 != 0,
                self.propulsor & 2 != 0,
                self.propulsor & 4 != 0,
                self.propulsor & 8 != 0,
            ],
    {
        unpack_thrusters(self.propulsor)
    }

    /// The fields of the record as the text encoding names them.
    pub open spec fn fields(&self) -> Seq<(Seq<char>, u64)> {
        seq![
            ("player_id"@, self.player_id as u64),
            ("orientation"@, self.orientation as u64),
            ("propulsor"@, self.propulsor as u64),
        ]
    }

    /// The record that named fields stand for: each of the three fields must
    /// be there with an integer in the range of its type. Other fields are
    /// passed over.
    pub open spec fn of_fields(fields: Seq<(Seq<char>, Option<u64>)>) -> Option<ClientPacket> {
        match (
            field_value(fields, "player_id"@),
            field_value(fields, "orientation"@),
            field_value(fields, "propulsor"@),
        ) {
            (Some(a), Some(b), Some(c)) => if a <= u32::MAX && b <= u32::MAX && c <= u8::MAX {
                Some(ClientPacket { player_id: a as u32, orientation: b as u32, propulsor: c as u8 })
            } else {
                None
            },
            _ => None,
        }
    }

    /// The record that a binary content stands for: exactly nine bytes, two
    /// big-endian integers and the thruster byte.
    pub open spec fn of_bytes(content: Seq<u8>) -> Option<ClientPacket> {
        if content.len() == 9 {
            Some(
                ClientPacket {
                    player_id: be_u32(content.subrange(0, 4)),
                    orientation: be_u32(content.subrange(4, 8)),
                    propulsor: content[8],
                },
            )
        } else {
            None
        }
    }

    /// The binary content of the record.
    pub open spec fn bytes(&self) -> Seq<u8> {
        be_bytes(self.player_id) + be_bytes(self.orientation) + seq![self.propulsor]
    }

    /// Lists the fields of the record under their names.
    pub fn to_fields(&self) -> (r: Vec<(String, u64)>)
        ensures
            field_views(r@) == self.fields(),
    {
        let mut r: Vec<(String, u64)> = Vec::new();
        r.push(("player_id".to_owned(), self.player_id as u64));
        r.push(("orientation".to_owned(), self.orientation as u64));
        r.push(("propulsor".to_owned(), self.propulsor as u64));
        assert(field_views(r@) =~= self.fields());
        r
    }

    /// Builds the record from named fields.
    pub fn from_fields(fields: &Vec<(String, Option<u64>)>) -> (r: Option<ClientPacket>)
        ensures
            r == Self::of_fields(optional_field_views(fields@)),
    {
        let player_id = find_field(fields, "player_id");
        let orientation = find_field(fields, "orientation");
        let propulsor = find_field(fields, "propulsor");
        match (player_id, orientation, propulsor) {
            (Some(a), Some(b), Some(c)) => {
                if a <= 0xffff_ffff && b <= 0xffff_ffff && c <= 0xff {
                    Some(ClientPacket { player_id: a as u32, orientation: b as u32, propulsor: c as u8 })
                } else {
                    None
                }
            },
            _ => None,
        }
    }

    /// The library's part of the text round trip: the named fields of a
    /// record, each with its integer value, give the record back.
    pub proof fn law_fields_round_trip(&self)
        ensures
            Self::of_fields(self.fields().map_values(|f: (Seq<char>, u64)| (f.0, Some(f.1))))
                == Some(*self),
    {
        reveal_strlit("player_id");
        reveal_strlit("orientation");
        reveal_strlit("propulsor");
        let f = self.fields().map_values(|f: (Seq<char>, u64)| (f.0, Some(f.1)));
        assert("player_id"@.len() != "orientation"@.len());
        assert("propulsor"@.len() != "orientation"@.len());
        assert("player_id"@[1] != "propulsor"@[1]);
        assert("player_id"@ != "propulsor"@);
        reveal_with_fuel(field_value, 4);
        assert(f.skip(1)[0] == f[1]);
        assert(f.skip(1).skip(1)[0] == f[2]);
        assert(field_value(f, "player_id"@) == Some(self.player_id as u64));
        assert(field_value(f, "orientation"@) == Some(self.orientation as u64));
        assert(field_value(f, "propulsor"@) == Some(self.propulsor as u64));
    }
}

impl Packet for ClientPacket {
    open spec fn spec_id() -> u32 {
        0x00
    }

    open spec fn zero_content(&self) -> Seq<u8> {
        self.bytes()
    }

    open spec fn zero_encodable(&self) -> bool {
        true
    }

    open spec fn zero_parse(content: Seq<u8>) -> Option<Self> {
        Self::of_bytes(content)
    }

    open spec fn json_content(&self) -> Seq<u8> {
        json_object_text(self.fields())
    }

    open spec fn json_encodable(&self) -> bool {
        true
    }

    open spec fn json_parse(content: Seq<u8>) -> Option<Self> {
        match json_object_fields(content) {
            Some(fields) => Self::of_fields(fields),
            None => None,
        }
    }

    fn id() -> (r: u32) {
        0x00
    }

    fn to_zero(&self) -> (r: Option<Vec<u8>>) {
        match bincode_write_u32_u32_u8(self.player_id, self.orientation, self.propulsor) {
            Ok(content) => Some(content),
            Err(_) => None,
        }
    }

    fn from_zero(content: &[u8]) -> (r: Option<Self>) {
        match bincode_read_u32_u32_u8(content) {
            Ok(t) => Some(ClientPacket { player_id: t.0, orientation: t.1, propulsor: t.2 }),
            Err(_) => None,
        }
    }

    fn to_json(&self) -> (r: Option<Vec<u8>>) {
        let fields = self.to_fields();
        match json_write_object(&fields) {
            Ok(content) => Some(content),
            Err(_) => None,
        }
    }

    fn from_json(content: &[u8]) -> (r: Option<Self>) {
        match json_read_object(content) {
            Ok(fields) => Self::from_fields(&fields),
            Err(_) => None,
        }
    }

    proof fn zero_round_trip(&self) {
        let s = self.bytes();
        lemma_be_u32_of_bytes(self.player_id);
        lemma_be_u32_of_bytes(self.orientation);
        assert(s.subrange(0, 4) =~= be_bytes(self.player_id));
        assert(s.subrange(4, 8) =~= be_bytes(self.orientation));
    }
}

} // verus!
