//! Big-endian 32-bit integers as byte sequences.

use vstd::prelude::*;

verus! {

/// The value of four bytes read as a big-endian unsigned integer.
pub open spec fn be_u32(s: Seq<u8>) -> u32
    recommends
        s.len() == 4,
{
    (s[0] as int * 16777216 + s[1] as int * 65536 + s[2] as int * 256 + s[3] as int) as u32
}

/// The four bytes of `x`, most significant first.
pub open spec fn be_bytes(x: u32) -> Seq<u8> {
    seq![
        (x / 16777216) as u8,
        ((x / 65536) % 256) as u8,
        ((x / 256) % 256) as u8,
        (x % 256) as u8,
    ]
}

/// Reading back the bytes of an integer gives the integer.
pub proof fn lemma_be_u32_of_bytes(x: u32)
    ensures
        be_bytes(x).len() == 4,
        be_u32(be_bytes(x)) == x,
{
}

/// Writing out the integer read from four bytes gives the four bytes.
pub proof fn lemma_be_bytes_of_u32(s: Seq<u8>)
    requires
        s.len() == 4,
    ensures
        be_bytes(be_u32(s)) == s,
{
    lemma_be_digits(s[0], s[1], s[2], s[3]);
    assert(be_bytes(be_u32(s)) =~= s);
}

/// The four base-256 digits of a number are recovered by division.
proof fn lemma_be_digits(a: u8, b: u8, c: u8, d: u8)
    ensures
        ({
            let x = a as int * 16777216 + b as int * 65536 + c as int * 256 + d as int;
            &&& 0 <= x <= u32::MAX
            &&& x / 16777216 == a
            &&& (x / 65536) % 256 == b
            &&& (x / 256) % 256 == c
            &&& x % 256 == d
        }),
{
}

/// Reads the big-endian integer that starts at index `at` of `b`.
pub fn read_be_u32(b: &[u8], at: usize) -> (r: u32)
    requires
        at + 4 <= b@.len(),
    ensures
        r == be_u32(b@.subrange(at as int, at + 4)),
{
    let b0: u32 = b[at] as u32;
    let b1: u32 = b[at + 1] as u32;
    let b2: u32 = b[at + 2] as u32;
    let b3: u32 = b[at + 3] as u32;
    b0 * 16777216 + b1 * 65536 + b2 * 256 + b3
}

/// Appends the four big-endian bytes of `x` to `out`.
pub fn push_be_u32(out: &mut Vec<u8>, x: u32)
    ensures
        final(out)@ == old(out)@ + be_bytes(x),
{
    out.push((x / 16777216) as u8);
    out.push(((x / 65536) % 256) as u8);
    out.push(((x / 256) % 256) as u8);
    out.push((x % 256) as u8);
    assert(out@ =~= old(out)@ + be_bytes(x));
}

} // verus!
