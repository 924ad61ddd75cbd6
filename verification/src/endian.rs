use vstd::prelude::*;

verus! {

/// The number that four bytes spell when the first is the least significant.
pub open spec fn le_u32(s: Seq<u8>) -> nat
    recommends
        s.len() == 4,
{
    (s[0] + 256 * s[1] + 65536 * s[2] + 16777216 * s[3]) as nat
}

/// Reads a four-byte field as a little-endian number; any other length is no
/// such field.
pub fn decode_u32_le(bytes: &[u8]) -> (r: Option<u32>)
    ensures
        bytes@.len() == 4 ==> r == Some(le_u32(bytes@) as u32) && r->Some_0 == le_u32(bytes@),
        bytes@.len() != 4 ==> r is None,
{
    if bytes.len() != 4 {
        return None;
    }
    let b0: u32 = bytes[0] as u32;
    let b1: u32 = bytes[1] as u32;
    let b2: u32 = bytes[2] as u32;
    let b3: u32 = bytes[3] as u32;
    Some(b0 + 256 * b1 + 65536 * b2 + 16777216 * b3)
}

} // verus!
