//! Little-endian byte images of the fixed-width integers that appear in the
//! wire format.

use vstd::prelude::*;

verus! {

/// Little-endian bytes of a 16-bit value.
pub open spec fn spec_u16_le(v: u16) -> Seq<u8> {
    seq![(v & 0xff) as u8, ((v >> 8) & 0xff) as u8]
}

/// Little-endian bytes of a 32-bit value.
pub open spec fn spec_u32_le(v: u32) -> Seq<u8> {
    seq![
        (v & 0xff) as u8,
        ((v >> 8) & 0xff) as u8,
        ((v >> 16) & 0xff) as u8,
        ((v >> 24) & 0xff) as u8,
    ]
}

/// Little-endian bytes of a 128-bit value.
pub open spec fn spec_u128_le(v: u128) -> Seq<u8> {
    Seq::new(16, |i: int| ((v >> ((8 * i) as u128)) & 0xff) as u8)
}

/// Little-endian bytes of a signed 16-bit PCM sample.
pub open spec fn spec_i16_le(v: i16) -> Seq<u8> {
    spec_u16_le(v as u16)
}

pub fn u16_to_le(v: u16) -> (r: Vec<u8>)
    ensures
        r@ == spec_u16_le(v),
{
    let mut out: Vec<u8> = Vec::new();
    out.push((v & 0xff) as u8);
    out.push(((v >> 8) & 0xff) as u8);
    proof {
        assert(out@ =~= spec_u16_le(v));
    }
    out
}

pub fn u32_to_le(v: u32) -> (r: Vec<u8>)
    ensures
        r@ == spec_u32_le(v),
{
    let mut out: Vec<u8> = Vec::new();
    out.push((v & 0xff) as u8);
    out.push(((v >> 8) & 0xff) as u8);
    out.push(((v >> 16) & 0xff) as u8);
    out.push(((v >> 24) & 0xff) as u8);
    proof {
        assert(out@ =~= spec_u32_le(v));
    }
    out
}

pub fn i16_to_le(v: i16) -> (r: Vec<u8>)
    ensures
        r@ == spec_i16_le(v),
{
    u16_to_le(v as u16)
}

} // verus!
