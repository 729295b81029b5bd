//! The two payload digests the wire format carries, named at the spec level
//! and computed by outside crates behind trusted wrappers.

use vstd::prelude::*;
use crypto::digest::Digest;
use crate::bytes::spec_u128_le;

verus! {

/// The 32-bit murmur3 hash of a byte sequence under a seed. The algorithm
/// is a fixed function of the bytes and the seed alone; its value is left
/// unstated and is pinned only by the wrapper below.
pub uninterp spec fn murmur3_of(data: Seq<u8>, seed: u32) -> u32;

/// The 128-bit MD5 digest of a byte sequence, read as a little-endian
/// 128-bit integer. A fixed function of the bytes alone.
pub uninterp spec fn md5_of(data: Seq<u8>) -> u128;

/// Relies on murmur3::murmur3_32: the 32-bit murmur3 hash of everything the
/// reader yields, here the bytes of `data` from position `start` on. Reading
/// from an in-memory cursor cannot fail, so the unwrap cannot panic. The
/// crate counts the bytes it has read in 32 bits with unchecked addition,
/// so the length bound below leaves out the inputs on which that counter
/// would overflow.
#[verifier::external_body]
pub(crate) fn murmur3_32_from(data: &[u8], start: usize, seed: u32) -> (r: u32)
    requires
        start <= data@.len(),
        data@.len() < 0x1_0000_0000,
    ensures
        r == murmur3_of(data@.skip(start as int), seed),
{
    let mut cursor = std::io::Cursor::new(data);
    cursor.set_position(start as u64);
    murmur3::murmur3_32(&mut cursor, seed).unwrap()
}

/// Relies on crypto::md5::Md5 (via crypto::digest::Digest): the 16-byte MD5
/// digest of `data`, returned here in its wire order (digest byte 0 first).
#[verifier::external_body]
pub(crate) fn md5_digest(data: &[u8]) -> (r: Vec<u8>)
    ensures
        r@ == spec_u128_le(md5_of(data@)),
{
    let mut hasher = crypto::md5::Md5::new();
    let mut out = [0u8; 16];
    hasher.input(data);
    hasher.result(&mut out);
    out.to_vec()
}

} // verus!
