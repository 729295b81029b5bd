//! The byte image of a mono 16-bit PCM WAV file: the 44-byte header and the
//! little-endian sample words. Writing the image to disk is left to the
//! caller.

use vstd::prelude::*;
use crate::bytes::{i16_to_le, spec_i16_le, spec_u16_le, spec_u32_le, u16_to_le, u32_to_le};

verus! {

/// The little-endian bytes of a sequence of 16-bit samples.
pub open spec fn spec_pcm_bytes(s: Seq<i16>) -> Seq<u8>
    decreases s.len(),
{
    if s.len() == 0 {
        Seq::empty()
    } else {
        spec_pcm_bytes(s.drop_last()) + spec_i16_le(s.last())
    }
}

/// The complete byte image of a mono 16-bit PCM WAV file holding `s` at
/// `rate` samples per second.
pub open spec fn spec_wav_file(rate: u32, s: Seq<i16>) -> Seq<u8> {
    seq![0x52u8, 0x49, 0x46, 0x46]  // 'RIFF'
        + spec_u32_le((36 + 2 * s.len()) as u32)  // chunk size
        + seq![0x57u8, 0x41, 0x56, 0x45]  // 'WAVE'
        + seq![0x66u8, 0x6d, 0x74, 0x20]  // 'fmt '
        + spec_u32_le(16)  // PCM subchunk size
        + spec_u16_le(1)  // PCM format
        + spec_u16_le(1)  // mono
        + spec_u32_le(rate) + spec_u32_le((2 * rate) as u32)  // byte rate
        + spec_u16_le(2)  // block align
        + spec_u16_le(16)  // bits per sample
        + seq![0x64u8, 0x61, 0x74, 0x61]  // 'data'
        + spec_u32_le((2 * s.len()) as u32)  // data size
        + spec_pcm_bytes(s)
}

fn push_bytes(out: &mut Vec<u8>, data: &Vec<u8>)
    ensures
        final(out)@ == old(out)@ + data@,
{
    let ghost b0: Seq<u8> = out@;
    let mut i: usize = 0;
    while i < data.len()
        invariant
            i <= data@.len(),
            out@ =~= b0 + data@.take(i as int),
        decreases data@.len() - i,
    {
        out.push(data[i]);
        i = i + 1;
    }
    proof {
        assert(out@ =~= b0 + data@);
    }
}

/// Build the byte image of the WAV file that carries the given samples.
pub fn wav_file_bytes(rate: u32, samples: &Vec<i16>) -> (r: Vec<u8>)
    requires
        36 + 2 * samples@.len() <= u32::MAX,
        2 * rate <= u32::MAX,
    ensures
        r@ == spec_wav_file(rate, samples@),
{
    let n = samples.len();
    let mut out: Vec<u8> = Vec::new();
    out.push(0x52);
    out.push(0x49);
    out.push(0x46);
    out.push(0x46);
    let chunk_size = u32_to_le(36 + 2 * (n as u32));
    push_bytes(&mut out, &chunk_size);
    out.push(0x57);
    out.push(0x41);
    out.push(0x56);
    out.push(0x45);
    out.push(0x66);
    out.push(0x6d);
    out.push(0x74);
    out.push(0x20);
    let sub1 = u32_to_le(16);
    push_bytes(&mut out, &sub1);
    let fmt = u16_to_le(1);
    push_bytes(&mut out, &fmt);
    let channels = u16_to_le(1);
    push_bytes(&mut out, &channels);
    let rate_le = u32_to_le(rate);
    push_bytes(&mut out, &rate_le);
    let byte_rate = u32_to_le(2 * rate);
    push_bytes(&mut out, &byte_rate);
    let block_align = u16_to_le(2);
    push_bytes(&mut out, &block_align);
    let depth = u16_to_le(16);
    push_bytes(&mut out, &depth);
    out.push(0x64);
    out.push(0x61);
    out.push(0x74);
    out.push(0x61);
    let data_size = u32_to_le(2 * (n as u32));
    push_bytes(&mut out, &data_size);

    let ghost header: Seq<u8> = out@;
    let mut i: usize = 0;
    while i < n
        invariant
            i <= n,
            n == samples@.len(),
            out@ =~= header + spec_pcm_bytes(samples@.take(i as int)),
        decreases n - i,
    {
        let word = i16_to_le(samples[i]);
        push_bytes(&mut out, &word);
        i = i + 1;
        proof {
            assert(samples@.take(i as int).drop_last() =~= samples@.take(i as int - 1));
            assert(samples@.take(i as int).last() == samples@[i as int - 1]);
            assert(out@ =~= header + spec_pcm_bytes(samples@.take(i as int)));
        }
    }
    proof {
        assert(samples@.take(n as int) =~= samples@);
        assert(out@ =~= spec_wav_file(rate, samples@));
    }
    out
}

} // verus!
