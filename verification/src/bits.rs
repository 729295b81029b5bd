//! The bit layer of the FSK modulator: packet bytes unpacked into bits,
//! least significant first, through a cursor whose state persists across
//! modulation calls — only the byte read position is reset per call, so the
//! bit stream of a transmission has no seam at packet boundaries.

use vstd::prelude::*;

verus! {

/// The low `n` bits of `v`, least significant first.
pub open spec fn bits_lsb(v: nat, n: nat) -> Seq<u8>
    decreases n,
{
    if n == 0 {
        Seq::empty()
    } else {
        seq![(v % 2) as u8] + bits_lsb(v / 2, (n - 1) as nat)
    }
}

/// The eight bits of a byte, least significant first.
pub open spec fn byte_bits(b: u8) -> Seq<u8> {
    bits_lsb(b as nat, 8)
}

/// The bit stream of a byte sequence: every byte's bits, least significant
/// first, in byte order.
pub open spec fn stream_bits(s: Seq<u8>) -> Seq<u8>
    decreases s.len(),
{
    if s.len() == 0 {
        Seq::empty()
    } else {
        byte_bits(s[0]) + stream_bits(s.skip(1))
    }
}

/// Two buffers modulated back to back yield the bit stream of their
/// concatenation: a cursor that is not reset between calls continues the
/// stream with no seam at the boundary. (This is the discrete half of the
/// oscillator's continuity contract; the analog phase accumulator consumes
/// this stream outside the library.)
pub proof fn lemma_stream_bits_concat(a: Seq<u8>, b: Seq<u8>)
    ensures
        stream_bits(a + b) == stream_bits(a) + stream_bits(b),
    decreases a.len(),
{
    if a.len() == 0 {
        assert(a + b =~= b);
        assert(stream_bits(a) + stream_bits(b) =~= stream_bits(b));
    } else {
        lemma_stream_bits_concat(a.skip(1), b);
        assert((a + b).skip(1) =~= a.skip(1) + b);
        assert((a + b)[0] == a[0]);
        assert(stream_bits(a + b) =~= stream_bits(a) + stream_bits(b));
    }
}

/// The modulator's input cursor: the byte being shifted out, how many of
/// its bits remain, and the bit currently on the air.
pub struct BitCursor {
    pub current_byte: u8,
    pub bit_pos: u8,
    pub current_bit: u8,
}

impl BitCursor {
    /// The bits of the current byte still to be emitted, least significant
    /// first.
    pub open spec fn pending(self) -> Seq<u8> {
        bits_lsb(self.current_byte as nat, self.bit_pos as nat)
    }

    pub open spec fn wf(self) -> bool {
        self.bit_pos <= 8 && self.current_bit <= 1
    }

    pub fn new() -> (r: BitCursor)
        ensures
            r.wf(),
            r.pending() == Seq::<u8>::empty(),
            r.current_bit == 0,
    {
        BitCursor { current_byte: 0, bit_pos: 0, current_bit: 0 }
    }

    /// Step to the next bit of the stream: shift the next bit out of the
    /// current byte, pulling the byte at `*pos` from `input` first when the
    /// current byte is spent. Returns false — leaving the cursor and the
    /// position unchanged — exactly when no bit is left.
    pub fn advance(&mut self, input: &[u8], pos: &mut usize) -> (more: bool)
        requires
            old(self).wf(),
            *old(pos) <= input@.len(),
        ensures
            final(self).wf(),
            *final(pos) <= input@.len(),
            more == (old(self).pending().len() > 0 || *old(pos) < input@.len()),
            old(self).pending().len() > 0 ==> *final(pos) == *old(pos),
            old(self).pending().len() > 0 ==> final(self).current_bit == old(self).pending()[0],
            old(self).pending().len() > 0 ==> final(self).pending() == old(self).pending().skip(1),
            (old(self).pending().len() == 0 && *old(pos) < input@.len()) ==> *final(pos) == *old(pos) + 1,
            (old(self).pending().len() == 0 && *old(pos) < input@.len()) ==> final(self).current_bit == byte_bits(input@[*old(pos) as int])[0],
            (old(self).pending().len() == 0 && *old(pos) < input@.len()) ==> final(self).pending() == byte_bits(input@[*old(pos) as int]).skip(1),
            !more ==> *final(self) == *old(self) && *final(pos) == *old(pos),
    {
        if self.bit_pos == 0 {
            let p = *pos;
            if p < input.len() {
                self.current_byte = input[p];
                *pos = p + 1;
                self.bit_pos = 8;
            } else {
                return false;
            }
        }
        let ghost b: u8 = self.current_byte;
        let ghost n: u8 = self.bit_pos;
        self.current_bit = self.current_byte & 1;
        self.current_byte = self.current_byte >> 1;
        self.bit_pos = self.bit_pos - 1;
        proof {
            assert(b & 1 == b % 2 && b >> 1 == b / 2 && b & 1 <= 1) by (bit_vector);
            assert(bits_lsb(b as nat, n as nat) == seq![(b % 2) as u8] + bits_lsb(
                (b / 2) as nat,
                (n - 1) as nat,
            ));
            assert(bits_lsb(b as nat, n as nat).skip(1) =~= bits_lsb(
                (b / 2) as nat,
                (n - 1) as nat,
            ));
            assert(bits_lsb(b as nat, n as nat)[0] == (b % 2) as u8);
        }
        true
    }
}

} // verus!
