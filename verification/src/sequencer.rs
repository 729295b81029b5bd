//! The transmission sequencer: one payload becomes an ordered plan of
//! silence gaps and packet bytes. Modulating each packet in order with one
//! oscillator, and inserting the silences between them, reproduces the full
//! waveform of a transmission.

use vstd::prelude::*;
use crate::packet::{spec_control_packet, spec_data_packet, Controller};
use crate::protocol::{spec_silence_divisor, EncodingRate, ProtocolVersion};

verus! {

/// One step of a transmission: a silence gap of so many milliseconds, or
/// the bytes of one packet, to be modulated.
#[derive(Debug, PartialEq)]
pub enum Segment {
    Silence(u32),
    Audio(Vec<u8>),
}

/// The mathematical image of a segment.
pub enum SegView {
    Silence(u32),
    Audio(Seq<u8>),
}

impl View for Segment {
    type V = SegView;

    open spec fn view(&self) -> SegView {
        match self {
            Segment::Silence(ms) => SegView::Silence(*ms),
            Segment::Audio(bytes) => SegView::Audio(bytes@),
        }
    }
}

/// The views of a sequence of segments.
pub open spec fn seq_views(s: Seq<Segment>) -> Seq<SegView> {
    s.map_values(|x: Segment| x@)
}

proof fn lemma_seq_views_push(s: Seq<Segment>, x: Segment)
    ensures
        seq_views(s.push(x)) == seq_views(s).push(x@),
{
    assert(seq_views(s.push(x)) =~= seq_views(s).push(x@));
}

/// How many data packets a payload of `len` bytes takes: one per 256-byte
/// block, rounded up, saturated at the 16-bit block counter's maximum.
pub open spec fn spec_blocks(len: nat) -> nat {
    let b = (len + 255) / 256;
    if b > 65535 {
        65535
    } else {
        b
    }
}

/// The 256-byte data region of block `k`: the block index is masked to
/// 8 bits before slicing, and bytes past the payload end are 0xff.
pub open spec fn spec_block_data(payload: Seq<u8>, k: int) -> Seq<u8> {
    Seq::new(256, |i: int| if (k % 256) * 256 + i < payload.len() {
        payload[(k % 256) * 256 + i]
    } else {
        0xff
    })
}

/// A run of zero bytes.
pub open spec fn spec_zero_bytes(n: nat) -> Seq<u8> {
    Seq::new(n, |i: int| 0u8)
}

/// The data part of a transmission: for each block, its packet followed by
/// a silence gap.
pub open spec fn spec_data_segments(
    payload: Seq<u8>,
    os_update: bool,
    ver: ProtocolVersion,
    rate: EncodingRate,
    blocks: int,
) -> Seq<SegView> {
    Seq::new(
        (2 * blocks) as nat,
        |j: int|
            if j % 2 == 0 {
                SegView::Audio(
                    spec_data_packet(
                        os_update,
                        ver,
                        spec_block_data(payload, j / 2),
                        ((j / 2) % 256) as u16,
                    ),
                )
            } else {
                SegView::Silence(80u32 / spec_silence_divisor(rate))
            },
    )
}

/// The full transmission plan for one payload: leading silence, a control
/// packet sent twice with gaps, one data packet and gap per block, and a
/// final silence.
pub open spec fn spec_transmission(
    payload: Seq<u8>,
    os_update: bool,
    ver: ProtocolVersion,
    rate: EncodingRate,
) -> Seq<SegView> {
    let d = spec_silence_divisor(rate);
    let control = SegView::Audio(spec_control_packet(os_update, ver, payload));
    seq![
        SegView::Silence(250u32 / d),
        control,
        SegView::Silence(100u32 / d),
        control,
        SegView::Silence(500u32 / d),
    ] + spec_data_segments(payload, os_update, ver, rate, spec_blocks(payload.len()) as int)
        + seq![SegView::Silence(500u32 / d)]
}

impl Controller {
    /// A buffer of `number / 8` zero bytes: `number` bits' worth of zeros.
    pub fn make_zero(&mut self, number: u32) -> (r: Vec<u8>)
        ensures
            *final(self) == *old(self),
            r@ == spec_zero_bytes((number / 8) as nat),
    {
        let mut buffer: Vec<u8> = Vec::new();
        let n = (number / 8) as usize;
        let mut i: usize = 0;
        while i < n
            invariant
                i <= n,
                buffer@ =~= spec_zero_bytes(i as nat),
            decreases n - i,
        {
            buffer.push(0x00);
            i = i + 1;
        }
        proof {
            assert(buffer@ =~= spec_zero_bytes((number / 8) as nat));
        }
        buffer
    }

    /// At the Low encoding rate, prepend roughly half a second of zero-bit
    /// modulation so the receiver can acquire level and timing before real
    /// data begins; the other rates emit no pilot.
    pub fn pilot(&mut self, output: &mut Vec<Segment>, rate: &EncodingRate)
        ensures
            *final(self) == *old(self),
            *rate == EncodingRate::Low ==> seq_views(final(output)@) == seq_views(
                old(output)@,
            ).push(SegView::Audio(spec_zero_bytes(500))),
            *rate != EncodingRate::Low ==> final(output)@ == old(output)@,
    {
        if *rate == EncodingRate::Low {
            let ghost before: Seq<Segment> = output@;
            let data = self.make_zero(4000);  // ~0.5 s of zero bits
            let seg = Segment::Audio(data);
            proof {
                lemma_seq_views_push(before, seg);
            }
            output.push(seg);
        }
    }

    /// Assemble the whole transmission plan for one payload: the leading
    /// silence, two control packets, every data block with its gap, and the
    /// closing silence.
    pub fn encode(&mut self, input: &[u8], output: &mut Vec<Segment>, rate: &EncodingRate)
        requires
            old(self).wf(),
            input@.len() < 0x1_0000_0000,
        ensures
            *final(self) == *old(self),
            seq_views(final(output)@) == seq_views(old(output)@) + spec_transmission(
                input@,
                old(self).os_update,
                old(self).protocol_version,
                *rate,
            ),
    {
        let ghost self0: Controller = *self;
        let ghost base: Seq<SegView> = seq_views(output@);
        let ghost t: Seq<SegView> = spec_transmission(
            input@,
            self.os_update,
            self.protocol_version,
            *rate,
        );
        let silence_divisor = rate.silence_divisor();
        let file_length = input.len();

        // ceil(file_length / 256), saturated at the 16-bit block counter.
        let blocks_full = file_length / 256 + if file_length % 256 != 0 {
            1
        } else {
            0
        };
        let blocks: u16 = if blocks_full > 65535 {
            65535
        } else {
            blocks_full as u16
        };
        proof {
            assert(blocks == spec_blocks(input@.len()));
        }

        output.push(Segment::Silence(250 / silence_divisor));

        let data = self.make_control_packet(input);
        output.push(Segment::Audio(data));

        output.push(Segment::Silence(100 / silence_divisor));

        // The control packet is sent twice for redundancy.
        let data = self.make_control_packet(input);
        output.push(Segment::Audio(data));

        output.push(Segment::Silence(500 / silence_divisor));

        proof {
            assert(seq_views(output@) =~= base + t.take(5));
        }

        let mut packet_num: u16 = 0;
        while packet_num < blocks
            invariant
                *self == self0,
                self0.wf(),
                packet_num <= blocks,
                blocks == spec_blocks(input@.len()),
                t == spec_transmission(
                    input@,
                    self0.os_update,
                    self0.protocol_version,
                    *rate,
                ),
                silence_divisor == spec_silence_divisor(*rate),
                seq_views(output@) =~= base + t.take(5 + 2 * packet_num as int),
            decreases blocks - packet_num,
        {
            let masked = packet_num & 0xff;
            proof {
                assert(masked == packet_num % 256 && masked < 256) by (bit_vector)
                    requires
                        masked == packet_num & 0xff,
                ;
            }
            let slice_start = (masked as usize) * 256;
            let mut packet_data: Vec<u8> = Vec::new();
            let mut i: usize = 0;
            while i < 256
                invariant
                    i <= 256,
                    masked == packet_num % 256,
                    masked < 256,
                    slice_start == (masked as int) * 256,
                    packet_data@ =~= spec_block_data(input@, packet_num as int).take(i as int),
                decreases 256 - i,
            {
                let target_offset = slice_start + i;
                if target_offset < input.len() {
                    packet_data.push(input[target_offset]);
                } else {
                    packet_data.push(0xff);
                }
                i = i + 1;
            }
            proof {
                assert(packet_data@ =~= spec_block_data(input@, packet_num as int));
            }

            let data = self.make_data_packet(packet_data.as_slice(), masked);
            proof {
                let pn = packet_num as int;
                let j = 2 * pn;
                let mid = spec_data_segments(
                    input@,
                    self0.os_update,
                    self0.protocol_version,
                    *rate,
                    spec_blocks(input@.len()) as int,
                );
                assert(j % 2 == 0 && j / 2 == pn);
                assert(mid[j] == SegView::Audio(
                    spec_data_packet(
                        self0.os_update,
                        self0.protocol_version,
                        spec_block_data(input@, pn),
                        (pn % 256) as u16,
                    ),
                ));
                assert(masked as int == pn % 256);
                assert(t[5 + j] == mid[j]);
                assert(t[5 + j] == SegView::Audio(data@));
                assert(t[5 + j + 1] == mid[j + 1]);
                assert(t[5 + j + 1] == SegView::Silence(80u32 / spec_silence_divisor(*rate)));
            }
            output.push(Segment::Audio(data));
            output.push(Segment::Silence(80 / silence_divisor));

            packet_num = packet_num + 1;
            proof {
                let prev_views = base + t.take(5 + 2 * (packet_num - 1) as int);
                assert(seq_views(output@) =~~= prev_views.push(
                    SegView::Audio(data@),
                ).push(SegView::Silence(80u32 / spec_silence_divisor(*rate))));
                assert(prev_views.push(SegView::Audio(data@)).push(
                    SegView::Silence(80u32 / spec_silence_divisor(*rate)),
                ) =~~= base + t.take(5 + 2 * packet_num as int));
                assert(seq_views(output@) =~~= base + t.take(5 + 2 * packet_num as int));
            }
        }

        output.push(Segment::Silence(500 / silence_divisor));
        proof {
            let blocks_n = spec_blocks(input@.len()) as int;
            assert(t.len() == 6 + 2 * blocks_n);
            assert(t[5 + 2 * blocks_n] == SegView::Silence(500u32 / spec_silence_divisor(*rate)));
            let prev_views = base + t.take(5 + 2 * blocks_n);
            assert(seq_views(output@) =~~= prev_views.push(
                SegView::Silence(500u32 / spec_silence_divisor(*rate)),
            ));
            assert(prev_views.push(
                SegView::Silence(500u32 / spec_silence_divisor(*rate)),
            ) =~~= base + t);
            assert(seq_views(output@) =~~= base + t);
        }
    }
}

/// Each block's data region is exactly 256 bytes: the payload's bytes where
/// the (8-bit-masked) block index reaches into the payload, 0xff padding
/// past the payload's end.
pub proof fn lemma_block_data(payload: Seq<u8>, k: int)
    ensures
        spec_block_data(payload, k).len() == 256,
        forall|i: int|
            0 <= i < 256 && (k % 256) * 256 + i < payload.len()
                ==> spec_block_data(payload, k)[i] == payload[(k % 256) * 256 + i],
        forall|i: int|
            0 <= i < 256 && (k % 256) * 256 + i >= payload.len()
                ==> spec_block_data(payload, k)[i] == 0xff,
{
}

/// The shape of a transmission: exactly one data packet per 256-byte block
/// of the payload — ceil(len / 256) of them whenever the payload fits the
/// 16-bit block counter — between the five leading segments (silence, a
/// control packet sent twice with gaps, silence) and the closing silence,
/// with a silence gap after every data packet.
pub proof fn lemma_transmission_shape(
    payload: Seq<u8>,
    os_update: bool,
    ver: ProtocolVersion,
    rate: EncodingRate,
)
    ensures
        ({
            let t = spec_transmission(payload, os_update, ver, rate);
            let blocks = spec_blocks(payload.len()) as int;
            let d = spec_silence_divisor(rate);
            &&& t.len() == 6 + 2 * blocks
            &&& (payload.len() <= 65535 * 256 ==> blocks == (payload.len() + 255) as int / 256)
            &&& t[0] == SegView::Silence(250u32 / d)
            &&& t[1] == SegView::Audio(spec_control_packet(os_update, ver, payload))
            &&& t[2] == SegView::Silence(100u32 / d)
            &&& t[3] == SegView::Audio(spec_control_packet(os_update, ver, payload))
            &&& t[4] == SegView::Silence(500u32 / d)
            &&& forall|i: int|
                5 <= i < 5 + 2 * blocks && (i - 5) % 2 == 0 ==> t[i] == SegView::Audio(
                    spec_data_packet(
                        os_update,
                        ver,
                        spec_block_data(payload, (i - 5) / 2),
                        (((i - 5) / 2) % 256) as u16,
                    ),
                )
            &&& forall|i: int|
                5 <= i < 5 + 2 * blocks && (i - 5) % 2 == 1 ==> t[i] == SegView::Silence(80u32 / d)
            &&& t[5 + 2 * blocks] == SegView::Silence(500u32 / d)
        }),
{
    let t = spec_transmission(payload, os_update, ver, rate);
    let blocks = spec_blocks(payload.len()) as int;
    let mid = spec_data_segments(payload, os_update, ver, rate, blocks);
    assert forall|i: int| 5 <= i < 5 + 2 * blocks && (i - 5) % 2 == 0 implies t[i]
        == SegView::Audio(
        spec_data_packet(
            os_update,
            ver,
            spec_block_data(payload, (i - 5) / 2),
            (((i - 5) / 2) % 256) as u16,
        ),
    ) by {
        assert(t[i] == mid[i - 5]);
    }
    assert forall|i: int| 5 <= i < 5 + 2 * blocks && (i - 5) % 2 == 1 implies t[i]
        == SegView::Silence(80u32 / spec_silence_divisor(rate)) by {
        assert(t[i] == mid[i - 5]);
    }
}

/// Changing the encoding rate changes no packet byte: the two plans pair
/// off segment by segment, every packet equal, and from High to Low every
/// silence duration is divided by four (the divisor goes from 1 to 4) while
/// the internal oscillator sample rate is multiplied by four
/// (lemma_low_rate_scales_by_four). The baud rate and tone frequencies are
/// no part of the plan and are untouched.
pub proof fn lemma_rate_changes_only_silences(
    payload: Seq<u8>,
    os_update: bool,
    ver: ProtocolVersion,
)
    ensures
        ({
            let hi = spec_transmission(payload, os_update, ver, EncodingRate::High);
            let lo = spec_transmission(payload, os_update, ver, EncodingRate::Low);
            &&& lo.len() == hi.len()
            &&& forall|i: int|
                0 <= i < hi.len() ==> (#[trigger] hi[i] matches SegView::Audio(b) ==> lo[i]
                    == SegView::Audio(b))
            &&& forall|i: int|
                0 <= i < hi.len() ==> (#[trigger] hi[i] matches SegView::Silence(ms) ==> lo[i]
                    == SegView::Silence(ms / 4))
        }),
{
    let hi = spec_transmission(payload, os_update, ver, EncodingRate::High);
    let lo = spec_transmission(payload, os_update, ver, EncodingRate::Low);
    let blocks = spec_blocks(payload.len()) as int;
    let mid_hi = spec_data_segments(payload, os_update, ver, EncodingRate::High, blocks);
    let mid_lo = spec_data_segments(payload, os_update, ver, EncodingRate::Low, blocks);
    assert(hi.len() == 6 + 2 * blocks && lo.len() == 6 + 2 * blocks);
    assert forall|i: int| 0 <= i < hi.len() implies (#[trigger] hi[i] matches SegView::Audio(b)
        ==> lo[i] == SegView::Audio(b)) && (hi[i] matches SegView::Silence(ms) ==> lo[i]
        == SegView::Silence(ms / 4)) by {
        if i < 5 {
            assert(hi[0] == SegView::Silence(250u32) && lo[0] == SegView::Silence(62u32));
            assert(hi[2] == SegView::Silence(100u32) && lo[2] == SegView::Silence(25u32));
            assert(hi[4] == SegView::Silence(500u32) && lo[4] == SegView::Silence(125u32));
            assert(hi[1] == SegView::Audio(spec_control_packet(os_update, ver, payload)));
            assert(lo[1] == SegView::Audio(spec_control_packet(os_update, ver, payload)));
            assert(hi[3] == lo[1] && lo[3] == lo[1]);
        } else if i < 5 + 2 * blocks {
            let j = i - 5;
            assert(hi[i] == mid_hi[j]);
            assert(lo[i] == mid_lo[j]);
            if j % 2 == 1 {
                assert(spec_silence_divisor(EncodingRate::High) == 1);
                assert(spec_silence_divisor(EncodingRate::Low) == 4);
                assert(mid_hi[j] == SegView::Silence(80u32 / 1u32));
                assert(mid_lo[j] == SegView::Silence(80u32 / 4u32));
                assert(hi[i] == SegView::Silence(80u32) && lo[i] == SegView::Silence(20u32));
            }
        } else {
            assert(hi[i] == SegView::Silence(500u32) && lo[i] == SegView::Silence(125u32));
        }
    }
}

/// Number of samples in a silence gap of `msecs` milliseconds at `rate`
/// samples per second, rounded up.
pub fn silence_sample_count(rate: u32, msecs: u32) -> (n: u64)
    ensures
        n == ((rate as int) * (msecs as int) + 999) / 1000,
{
    proof {
        assert((rate as int) * (msecs as int) <= 0xffff_ffff * 0xffff_ffff)
            by (nonlinear_arith)
            requires
                rate <= 0xffff_ffffu32,
                msecs <= 0xffff_ffffu32,
        ;
    }
    let prod = (rate as u64) * (msecs as u64);
    (prod + 999) / 1000
}

} // verus!
