//! The packet builder: the exact wire bytes of control and data packets —
//! preamble, header, body, checksum footer, stop padding, and the
//! DC-balancing stripe pass.

use vstd::prelude::*;
use crate::bytes::{spec_u128_le, spec_u32_le, u32_to_le};
use crate::hashes::{md5_digest, md5_of, murmur3_32_from, murmur3_of};
use crate::protocol::{spec_version_num, ProtocolVersion};

verus! {

/// The fixed preamble sent before every packet.
pub open spec fn spec_preamble() -> Seq<u8> {
    seq![0x00u8, 0x00, 0x00, 0x00, 0xaa, 0x55, 0x42]
}

/// The stop padding appended after the footer to pad out the transmission.
pub open spec fn spec_stop_bytes() -> Seq<u8> {
    seq![0xffu8]
}

/// Seed of the footer checksum.
pub open spec fn spec_footer_seed() -> u32 {
    0xdead_beef
}

/// Seed of the whole-payload hash carried in control packets.
pub open spec fn spec_program_seed() -> u32 {
    0x32d0_babe
}

/// Packet-type byte of a control packet.
pub open spec fn spec_control_type(os_update: bool) -> u8 {
    if os_update {
        0x03
    } else {
        0x01
    }
}

/// Packet-type byte of a data packet.
pub open spec fn spec_data_type(os_update: bool) -> u8 {
    if os_update {
        0x04
    } else {
        0x02
    }
}

/// An 11-byte packet header: preamble, version, type, two trailer bytes.
pub open spec fn spec_header(ver: ProtocolVersion, ptype: u8, lo: u8, hi: u8) -> Seq<u8> {
    spec_preamble() + seq![spec_version_num(ver), ptype, lo, hi]
}

/// The footer of a packet whose bytes so far are `p`: the little-endian
/// checksum of everything from byte offset 7 on (the preamble is excluded).
pub open spec fn spec_footer(p: Seq<u8>) -> Seq<u8> {
    spec_u32_le(murmur3_of(p.skip(7), spec_footer_seed()))
}

/// Body of a control packet: header, payload length, whole-payload hash,
/// and the 16-byte payload digest.
pub open spec fn spec_control_body(os_update: bool, ver: ProtocolVersion, payload: Seq<u8>) -> Seq<
    u8,
> {
    spec_header(ver, spec_control_type(os_update), 0x00, 0x00) + spec_u32_le(
        payload.len() as u32,
    ) + spec_u32_le(murmur3_of(payload, spec_program_seed())) + spec_u128_le(md5_of(payload))
}

/// A complete control packet. Control packets are not striped.
pub open spec fn spec_control_packet(os_update: bool, ver: ProtocolVersion, payload: Seq<u8>) -> Seq<
    u8,
> {
    let body = spec_control_body(os_update, ver, payload);
    body + spec_footer(body) + spec_stop_bytes()
}

/// The 256-byte data region: the given bytes, truncated to 256 or padded
/// with 0xff past their end.
pub open spec fn spec_pad256(data: Seq<u8>) -> Seq<u8> {
    Seq::new(256, |i: int| if i < data.len() {
        data[i]
    } else {
        0xff
    })
}

/// Body of a data packet: header (with the block number little-endian in
/// the trailer bytes) and the 256-byte data region.
pub open spec fn spec_data_body(
    os_update: bool,
    ver: ProtocolVersion,
    data: Seq<u8>,
    block: u16,
) -> Seq<u8> {
    spec_header(ver, spec_data_type(os_update), (block & 0xff) as u8, ((block >> 8) & 0xff) as u8)
        + spec_pad256(data)
}

/// A complete data packet before the stripe pass.
pub open spec fn spec_data_packet_unstriped(
    os_update: bool,
    ver: ProtocolVersion,
    data: Seq<u8>,
    block: u16,
) -> Seq<u8> {
    let body = spec_data_body(os_update, ver, data, block);
    body + spec_footer(body) + spec_stop_bytes()
}

/// Whether index `i` of the 256-byte data region is flipped by the first
/// stripe pattern.
pub open spec fn v1_stripes(i: int) -> bool {
    i % 16 == 3 || i % 16 == 11
}

/// The mask the first stripe pattern applies at data-region index `i`.
pub open spec fn v1_mask(i: int) -> u8 {
    if i % 16 == 3 {
        0x55
    } else {
        0xaa
    }
}

/// `p` with the first `n` bytes of its data region (which starts at packet
/// index 11, after the header) striped by the first pattern.
pub open spec fn stripe_v1_upto(p: Seq<u8>, n: int) -> Seq<u8> {
    Seq::new(
        p.len(),
        |j: int|
            if 11 <= j < 11 + n && v1_stripes(j - 11) {
                p[j] ^ v1_mask(j - 11)
            } else {
                p[j]
            },
    )
}

/// The first stripe pattern over the whole 256-byte data region.
pub open spec fn spec_stripe_v1(p: Seq<u8>) -> Seq<u8> {
    stripe_v1_upto(p, 256)
}

/// The mask the second stripe pattern applies at packet index `i`: a
/// three-byte rotation, offset by two to match the receiver's phase.
pub open spec fn v2_mask(i: int) -> u8 {
    if (i - 7) % 3 == 0 {
        0x35
    } else if (i - 7) % 3 == 1 {
        0xac
    } else {
        0x95
    }
}

/// `p` with bytes [9, 9 + n) striped by the second pattern, never touching
/// the last five bytes (footer and stop byte).
pub open spec fn stripe_v2_upto(p: Seq<u8>, n: int) -> Seq<u8> {
    Seq::new(
        p.len(),
        |j: int|
            if 9 <= j < 9 + n && j + 5 < p.len() {
                p[j] ^ v2_mask(j)
            } else {
                p[j]
            },
    )
}

/// The second stripe pattern over its whole range: from just after the
/// preamble, version and type bytes up to the footer.
pub open spec fn spec_stripe_v2(p: Seq<u8>) -> Seq<u8> {
    stripe_v2_upto(p, p.len() as int)
}

/// A complete data packet as transmitted: the version's stripe pattern
/// applied to the un-striped packet.
pub open spec fn spec_data_packet(
    os_update: bool,
    ver: ProtocolVersion,
    data: Seq<u8>,
    block: u16,
) -> Seq<u8> {
    let u = spec_data_packet_unstriped(os_update, ver, data, block);
    match ver {
        ProtocolVersion::V1 => spec_stripe_v1(u),
        ProtocolVersion::V2 => spec_stripe_v2(u),
    }
}

/// Apply the first stripe pattern in place to the 256-byte data region.
pub fn stripe_v1(packet: &mut Vec<u8>)
    requires
        old(packet)@.len() >= 267,
    ensures
        final(packet)@ == spec_stripe_v1(old(packet)@),
{
    let ghost p0: Seq<u8> = packet@;
    for i in 0..256usize
        invariant
            packet@.len() == p0.len(),
            p0.len() >= 267,
            packet@ =~= stripe_v1_upto(p0, i as int),
    {
        if i % 16 == 3 {
            let v = packet[11 + i];
            packet.set(11 + i, v ^ 0x55);
        } else if i % 16 == 11 {
            let v = packet[11 + i];
            packet.set(11 + i, v ^ 0xaa);
        }
        proof {
            assert(packet@ =~= stripe_v1_upto(p0, i + 1));
        }
    }
    proof {
        assert(stripe_v1_upto(p0, 256) =~= spec_stripe_v1(p0));
    }
}

/// Apply the second stripe pattern in place: bytes from index 9 up to (but
/// excluding) the 4-byte footer and the stop byte.
pub fn stripe_v2(packet: &mut Vec<u8>)
    requires
        old(packet)@.len() >= 5,
    ensures
        final(packet)@ == spec_stripe_v2(old(packet)@),
{
    let ghost p0: Seq<u8> = packet@;
    let end = if packet.len() >= 14 {
        packet.len() - 5
    } else {
        9
    };
    let mut i: usize = 9;
    while i < end
        invariant
            9 <= i <= end,
            packet@.len() == p0.len(),
            end == if p0.len() >= 14 {
                p0.len() - 5
            } else {
                9
            },
            packet@ =~= stripe_v2_upto(p0, i - 9),
        decreases end - i,
    {
        let rem = (i - 7) % 3;
        let v = packet[i];
        if rem == 0 {
            packet.set(i, v ^ 0x35);
        } else if rem == 1 {
            packet.set(i, v ^ 0xac);
        } else {
            packet.set(i, v ^ 0x95);
        }
        i = i + 1;
        proof {
            assert(packet@ =~= stripe_v2_upto(p0, i - 9));
        }
    }
    proof {
        assert(stripe_v2_upto(p0, end - 9) =~= spec_stripe_v2(p0));
    }
}

/// Applying the first stripe pattern twice gives back the original bytes:
/// each flip is an XOR with a fixed mask, which is self-inverse.
pub proof fn lemma_stripe_v1_involution(p: Seq<u8>)
    ensures
        spec_stripe_v1(spec_stripe_v1(p)) == p,
{
    assert(forall|x: u8, m: u8| #[trigger] ((x ^ m) ^ m) == x) by (bit_vector);
    assert(spec_stripe_v1(spec_stripe_v1(p)) =~= p);
}

/// Applying the second stripe pattern twice gives back the original bytes.
pub proof fn lemma_stripe_v2_involution(p: Seq<u8>)
    ensures
        spec_stripe_v2(spec_stripe_v2(p)) == p,
{
    assert(forall|x: u8, m: u8| #[trigger] ((x ^ m) ^ m) == x) by (bit_vector);
    assert(spec_stripe_v2(spec_stripe_v2(p)) =~= p);
}

/// The second stripe pattern never modifies the nine-byte packet prefix
/// (preamble, version and type bytes) nor the last five bytes (the 4-byte
/// footer and the stop byte).
pub proof fn lemma_stripe_v2_bounds(p: Seq<u8>)
    ensures
        spec_stripe_v2(p).len() == p.len(),
        forall|j: int| 0 <= j < 9 && j < p.len() ==> spec_stripe_v2(p)[j] == p[j],
        forall|j: int| 0 <= j < p.len() && p.len() <= j + 5 ==> spec_stripe_v2(p)[j] == p[j],
{
}

/// Builds the wire bytes of control and data packets for one transmission.
pub struct Controller {
    pub os_update: bool,
    pub protocol_version: ProtocolVersion,
    pub preamble: Vec<u8>,
    pub stop_bytes: Vec<u8>,
}

impl Controller {
    /// The preamble and stop bytes hold their fixed wire values.
    pub open spec fn wf(self) -> bool {
        self.preamble@ == spec_preamble() && self.stop_bytes@ == spec_stop_bytes()
    }

    pub fn new(os_update: bool, protocol_version: ProtocolVersion) -> (r: Controller)
        ensures
            r.wf(),
            r.os_update == os_update,
            r.protocol_version == protocol_version,
    {
        let mut preamble: Vec<u8> = Vec::new();
        preamble.push(0x00);
        preamble.push(0x00);
        preamble.push(0x00);
        preamble.push(0x00);
        preamble.push(0xaa);
        preamble.push(0x55);
        preamble.push(0x42);
        let mut stop_bytes: Vec<u8> = Vec::new();
        stop_bytes.push(0xff);
        proof {
            assert(preamble@ =~= spec_preamble());
            assert(stop_bytes@ =~= spec_stop_bytes());
        }
        Controller { os_update, protocol_version, preamble, stop_bytes }
    }

    pub fn make_preamble(&self) -> (r: Vec<u8>)
        requires
            self.wf(),
        ensures
            r@ == spec_preamble(),
    {
        let mut header: Vec<u8> = Vec::new();
        let mut i: usize = 0;
        while i < self.preamble.len()
            invariant
                i <= self.preamble@.len(),
                header@ =~= self.preamble@.take(i as int),
            decreases self.preamble@.len() - i,
        {
            header.push(self.preamble[i]);
            i = i + 1;
        }
        proof {
            assert(header@ =~= spec_preamble());
        }
        header
    }

    pub fn make_control_header(&self) -> (r: Vec<u8>)
        requires
            self.wf(),
        ensures
            r@ == spec_header(self.protocol_version, 0x01, 0x00, 0x00),
    {
        let mut header = self.make_preamble();
        header.push(self.protocol_version.as_num());
        header.push(0x01);
        header.push(0x00);
        header.push(0x00);
        proof {
            assert(header@ =~= spec_header(self.protocol_version, 0x01, 0x00, 0x00));
        }
        header
    }

    pub fn make_data_header(&self, block_number: u16) -> (r: Vec<u8>)
        requires
            self.wf(),
        ensures
            r@ == spec_header(
                self.protocol_version,
                0x02,
                (block_number & 0xff) as u8,
                ((block_number >> 8) & 0xff) as u8,
            ),
    {
        let mut header = self.make_preamble();
        header.push(self.protocol_version.as_num());
        header.push(0x02);
        header.push((block_number & 0xff) as u8);
        header.push(((block_number >> 8) & 0xff) as u8);
        proof {
            assert(header@ =~= spec_header(
                self.protocol_version,
                0x02,
                (block_number & 0xff) as u8,
                ((block_number >> 8) & 0xff) as u8,
            ));
        }
        header
    }

    pub fn make_control_os_header(&self) -> (r: Vec<u8>)
        requires
            self.wf(),
        ensures
            r@ == spec_header(self.protocol_version, 0x03, 0x00, 0x00),
    {
        let mut header = self.make_preamble();
        header.push(self.protocol_version.as_num());
        header.push(0x03);
        header.push(0x00);
        header.push(0x00);
        proof {
            assert(header@ =~= spec_header(self.protocol_version, 0x03, 0x00, 0x00));
        }
        header
    }

    pub fn make_data_os_header(&self, block_number: u16) -> (r: Vec<u8>)
        requires
            self.wf(),
        ensures
            r@ == spec_header(
                self.protocol_version,
                0x04,
                (block_number & 0xff) as u8,
                ((block_number >> 8) & 0xff) as u8,
            ),
    {
        let mut header = self.make_preamble();
        header.push(self.protocol_version.as_num());
        header.push(0x04);
        header.push((block_number & 0xff) as u8);
        header.push(((block_number >> 8) & 0xff) as u8);
        proof {
            assert(header@ =~= spec_header(
                self.protocol_version,
                0x04,
                (block_number & 0xff) as u8,
                ((block_number >> 8) & 0xff) as u8,
            ));
        }
        header
    }

    pub fn append_data(&self, buffer: &mut Vec<u8>, data: &[u8])
        ensures
            final(buffer)@ == old(buffer)@ + data@,
    {
        let ghost b0: Seq<u8> = buffer@;
        let mut i: usize = 0;
        while i < data.len()
            invariant
                i <= data@.len(),
                buffer@ =~= b0 + data@.take(i as int),
            decreases data@.len() - i,
        {
            buffer.push(data[i]);
            i = i + 1;
        }
        proof {
            assert(buffer@ =~= b0 + data@);
        }
    }

    /// The footer of a packet under construction: the checksum of its bytes
    /// from offset 7 on, little-endian. The checksum's byte counter is
    /// 32 bits wide, hence the length bound.
    pub fn make_footer(&self, data: &[u8]) -> (r: Vec<u8>)
        requires
            data@.len() >= 7,
            data@.len() < 0x1_0000_0000,
        ensures
            r@ == spec_footer(data@),
    {
        let data_hash_32 = murmur3_32_from(data, 7, 0xdead_beef);
        u32_to_le(data_hash_32)
    }

    /// The whole payload runs through the 32-bit hash, whose byte counter
    /// bounds the payload length; the length field of the packet is 32 bits
    /// wide as well.
    pub fn make_control_packet(&mut self, data: &[u8]) -> (r: Vec<u8>)
        requires
            old(self).wf(),
            data@.len() < 0x1_0000_0000,
        ensures
            *final(self) == *old(self),
            r@ == spec_control_packet(old(self).os_update, old(self).protocol_version, data@),
    {
        let mut packet: Vec<u8> = Vec::new();

        let control_header = if self.os_update {
            self.make_control_os_header()
        } else {
            self.make_control_header()
        };
        self.append_data(&mut packet, control_header.as_slice());

        let program_length = u32_to_le(data.len() as u32);
        self.append_data(&mut packet, program_length.as_slice());

        let program_hash_32 = murmur3_32_from(data, 0, 0x32d0_babe);
        let program_hash = u32_to_le(program_hash_32);
        self.append_data(&mut packet, program_hash.as_slice());

        let program_guid = md5_digest(data);
        self.append_data(&mut packet, program_guid.as_slice());

        proof {
            assert(data@.skip(0) =~= data@);
            assert(packet@ =~= spec_control_body(
                self.os_update,
                self.protocol_version,
                data@,
            ));
        }

        let footer = self.make_footer(packet.as_slice());
        self.append_data(&mut packet, footer.as_slice());

        self.append_data(&mut packet, self.stop_bytes.as_slice());

        proof {
            assert(packet@ =~= spec_control_packet(
                self.os_update,
                self.protocol_version,
                data@,
            ));
        }
        packet
    }

    pub fn make_data_packet(&mut self, data_in: &[u8], block_num: u16) -> (r: Vec<u8>)
        requires
            old(self).wf(),
        ensures
            *final(self) == *old(self),
            r@ == spec_data_packet(
                old(self).os_update,
                old(self).protocol_version,
                data_in@,
                block_num,
            ),
    {
        let mut packet: Vec<u8> = Vec::new();
        let data_header = if self.os_update {
            self.make_data_os_header(block_num)
        } else {
            self.make_data_header(block_num)
        };
        self.append_data(&mut packet, data_header.as_slice());

        // The data region is exactly 256 bytes: the input truncated or
        // padded with 0xff.
        let mut region: Vec<u8> = Vec::new();
        let mut i: usize = 0;
        while i < 256
            invariant
                i <= 256,
                region@ =~= spec_pad256(data_in@).take(i as int),
            decreases 256 - i,
        {
            if i < data_in.len() {
                region.push(data_in[i]);
            } else {
                region.push(0xff);
            }
            i = i + 1;
        }
        self.append_data(&mut packet, region.as_slice());

        proof {
            assert(region@ =~= spec_pad256(data_in@));
            assert(packet@ =~= spec_data_body(
                self.os_update,
                self.protocol_version,
                data_in@,
                block_num,
            ));
        }

        let footer = self.make_footer(packet.as_slice());
        self.append_data(&mut packet, footer.as_slice());

        self.append_data(&mut packet, self.stop_bytes.as_slice());

        proof {
            assert(packet@ =~= spec_data_packet_unstriped(
                self.os_update,
                self.protocol_version,
                data_in@,
                block_num,
            ));
        }

        // After the footer is computed, stripe the packet so the signal
        // keeps transitioning even through long runs of 0xff.
        match self.protocol_version {
            ProtocolVersion::V1 => stripe_v1(&mut packet),
            ProtocolVersion::V2 => stripe_v2(&mut packet),
        }
        packet
    }
}

/// The footer field of a control packet is the checksum, little-endian, of
/// the packet's own bytes from offset 7 up to the footer. Control packets
/// are not striped, so the check can be made on the packet as transmitted.
pub proof fn lemma_control_packet_footer(os_update: bool, ver: ProtocolVersion, payload: Seq<u8>)
    ensures
        ({
            let p = spec_control_packet(os_update, ver, payload);
            &&& p.len() == 40
            &&& p.subrange(35, 39) == spec_u32_le(
                murmur3_of(p.subrange(7, 35), spec_footer_seed()),
            )
            &&& p.subrange(39, 40) == spec_stop_bytes()
        }),
{
    let body = spec_control_body(os_update, ver, payload);
    let p = spec_control_packet(os_update, ver, payload);
    assert(body.len() == 35);
    assert(p.subrange(7, 35) =~= body.skip(7));
    assert(p.subrange(35, 39) =~= spec_footer(body));
    assert(p.subrange(39, 40) =~= spec_stop_bytes());
}

/// Round trip of a data packet: re-applying the stripe pattern to a
/// transmitted packet recovers the un-striped packet, whose footer field
/// (bytes [267, 271)) is the checksum of its bytes from offset 7 up to the
/// footer; the stripe pass never changes the footer or the stop byte.
pub proof fn lemma_data_packet_footer(
    os_update: bool,
    ver: ProtocolVersion,
    data: Seq<u8>,
    block: u16,
)
    ensures
        ({
            let p = spec_data_packet(os_update, ver, data, block);
            let u = spec_data_packet_unstriped(os_update, ver, data, block);
            &&& p.len() == 272
            &&& u.len() == 272
            &&& (ver == ProtocolVersion::V1 ==> spec_stripe_v1(p) == u)
            &&& (ver == ProtocolVersion::V2 ==> spec_stripe_v2(p) == u)
            &&& u.subrange(267, 271) == spec_u32_le(
                murmur3_of(u.subrange(7, 267), spec_footer_seed()),
            )
            &&& p.subrange(267, 272) == u.subrange(267, 272)
        }),
{
    let p = spec_data_packet(os_update, ver, data, block);
    let body = spec_data_body(os_update, ver, data, block);
    let u = spec_data_packet_unstriped(os_update, ver, data, block);
    assert(body.len() == 267);
    assert(u.subrange(7, 267) =~= body.skip(7));
    assert(u.subrange(267, 271) =~= spec_footer(body));
    match ver {
        ProtocolVersion::V1 => {
            lemma_stripe_v1_involution(u);
            assert(p.subrange(267, 272) =~= u.subrange(267, 272));
        },
        ProtocolVersion::V2 => {
            lemma_stripe_v2_involution(u);
            assert(p.subrange(267, 272) =~= u.subrange(267, 272));
        },
    }
}

/// The data region handed to a data packet is exactly 256 bytes: the
/// payload slice where it reaches, 0xff padding past its end.
pub proof fn lemma_pad256(data: Seq<u8>)
    ensures
        spec_pad256(data).len() == 256,
        forall|i: int| 0 <= i < 256 && i < data.len() ==> spec_pad256(data)[i] == data[i],
        forall|i: int| data.len() <= i < 256 ==> spec_pad256(data)[i] == 0xff,
{
}

} // verus!
