use fskmodem::packet::{stripe_v1, Controller};
use fskmodem::protocol::{internal_sample_rate, EncodingRate, ProtocolVersion};
use fskmodem::sequencer::{silence_sample_count, Segment};

fn encode_payload(
    payload: &[u8],
    os_update: bool,
    ver: ProtocolVersion,
    rate: &EncodingRate,
) -> Vec<Segment> {
    let mut c = Controller::new(os_update, ver);
    let mut out: Vec<Segment> = Vec::new();
    c.encode(payload, &mut out, rate);
    out
}

fn silence_of(seg: &Segment) -> u32 {
    match seg {
        Segment::Silence(ms) => *ms,
        Segment::Audio(_) => panic!("expected a silence segment"),
    }
}

fn audio_of(seg: &Segment) -> Vec<u8> {
    match seg {
        Segment::Audio(bytes) => bytes.clone(),
        Segment::Silence(_) => panic!("expected an audio segment"),
    }
}

#[test]
fn test_silence_divisor() {
    assert_eq!(EncodingRate::Low.silence_divisor(), 4);
    assert_eq!(EncodingRate::Mid.silence_divisor(), 2);
    assert_eq!(EncodingRate::High.silence_divisor(), 1);
}

#[test]
fn test_scenario_three_hundred_zero_bytes() {
    // 300 bytes of 0x00: two data blocks, the second padded with 0xff.
    let payload = vec![0u8; 300];
    let segs = encode_payload(&payload, false, ProtocolVersion::V1, &EncodingRate::High);
    assert_eq!(segs.len(), 10);

    // silences: 250, 100, 500, 80, 80, 500 ms at the High rate
    assert_eq!(silence_of(&segs[0]), 250);
    assert_eq!(silence_of(&segs[2]), 100);
    assert_eq!(silence_of(&segs[4]), 500);
    assert_eq!(silence_of(&segs[6]), 80);
    assert_eq!(silence_of(&segs[8]), 80);
    assert_eq!(silence_of(&segs[9]), 500);

    // two identical control packets precede the data packets
    let control_a = audio_of(&segs[1]);
    let control_b = audio_of(&segs[3]);
    assert_eq!(control_a, control_b);
    assert_eq!(control_a.len(), 40);
    assert_eq!(control_a[8], 1);

    // data packet 0 covers payload bytes [0, 256)
    let packet0 = audio_of(&segs[5]);
    assert_eq!(packet0.len(), 272);
    assert_eq!(packet0[9], 0);
    assert_eq!(packet0[10], 0);
    let mut unstriped0 = packet0.clone();
    stripe_v1(&mut unstriped0);
    for i in 0..256 {
        assert_eq!(unstriped0[11 + i], 0x00);
    }

    // data packet 1 covers bytes [256, 300) plus 212 bytes of 0xff padding
    let packet1 = audio_of(&segs[7]);
    assert_eq!(packet1[9], 1);
    assert_eq!(packet1[10], 0);
    let mut unstriped1 = packet1.clone();
    stripe_v1(&mut unstriped1);
    for i in 0..44 {
        assert_eq!(unstriped1[11 + i], 0x00);
    }
    for i in 44..256 {
        assert_eq!(unstriped1[11 + i], 0xff);
    }
}

#[test]
fn test_data_packet_count() {
    // one data packet per 256-byte block, rounded up
    for (len, blocks) in [(0usize, 0usize), (1, 1), (255, 1), (256, 1), (257, 2), (300, 2), (1024, 4)] {
        let payload = vec![0x5au8; len];
        let segs = encode_payload(&payload, false, ProtocolVersion::V2, &EncodingRate::High);
        assert_eq!(segs.len(), 6 + 2 * blocks);
        let data_packets = segs
            .iter()
            .enumerate()
            .filter(|(i, s)| *i >= 5 && matches!(s, Segment::Audio(_)))
            .count();
        assert_eq!(data_packets, blocks);
    }
}

#[test]
fn test_rate_changes_only_silences() {
    let payload: Vec<u8> = (0..300u32).map(|i| i as u8).collect();
    let hi = encode_payload(&payload, false, ProtocolVersion::V2, &EncodingRate::High);
    let lo = encode_payload(&payload, false, ProtocolVersion::V2, &EncodingRate::Low);
    assert_eq!(hi.len(), lo.len());
    for (a, b) in hi.iter().zip(lo.iter()) {
        match (a, b) {
            (Segment::Silence(h), Segment::Silence(l)) => assert_eq!(*l, *h / 4),
            (Segment::Audio(h), Segment::Audio(l)) => assert_eq!(h, l),
            _ => panic!("segment kinds diverge between rates"),
        }
    }
    assert_eq!(silence_of(&lo[0]), 62);
    assert_eq!(silence_of(&lo[2]), 25);
    assert_eq!(silence_of(&lo[4]), 125);
}

#[test]
fn test_internal_sample_rate() {
    assert_eq!(internal_sample_rate(44100, &EncodingRate::High), 44100);
    assert_eq!(internal_sample_rate(44100, &EncodingRate::Mid), 88200);
    assert_eq!(internal_sample_rate(44100, &EncodingRate::Low), 176400);
}

#[test]
fn test_silence_sample_count() {
    // 250 ms at 44100 Hz is exactly 11025 samples
    assert_eq!(silence_sample_count(44100, 250), 11025);
    // 62 ms at 44100 Hz is 2734.2 samples, rounded up
    assert_eq!(silence_sample_count(44100, 62), 2735);
    assert_eq!(silence_sample_count(44100, 0), 0);
}

#[test]
fn test_pilot_only_at_low_rate() {
    let mut c = Controller::new(false, ProtocolVersion::V1);
    let mut out: Vec<Segment> = Vec::new();
    c.pilot(&mut out, &EncodingRate::High);
    assert_eq!(out.len(), 0);
    c.pilot(&mut out, &EncodingRate::Mid);
    assert_eq!(out.len(), 0);
    c.pilot(&mut out, &EncodingRate::Low);
    assert_eq!(out.len(), 1);
    let data = audio_of(&out[0]);
    assert_eq!(data.len(), 500);
    assert!(data.iter().all(|b| *b == 0));
}

#[test]
fn test_make_zero() {
    let mut c = Controller::new(false, ProtocolVersion::V1);
    let z = c.make_zero(4000);
    assert_eq!(z.len(), 500);
    assert!(z.iter().all(|b| *b == 0));
    assert_eq!(c.make_zero(7).len(), 0);
}
