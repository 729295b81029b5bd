//! Protocol configuration: the strip-pattern version and the encoding rate.

use vstd::prelude::*;

verus! {

/// Which version of the data strip pattern is used.
#[derive(Clone, Copy, Debug, PartialEq, Eq, Structural)]
pub enum ProtocolVersion {
    /// Original pattern (0x55 / 0xaa over the 256-byte data region).
    V1,
    /// Improved pattern (0x35 / 0xac / 0x95 over header trailer and data).
    V2,
}

/// The version byte written into every packet header.
pub open spec fn spec_version_num(v: ProtocolVersion) -> u8 {
    match v {
        ProtocolVersion::V1 => 1,
        ProtocolVersion::V2 => 2,
    }
}

impl ProtocolVersion {
    pub fn as_num(self) -> (r: u8)
        ensures
            r == spec_version_num(self),
    {
        match self {
            ProtocolVersion::V1 => 1,
            ProtocolVersion::V2 => 2,
        }
    }
}

/// How robustly the waveform is encoded: Low trades throughput for
/// reliability, High is the default.
#[derive(Clone, Copy, Debug, PartialEq, Eq, Structural)]
pub enum EncodingRate {
    Low,
    Mid,
    High,
}

/// Divisor applied to every silence-gap duration in milliseconds.
pub open spec fn spec_silence_divisor(r: EncodingRate) -> u32 {
    match r {
        EncodingRate::Low => 4,
        EncodingRate::Mid => 2,
        EncodingRate::High => 1,
    }
}

/// Factor by which the oscillator's internal sample rate exceeds the
/// output sample rate.
pub open spec fn spec_rate_multiplier(r: EncodingRate) -> u32 {
    match r {
        EncodingRate::Low => 4,
        EncodingRate::Mid => 2,
        EncodingRate::High => 1,
    }
}

impl EncodingRate {
    pub fn silence_divisor(&self) -> (r: u32)
        ensures
            r == spec_silence_divisor(*self),
    {
        match *self {
            EncodingRate::Low => 4,
            EncodingRate::Mid => 2,
            EncodingRate::High => 1,
        }
    }
}

/// The internal oscillator sample rate for a given output rate, as an
/// unbounded integer: the output rate scaled by the encoding rate's
/// multiplier.
pub open spec fn spec_internal_rate(base: int, rate: EncodingRate) -> int {
    base * spec_rate_multiplier(rate)
}

/// For every output sample rate, switching the encoding rate from High to
/// Low multiplies the internal oscillator sample rate by four (and Mid by
/// two), while High leaves it unchanged. Stated over unbounded integers, so
/// it holds of every rate a machine could name.
pub proof fn lemma_internal_rate_scaling(base: int)
    ensures
        spec_internal_rate(base, EncodingRate::Low) == 4 * spec_internal_rate(
            base,
            EncodingRate::High,
        ),
        spec_internal_rate(base, EncodingRate::Mid) == 2 * spec_internal_rate(
            base,
            EncodingRate::High,
        ),
        spec_internal_rate(base, EncodingRate::High) == base,
{
    assert(spec_rate_multiplier(EncodingRate::Low) == 4);
    assert(spec_rate_multiplier(EncodingRate::Mid) == 2);
    assert(spec_rate_multiplier(EncodingRate::High) == 1);
    assert(spec_internal_rate(base, EncodingRate::Low) == base * 4);
    assert(spec_internal_rate(base, EncodingRate::Mid) == base * 2);
    assert(spec_internal_rate(base, EncodingRate::High) == base * 1);
}

/// The sample rate handed to the oscillator: the output rate scaled by the
/// encoding rate's multiplier.
pub fn internal_sample_rate(base: u32, rate: &EncodingRate) -> (r: u32)
    requires
        spec_internal_rate(base as int, *rate) <= u32::MAX,
    ensures
        r == spec_internal_rate(base as int, *rate),
{
    match *rate {
        EncodingRate::Low => base * 4,
        EncodingRate::Mid => base * 2,
        EncodingRate::High => base,
    }
}

/// Lowering the encoding rate from High to Low multiplies the silence-gap
/// divisor by four and the internal sample-rate multiplier by four; the
/// packet bytes themselves do not depend on the encoding rate (see the
/// transmission lemmas).
pub proof fn lemma_low_rate_scales_by_four()
    ensures
        spec_silence_divisor(EncodingRate::Low) == 4 * spec_silence_divisor(
            EncodingRate::High,
        ),
        spec_rate_multiplier(EncodingRate::Low) == 4 * spec_rate_multiplier(
            EncodingRate::High,
        ),
{
}

} // verus!
