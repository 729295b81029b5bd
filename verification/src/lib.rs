//! An acoustic-modem transmitter core: an arbitrary binary payload becomes
//! a framed, checksummed, DC-balanced serial protocol ready to be keyed
//! onto two audio tones. The packet builder produces the exact wire bytes
//! (preamble, header, payload digests, checksum footer, stripe pass), the
//! sequencer lays out a whole transmission as silence gaps and packets, and
//! the bit cursor feeds packet bytes to the oscillator one bit at a time,
//! least significant first, with no seam between packets. The oscillator's
//! analog half — the phase accumulator — and all input and output live
//! outside this crate and consume plain values from it.

pub mod bits;
pub mod bytes;
pub mod hashes;
pub mod packet;
pub mod protocol;
pub mod sequencer;
pub mod wav;
