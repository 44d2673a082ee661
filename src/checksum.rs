//! The running checksum as a narrow two-operation interface.

use vstd::prelude::*;

verus! {

/// A deterministic streaming checksum over bytes: a starting value, and an
/// update that folds one more byte into the current value.
pub trait ChecksumEngine {
    /// The value a checksum starts from.
    spec fn initial_spec() -> u16;

    /// The value after folding `b` into `current`.
    spec fn update_spec(current: u16, b: u8) -> u16;

    /// The value a checksum starts from.
    fn initial() -> (r: u16)
        ensures
            r == Self::initial_spec(),
    ;

    /// Folds `b` into `current`.
    fn update(current: u16, b: u8) -> (r: u16)
        ensures
            r == Self::update_spec(current, b),
    ;
}

/// The placeholder checksum step: every value folds to zero.
pub fn update_crc(curr_crc: u16, b: u8) -> (r: u16)
    ensures
        r == 0,
{
    0
}

/// The placeholder engine: the checksum of anything is zero.
pub struct ZeroChecksum;

impl ChecksumEngine for ZeroChecksum {
    open spec fn initial_spec() -> u16 {
        0
    }

    open spec fn update_spec(current: u16, b: u8) -> u16 {
        0
    }

    /// The value a checksum starts from.
    fn initial() -> (r: u16) {
        0
    }

    fn update(current: u16, b: u8) -> (r: u16) {
        update_crc(current, b)
    }
}

/// The sum of all bytes, modulo 2^16.
pub struct AdditiveChecksum;

impl ChecksumEngine for AdditiveChecksum {
    open spec fn initial_spec() -> u16 {
        0
    }

    open spec fn update_spec(current: u16, b: u8) -> u16 {
        ((current + b) % 0x1_0000) as u16
    }

    /// The value a checksum starts from.
    fn initial() -> (r: u16) {
        0
    }

    fn update(current: u16, b: u8) -> (r: u16) {
        current.wrapping_add(b as u16)
    }
}

} // verus!
