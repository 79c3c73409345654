//! Bits and nibbles of one octet.

use vstd::prelude::*;

verus! {

/// Whether bit `pos` of `byte` is set, bit 0 being the least
/// significant. Positions past 7 name no bit and count as unset.
pub open spec fn bit_at(byte: u8, pos: usize) -> bool {
    pos < 8 && (byte >> pos) & 1 == 1
}

/// Reading and changing single bits.
pub trait HasBits: Sized {
    /// The bits, as an octet.
    spec fn octet(&self) -> u8;

    /// The value that holds the bits of `map`.
    spec fn octet_of(map: Self) -> u8;

    fn bit_is_set(&self, pos: usize) -> (r: bool)
        ensures
            r == bit_at(self.octet(), pos),
    ;

    /// Sets every bit that is set in `map`.
    fn set_bits(&mut self, map: Self)
        ensures
            final(self).octet() == old(self).octet() | Self::octet_of(map),
    ;

    /// Keeps only the bits that are set in `map`.
    fn unset_bits(&mut self, map: Self)
        ensures
            final(self).octet() == old(self).octet() & Self::octet_of(map),
    ;
}

impl HasBits for u8 {
    open spec fn octet(&self) -> u8 {
        *self
    }

    open spec fn octet_of(map: u8) -> u8 {
        map
    }

    fn bit_is_set(&self, pos: usize) -> (r: bool) {
        if pos < 8 {
            (*self >> pos) & 1 == 1
        } else {
            false
        }
    }

    fn set_bits(&mut self, map: u8) {
        *self = *self | map;
    }

    fn unset_bits(&mut self, map: u8) {
        *self = *self & map;
    }
}

/// The two nibbles of an octet, each as a number from 0 to 15.
pub trait Byte: Sized {
    /// The octet itself.
    spec fn value(&self) -> u8;

    /// The nibble of the four lowest bits.
    fn left_nibble(&self) -> (r: u8)
        ensures
            r == self.value() & 0x0F,
    ;

    /// The nibble of the four highest bits.
    fn right_nibble(&self) -> (r: u8)
        ensures
            r == self.value() >> 4usize,
    ;
}

impl Byte for u8 {
    open spec fn value(&self) -> u8 {
        *self
    }

    fn left_nibble(&self) -> (r: u8) {
        *self & 0x0F
    }

    fn right_nibble(&self) -> (r: u8) {
        *self >> 4usize
    }
}

} // verus!
