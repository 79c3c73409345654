//! Rows of two octets, and names as runs of labels.

use vstd::prelude::*;
use vstd::std_specs::convert::FromSpecImpl;
use crate::packed::bits::{bit_at, HasBits};
use crate::packed::label::Label;
use crate::utility::be16;

verus! {

/// Two octets of a message: the head comes first on the wire.
#[derive(Clone, Copy, Debug, PartialEq, Eq, Structural)]
pub struct Row(pub u8, pub u8);

impl From<Row> for u16 {
    fn from(value: Row) -> (r: u16) {
        let hi: u16 = value.0 as u16;
        let lo: u16 = value.1 as u16;
        assert((hi << 8) | lo == hi * 256 + lo) by (bit_vector)
            requires
                hi < 256,
                lo < 256,
        ;
        (hi << 8) | lo
    }
}

impl FromSpecImpl<Row> for u16 {
    open spec fn obeys_from_spec() -> bool {
        true
    }

    open spec fn from_spec(value: Row) -> u16 {
        be16(value.0, value.1)
    }
}

impl Row {
    pub fn new(head: u8, tail: u8) -> (r: Self)
        ensures
            r == Row(head, tail),
    {
        Self(head, tail)
    }

    pub fn head(&self) -> (r: u8)
        ensures
            r == self.0,
    {
        self.0
    }

    pub fn tail(&self) -> (r: u8)
        ensures
            r == self.1,
    {
        self.1
    }

    /// Sets in the head every bit that is set in `map`.
    pub fn head_set_bits(&mut self, map: u8)
        ensures
            *final(self) == Row(old(self).0 | map, old(self).1),
    {
        let mut h: u8 = self.0;
        h.set_bits(map);
        self.0 = h;
    }

    /// Keeps in the head only the bits that are set in `map`.
    pub fn head_unset_bits(&mut self, map: u8)
        ensures
            *final(self) == Row(old(self).0 & map, old(self).1),
    {
        let mut h: u8 = self.0;
        h.unset_bits(map);
        self.0 = h;
    }

    /// Sets in the tail every bit that is set in `map`.
    pub fn tail_set_bits(&mut self, map: u8)
        ensures
            *final(self) == Row(old(self).0, old(self).1 | map),
    {
        let mut t: u8 = self.1;
        t.set_bits(map);
        self.1 = t;
    }

    /// Keeps in the tail only the bits that are set in `map`.
    pub fn tail_unset_bits(&mut self, map: u8)
        ensures
            *final(self) == Row(old(self).0, old(self).1 & map),
    {
        let mut t: u8 = self.1;
        t.unset_bits(map);
        self.1 = t;
    }

    /// Whether bit `pos` of the head is set. A position from 8 on is
    /// asked of the tail as it stands, where it names no bit: only the
    /// positions 0 to 7 ever find a bit set.
    pub fn bit_is_set(&self, pos: usize) -> (r: bool)
        ensures
            r == bit_at(self.0, pos),
    {
        if pos < 8 {
            return self.0.bit_is_set(pos);
        } else if pos < 16 {
            return self.1.bit_is_set(pos);
        }
        false
    }
}

/// A name as the run of its labels.
pub struct Name(pub Vec<Label>);

} // verus!
