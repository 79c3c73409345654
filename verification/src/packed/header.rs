//! The header of a message as six rows.

use vstd::prelude::*;
use crate::packed::data::Row;
use crate::packed::flags::Flags;
use crate::text::{decimal, decimal_text, hex, hex_text};
use crate::utility::be16;

verus! {

/// The header of a message: the transaction id, the flag word and the
/// four section counts.
#[derive(Clone, Copy, Debug)]
pub struct DnsHeader {
    pub id: Row,
    pub flags: Row,
    pub q_count: Row,
    pub an_count: Row,
    pub ns_count: Row,
    pub ar_count: Row,
}

impl DnsHeader {
    pub fn id(&self) -> (r: u16)
        ensures
            r == be16(self.id.0, self.id.1),
    {
        u16::from(self.id)
    }

    pub fn flags(&self) -> (r: Flags)
        ensures
            r == Flags(self.flags),
    {
        Flags::new(self.flags)
    }

    pub fn q_count(&self) -> (r: u16)
        ensures
            r == be16(self.q_count.0, self.q_count.1),
    {
        u16::from(self.q_count)
    }

    pub fn an_count(&self) -> (r: u16)
        ensures
            r == be16(self.an_count.0, self.an_count.1),
    {
        u16::from(self.an_count)
    }

    pub fn ns_count(&self) -> (r: u16)
        ensures
            r == be16(self.ns_count.0, self.ns_count.1),
    {
        u16::from(self.ns_count)
    }

    pub fn ar_count(&self) -> (r: u16)
        ensures
            r == be16(self.ar_count.0, self.ar_count.1),
    {
        u16::from(self.ar_count)
    }

    /// The lines that `to_string` writes.
    pub open spec fn text(&self) -> Seq<char> {
        "0x"@ + hex_text(be16(self.id.0, self.id.1) as nat, true) + "\n"@ + Flags(
            self.flags,
        ).text() + "\n"@ + decimal_text(be16(self.q_count.0, self.q_count.1) as nat) + "\n"@
            + decimal_text(be16(self.an_count.0, self.an_count.1) as nat) + "\n"@ + decimal_text(
            be16(self.ns_count.0, self.ns_count.1) as nat,
        ) + "\n"@ + decimal_text(be16(self.an_count.0, self.an_count.1) as nat)
    }

    /// The header in words: the id in hexadecimal, the flags, and the
    /// numbers of questions, answers and authority records, each on a
    /// line of its own. The number of answers closes the text once
    /// more; the number of additional records is not written.
    pub fn to_string(&self) -> (r: String)
        ensures
            r@ == self.text(),
    {
        let mut out = "0x".to_owned();
        out.append(hex(self.id() as u64, true).as_str());
        out.append("\n");
        out.append(self.flags().to_string().as_str());
        out.append("\n");
        out.append(decimal(self.q_count() as u64).as_str());
        out.append("\n");
        out.append(decimal(self.an_count() as u64).as_str());
        out.append("\n");
        out.append(decimal(self.ns_count() as u64).as_str());
        out.append("\n");
        out.append(decimal(self.an_count() as u64).as_str());
        out
    }
}

} // verus!
