//! The twelve-byte header of a message, kept as its six rows.

use vstd::prelude::*;
use crate::dns::header_flags::{rcode_bits, rcode_of, Flags, RCODE};
use crate::text::{decimal, decimal_text, hex, hex_text};
use crate::utility::{be16, Row};
use crate::wire::error::DnsError;
use crate::wire::header::{query_header, Opcode};

verus! {

/// The number of bytes of a header on the wire.
pub const HEADER_LEN: usize = 12;

/// The header of a message: the transaction id, the flag word and the
/// four section counts, each as the two octets it takes on the wire.
#[derive(Debug, Clone, Copy)]
pub struct Header {
    pub id: [u8; 2],
    pub flags: Flags,
    pub q_count: [u8; 2],
    pub an_count: [u8; 2],
    pub ns_count: [u8; 2],
    pub ar_count: [u8; 2],
}

impl Header {
    /// The twelve bytes of the header on the wire.
    pub open spec fn wire(&self) -> Seq<u8> {
        seq![
            self.id[0],
            self.id[1],
            self.flags.bytes[0],
            self.flags.bytes[1],
            self.q_count[0],
            self.q_count[1],
            self.an_count[0],
            self.an_count[1],
            self.ns_count[0],
            self.ns_count[1],
            self.ar_count[0],
            self.ar_count[1],
        ]
    }

    /// The header of a standard query with one question, under the
    /// transaction id `id`. Recursion is asked for where `rd` holds
    /// `true`.
    pub fn new_query(id: u16, rd: Option<bool>) -> (r: Self)
        ensures
            r.wire() == query_header(id, Opcode::StandardQuery, rd == Some(true), 1),
    {
        let mut flags = Flags::new();
        flags.set_to_query();
        let wanted = match rd {
            Some(b) => b,
            None => false,
        };
        if wanted {
            flags.set_recursive();
        }
        let r = Self {
            id: [(id / 256) as u8, (id % 256) as u8],
            flags,
            q_count: [0, 1],
            an_count: [0, 0],
            ns_count: [0, 0],
            ar_count: [0, 0],
        };
        proof {
            assert(0u8 & 0b0111_1111u8 == 0u8) by (bit_vector);
            assert(0u8 | 1u8 == 1u8) by (bit_vector);
            assert((0u8 << 3usize) | 1u8 == 1u8) by (bit_vector);
            assert(0u8 << 3usize == 0u8) by (bit_vector);
            assert(r.wire() =~= query_header(id, Opcode::StandardQuery, wanted, 1));
        }
        r
    }

    pub fn id(&self) -> (r: u16)
        ensures
            r == be16(self.id[0], self.id[1]),
    {
        self.id.as_u16()
    }

    pub fn q_count(&self) -> (r: u16)
        ensures
            r == be16(self.q_count[0], self.q_count[1]),
    {
        self.q_count.as_u16()
    }

    pub fn an_count(&self) -> (r: u16)
        ensures
            r == be16(self.an_count[0], self.an_count[1]),
    {
        self.an_count.as_u16()
    }

    pub fn ns_count(&self) -> (r: u16)
        ensures
            r == be16(self.ns_count[0], self.ns_count[1]),
    {
        self.ns_count.as_u16()
    }

    pub fn ar_count(&self) -> (r: u16)
        ensures
            r == be16(self.ar_count[0], self.ar_count[1]),
    {
        self.ar_count.as_u16()
    }

    pub fn flags(&self) -> (r: Flags)
        ensures
            r == self.flags,
    {
        self.flags
    }

    pub fn rcode(&self) -> (r: RCODE)
        ensures
            r == rcode_of(rcode_bits(self.flags.bytes[1])),
    {
        self.flags.get_rcode()
    }

    /// The header in the first twelve of `bytes`. Fewer bytes make no
    /// header.
    pub fn from_bytes(bytes: Vec<u8>) -> (r: Result<Self, DnsError>)
        ensures
            bytes@.len() < HEADER_LEN ==> r == Err::<Header, DnsError>(DnsError::ShortHeader),
            bytes@.len() >= HEADER_LEN ==> r is Ok && r->Ok_0.wire() == bytes@.take(
                HEADER_LEN as int,
            ),
    {
        Header::read(bytes.as_slice())
    }

    /// `from_bytes`, from a borrowed buffer.
    pub fn read(bytes: &[u8]) -> (r: Result<Self, DnsError>)
        ensures
            bytes@.len() < HEADER_LEN ==> r == Err::<Header, DnsError>(DnsError::ShortHeader),
            bytes@.len() >= HEADER_LEN ==> r is Ok && r->Ok_0.wire() == bytes@.take(
                HEADER_LEN as int,
            ),
    {
        if bytes.len() < HEADER_LEN {
            return Err(DnsError::ShortHeader);
        }
        let h = Header {
            id: [bytes[0], bytes[1]],
            flags: Flags { bytes: [bytes[2], bytes[3]] },
            q_count: [bytes[4], bytes[5]],
            an_count: [bytes[6], bytes[7]],
            ns_count: [bytes[8], bytes[9]],
            ar_count: [bytes[10], bytes[11]],
        };
        assert(h.wire() =~= bytes@.take(HEADER_LEN as int));
        Ok(h)
    }

    /// The lines that `to_string` writes.
    pub open spec fn text(&self) -> Seq<char> {
        "ID: 0x"@ + hex_text(be16(self.id[0], self.id[1]) as nat, false) + "\nFlags: 0x"@
            + hex_text(be16(self.flags.bytes[0], self.flags.bytes[1]) as nat, false)
            + "\nQuestion count: "@ + decimal_text(be16(self.q_count[0], self.q_count[1]) as nat)
            + "\nResource Records: "@ + decimal_text(
            be16(self.an_count[0], self.an_count[1]) as nat,
        ) + "\nName Server Records: "@ + decimal_text(
            be16(self.ns_count[0], self.ns_count[1]) as nat,
        ) + "\nAdditional Records: "@ + decimal_text(
            be16(self.ar_count[0], self.ar_count[1]) as nat,
        )
    }

    /// The header in words, one line each: the id and the flag word in
    /// hexadecimal, then the four counts.
    pub fn to_string(&self) -> (r: String)
        ensures
            r@ == self.text(),
    {
        let mut out = "ID: 0x".to_owned();
        out.append(hex(self.id() as u64, false).as_str());
        out.append("\nFlags: 0x");
        out.append(hex(self.flags.bytes.as_u16() as u64, false).as_str());
        out.append("\nQuestion count: ");
        out.append(decimal(self.q_count() as u64).as_str());
        out.append("\nResource Records: ");
        out.append(decimal(self.an_count() as u64).as_str());
        out.append("\nName Server Records: ");
        out.append(decimal(self.ns_count() as u64).as_str());
        out.append("\nAdditional Records: ");
        out.append(decimal(self.ar_count() as u64).as_str());
        out
    }

    /// The header as it is written on the wire.
    pub fn to_bytes(&self) -> (r: Vec<u8>)
        ensures
            r@ == self.wire(),
    {
        let mut res: Vec<u8> = Vec::new();
        res.push(self.id[0]);
        res.push(self.id[1]);
        res.push(self.flags.bytes[0]);
        res.push(self.flags.bytes[1]);
        res.push(self.q_count[0]);
        res.push(self.q_count[1]);
        res.push(self.an_count[0]);
        res.push(self.an_count[1]);
        res.push(self.ns_count[0]);
        res.push(self.ns_count[1]);
        res.push(self.ar_count[0]);
        res.push(self.ar_count[1]);
        assert(res@ =~= self.wire());
        res
    }
}

/// A header reads back as itself: it takes twelve bytes on the wire, and
/// the header read from those bytes, whatever follows them, has the same
/// twelve bytes.
pub proof fn lemma_header_reads_back(h: Header, post: Seq<u8>)
    ensures
        h.wire().len() == HEADER_LEN,
        (h.wire() + post).take(HEADER_LEN as int) == h.wire(),
{
    assert((h.wire() + post).take(HEADER_LEN as int) =~= h.wire());
}

} // verus!
