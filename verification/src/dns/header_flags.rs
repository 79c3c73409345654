//! The flag word of a header: query or response, the kind of query, the
//! four single-bit flags and the response code.

use vstd::prelude::*;
use crate::utility::{bit_set, Byte, Row};

verus! {

/// The kind of query a message carries.
#[derive(Debug, Clone, Copy, PartialEq, Eq, Structural)]
pub enum OPCODE {
    QUERY,
    IQUERY,
    STATUS,
    /// A reserved kind, with its number from 3 to 15.
    UNKNOWN(u8),
}

/// The four bits of the opcode, read from the first octet of the flag
/// word, where they stand in bits 3 to 6.
pub open spec fn opcode_bits(byte: u8) -> u8 {
    (byte >> 3) & 0x0F
}

/// The four bits of the response code, the low nibble of the second
/// octet of the flag word.
pub open spec fn rcode_bits(byte: u8) -> u8 {
    byte & 0x0F
}

/// The opcode that four bits stand for.
pub open spec fn opcode_of(code: u8) -> OPCODE {
    if code == 0 {
        OPCODE::QUERY
    } else if code == 1 {
        OPCODE::IQUERY
    } else if code == 2 {
        OPCODE::STATUS
    } else {
        OPCODE::UNKNOWN(code)
    }
}

impl OPCODE {
    /// The opcode in the first octet of a flag word.
    pub fn from_byte(byte: u8) -> (r: Self)
        ensures
            r == opcode_of(opcode_bits(byte)),
    {
        let code: u8 = (byte >> 3) & 0x0F;
        match code {
            0 => OPCODE::QUERY,
            1 => OPCODE::IQUERY,
            2 => OPCODE::STATUS,
            n => OPCODE::UNKNOWN(n),
        }
    }

    pub open spec fn text(&self) -> Seq<char> {
        match self {
            OPCODE::QUERY => "OPCODE: Query"@,
            OPCODE::IQUERY => "OPCODE: Inverse Query"@,
            OPCODE::STATUS => "OPCODE: Server Status"@,
            OPCODE::UNKNOWN(_) => "OPCODE: Unknown"@,
        }
    }

    /// The opcode in words.
    pub fn to_string(&self) -> (r: String)
        ensures
            r@ == self.text(),
    {
        match self {
            OPCODE::QUERY => "OPCODE: Query".to_owned(),
            OPCODE::IQUERY => "OPCODE: Inverse Query".to_owned(),
            OPCODE::STATUS => "OPCODE: Server Status".to_owned(),
            OPCODE::UNKNOWN(_) => "OPCODE: Unknown".to_owned(),
        }
    }
}

/// The outcome that a name server reports in a response.
#[derive(Debug, Clone, Copy, PartialEq, Eq, Structural)]
pub enum RCODE {
    NOERR,
    FMTERR,
    SRVFAIL,
    NAMEERR,
    NOTIMPL,
    REFUSED,
    /// A reserved code, with its number from 6 to 15.
    UNKNOWN(u8),
}

/// The response code that four bits stand for.
pub open spec fn rcode_of(code: u8) -> RCODE {
    if code == 0 {
        RCODE::NOERR
    } else if code == 1 {
        RCODE::FMTERR
    } else if code == 2 {
        RCODE::SRVFAIL
    } else if code == 3 {
        RCODE::NAMEERR
    } else if code == 4 {
        RCODE::NOTIMPL
    } else if code == 5 {
        RCODE::REFUSED
    } else {
        RCODE::UNKNOWN(code)
    }
}

impl RCODE {
    /// The response code in the second octet of a flag word.
    pub fn from_byte(byte: u8) -> (r: RCODE)
        ensures
            r == rcode_of(rcode_bits(byte)),
    {
        let n: u8 = byte.take_right_nibble();
        match n {
            0 => RCODE::NOERR,
            1 => RCODE::FMTERR,
            2 => RCODE::SRVFAIL,
            3 => RCODE::NAMEERR,
            4 => RCODE::NOTIMPL,
            5 => RCODE::REFUSED,
            n => RCODE::UNKNOWN(n),
        }
    }

    /// Whether the code reports a failure: every code but `NOERR` does.
    pub fn is_err(&self) -> (r: bool)
        ensures
            r == (*self != RCODE::NOERR),
    {
        match self {
            RCODE::NOERR => false,
            RCODE::FMTERR => true,
            RCODE::SRVFAIL => true,
            RCODE::NAMEERR => true,
            RCODE::NOTIMPL => true,
            RCODE::REFUSED => true,
            RCODE::UNKNOWN(_) => true,
        }
    }

    pub open spec fn text(&self) -> Seq<char> {
        match self {
            RCODE::NOERR => "No Errors encountered."@,
            RCODE::FMTERR => "The Name Server was unable to interpret the query."@,
            RCODE::SRVFAIL => "The Name Server was unable to process this query due to a problem with the name server."@,
            RCODE::NAMEERR => "Meaningful only for responses from an authoritative name server, this code signifies that the domain name referenced in the query does not exist."@,
            RCODE::NOTIMPL => "The name server does not support the requested kind of query."@,
            RCODE::REFUSED => "The name server refuses to perform the specified operation for policy reasons.  For example, a name server may not wish to provide the information to the particular requester, or a name server may not wish to perform a particular operation (e.g., zone"@,
            RCODE::UNKNOWN(_) => "An unknown error code was encountered. Check your parsing."@,
        }
    }

    /// The response code in words.
    pub fn to_string(&self) -> (r: String)
        ensures
            r@ == self.text(),
    {
        match self {
            RCODE::NOERR => "No Errors encountered.".to_owned(),
            RCODE::FMTERR => "The Name Server was unable to interpret the query.".to_owned(),
            RCODE::SRVFAIL => "The Name Server was unable to process this query due to a problem with the name server.".to_owned(),
            RCODE::NAMEERR => "Meaningful only for responses from an authoritative name server, this code signifies that the domain name referenced in the query does not exist.".to_owned(),
            RCODE::NOTIMPL => "The name server does not support the requested kind of query.".to_owned(),
            RCODE::REFUSED => "The name server refuses to perform the specified operation for policy reasons.  For example, a name server may not wish to provide the information to the particular requester, or a name server may not wish to perform a particular operation (e.g., zone".to_owned(),
            RCODE::UNKNOWN(_) => "An unknown error code was encountered. Check your parsing.".to_owned(),
        }
    }
}

/// Every bit of the first octet but the one that marks a response.
pub const QUERY_MASK: u8 = 0b0111_1111;

/// Every bit of the first octet but the four of the opcode.
pub const STANDARD_QUERY_MASK: u8 = 0b1000_0111;

/// The two octets of a header's flag word.
#[derive(Debug, Clone, Copy)]
pub struct Flags {
    pub bytes: [u8; 2],
}

impl Flags {
    /// The flag word of a standard query: every bit clear.
    pub fn new() -> (r: Self)
        ensures
            r.bytes@ == seq![0u8, 0u8],
    {
        let r = Flags { bytes: [0, 0] };
        assert(r.bytes@ =~= seq![0u8, 0u8]);
        r
    }

    pub fn data(&self) -> (r: [u8; 2])
        ensures
            r == self.bytes,
    {
        self.bytes
    }

    /// The flag word in the first two of `bytes`.
    pub fn from_bytes(bytes: Vec<u8>) -> (r: Self)
        requires
            bytes@.len() >= 2,
        ensures
            r.bytes@ == bytes@.take(2),
    {
        let r = Flags { bytes: [bytes[0], bytes[1]] };
        assert(r.bytes@ =~= bytes@.take(2));
        r
    }

    /// Sets the recursion-desired bit.
    pub fn set_recursive(&mut self)
        ensures
            final(self).bytes@ == seq![old(self).bytes[0] | 1, old(self).bytes[1]],
    {
        self.bytes.start_set_bits(0b0000_0001);
        assert(self.bytes@ =~= seq![old(self).bytes[0] | 1, old(self).bytes[1]]);
    }

    /// Marks the message as a query: clears the highest bit of the
    /// first octet, the one that tells a response from a query, and
    /// leaves every other bit as it is.
    pub fn set_to_query(&mut self)
        ensures
            final(self).bytes@ == seq![old(self).bytes[0] & QUERY_MASK, old(self).bytes[1]],
            !bit_set(final(self).bytes[0], 7),
    {
        self.bytes.start_unset_bits(QUERY_MASK);
        proof {
            let b = old(self).bytes[0];
            assert(((b & 0b0111_1111u8) >> 7u8) & 1 == 0) by (bit_vector);
            assert(self.bytes@ =~= seq![b & QUERY_MASK, old(self).bytes[1]]);
        }
    }

    /// Marks the query as a standard one: clears the four opcode bits of
    /// the first octet, so that the opcode reads as `QUERY`, and leaves
    /// every other bit as it is.
    pub fn set_standard_query(&mut self)
        ensures
            final(self).bytes@ == seq![
                old(self).bytes[0] & STANDARD_QUERY_MASK,
                old(self).bytes[1],
            ],
            opcode_of(opcode_bits(final(self).bytes[0])) == OPCODE::QUERY,
    {
        self.bytes.start_unset_bits(STANDARD_QUERY_MASK);
        proof {
            let b = old(self).bytes[0];
            assert(((b & 0b1000_0111u8) >> 3u8) & 0x0F == 0) by (bit_vector);
            assert(self.bytes@ =~= seq![b & STANDARD_QUERY_MASK, old(self).bytes[1]]);
        }
    }

    pub fn get_rcode(&self) -> (r: RCODE)
        ensures
            r == rcode_of(rcode_bits(self.bytes[1])),
    {
        RCODE::from_byte(self.bytes[1])
    }

    pub fn get_opcode(&self) -> (r: OPCODE)
        ensures
            r == opcode_of(opcode_bits(self.bytes[0])),
    {
        OPCODE::from_byte(self.bytes[0])
    }

    /// Whether the message is a response: the highest bit of the first
    /// octet.
    pub fn is_response(&self) -> (r: bool)
        ensures
            r == bit_set(self.bytes[0], 7),
    {
        self.bytes[0].bit_is_set(7)
    }

    pub fn is_aa(&self) -> (r: bool)
        ensures
            r == bit_set(self.bytes[0], 2),
    {
        self.bytes[0].bit_is_set(2)
    }

    pub fn is_truncated(&self) -> (r: bool)
        ensures
            r == bit_set(self.bytes[0], 1),
    {
        self.bytes[0].bit_is_set(1)
    }

    pub fn is_recursion_desired(&self) -> (r: bool)
        ensures
            r == bit_set(self.bytes[0], 0),
    {
        self.bytes[0].bit_is_set(0)
    }

    pub fn is_recursion_available(&self) -> (r: bool)
        ensures
            r == bit_set(self.bytes[1], 7),
    {
        self.bytes[1].bit_is_set(7)
    }

    /// The lines that `to_string` writes.
    pub open spec fn text(&self) -> Seq<char> {
        opcode_of(opcode_bits(self.bytes[0])).text() + "\n"@ + (if bit_set(self.bytes[0], 2) {
            "Authoritative Answer: True"@
        } else {
            "Authoritative Answer: False"@
        }) + "\n"@ + (if bit_set(self.bytes[0], 0) {
            "Recursive: True"@
        } else {
            "Recursive: False"@
        }) + "\n"@ + (if bit_set(self.bytes[1], 7) {
            "Recursion Available: True"@
        } else {
            "Recursion Available: False"@
        }) + "\n"@ + rcode_of(rcode_bits(self.bytes[1])).text()
    }

    /// The flags in words, one line each: the opcode, whether the answer
    /// is authoritative, whether recursion is desired and available, and
    /// the response code.
    pub fn to_string(&self) -> (r: String)
        ensures
            r@ == self.text(),
    {
        let mut out = self.get_opcode().to_string();
        out.append("\n");
        out.append(if self.is_aa() {
            "Authoritative Answer: True"
        } else {
            "Authoritative Answer: False"
        });
        out.append("\n");
        out.append(if self.is_recursion_desired() {
            "Recursive: True"
        } else {
            "Recursive: False"
        });
        out.append("\n");
        out.append(if self.is_recursion_available() {
            "Recursion Available: True"
        } else {
            "Recursion Available: False"
        });
        out.append("\n");
        out.append(self.get_rcode().to_string().as_str());
        out
    }
}

} // verus!
