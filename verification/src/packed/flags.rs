//! The flag word of a header, read from a row.

use vstd::prelude::*;
use vstd::std_specs::convert::FromSpecImpl;
use crate::packed::bits::{bit_at, HasBits};
use crate::packed::data::Row;

verus! {

/// The kind of query a message carries.
#[derive(PartialEq, Eq, Debug, Clone, Copy, Structural)]
pub enum Opcode {
    QUERY,
    IQUERY,
    STATUS,
    /// A reserved kind, with its number from 3 to 15.
    RESERVED(u8),
}

/// The opcode in the first octet of a flag word, where it stands in
/// bits 3 to 6.
pub open spec fn opcode_in(head: u8) -> Opcode {
    let code = (head >> 3usize) & 0x0f;
    if code == 0 {
        Opcode::QUERY
    } else if code == 1 {
        Opcode::IQUERY
    } else if code == 2 {
        Opcode::STATUS
    } else {
        Opcode::RESERVED(code)
    }
}

impl From<u8> for Opcode {
    fn from(value: u8) -> (r: Opcode) {
        match (value >> 3usize) & 0x0f {
            0 => Opcode::QUERY,
            1 => Opcode::IQUERY,
            2 => Opcode::STATUS,
            n => Opcode::RESERVED(n),
        }
    }
}

impl FromSpecImpl<u8> for Opcode {
    open spec fn obeys_from_spec() -> bool {
        true
    }

    open spec fn from_spec(value: u8) -> Opcode {
        opcode_in(value)
    }
}

impl Opcode {
    pub open spec fn text(&self) -> Seq<char> {
        match self {
            Opcode::QUERY => "Query"@,
            Opcode::IQUERY => "Inverse Query"@,
            Opcode::STATUS => "Server Status Request"@,
            Opcode::RESERVED(_) => "Reserved"@,
        }
    }

    /// The opcode in words.
    pub fn to_string(&self) -> (r: String)
        ensures
            r@ == self.text(),
    {
        match self {
            Opcode::QUERY => "Query".to_owned(),
            Opcode::IQUERY => "Inverse Query".to_owned(),
            Opcode::STATUS => "Server Status Request".to_owned(),
            Opcode::RESERVED(_) => "Reserved".to_owned(),
        }
    }
}

/// The outcome that a name server reports in a response.
#[derive(PartialEq, Eq, Debug, Clone, Copy, Structural)]
pub enum RCODE {
    NONE,
    FORMAT,
    SERVER,
    NAME,
    NOIMPL,
    REFUSED,
    /// A reserved code, with its number from 6 to 15.
    RESERVED(u8),
}

/// The response code in the second octet of a flag word: its low nibble.
pub open spec fn rcode_in(tail: u8) -> RCODE {
    let code = tail & 0x0f;
    if code == 0 {
        RCODE::NONE
    } else if code == 1 {
        RCODE::FORMAT
    } else if code == 2 {
        RCODE::SERVER
    } else if code == 3 {
        RCODE::NAME
    } else if code == 4 {
        RCODE::NOIMPL
    } else if code == 5 {
        RCODE::REFUSED
    } else {
        RCODE::RESERVED(code)
    }
}

impl From<u8> for RCODE {
    fn from(value: u8) -> (r: RCODE) {
        match value & 0x0f {
            0 => RCODE::NONE,
            1 => RCODE::FORMAT,
            2 => RCODE::SERVER,
            3 => RCODE::NAME,
            4 => RCODE::NOIMPL,
            5 => RCODE::REFUSED,
            n => RCODE::RESERVED(n),
        }
    }
}

impl FromSpecImpl<u8> for RCODE {
    open spec fn obeys_from_spec() -> bool {
        true
    }

    open spec fn from_spec(value: u8) -> RCODE {
        rcode_in(value)
    }
}

impl RCODE {
    pub open spec fn text(&self) -> Seq<char> {
        match self {
            RCODE::NONE => "No Errors encountered."@,
            RCODE::FORMAT => "The Name Server was unable to interpret the query."@,
            RCODE::SERVER => "The Name Server was unable to process this query due to a problem with the name server."@,
            RCODE::NAME => "Meaningful only for responses from an authoritative name server, this code signifies that the domain name referenced in the query does not exist."@,
            RCODE::NOIMPL => "The name server does not support the requested kind of query."@,
            RCODE::REFUSED => "The name server refuses to perform the specified operation for policy reasons.  For example, a name server may not wish to provide the information to the particular requester, or a name server may not wish to perform a particular operation (e.g., zone"@,
            RCODE::RESERVED(_) => "An unknown error code was encountered. Check your parsing."@,
        }
    }

    /// The response code in words.
    pub fn to_string(&self) -> (r: String)
        ensures
            r@ == self.text(),
    {
        match self {
            RCODE::NONE => "No Errors encountered.".to_owned(),
            RCODE::FORMAT => "The Name Server was unable to interpret the query.".to_owned(),
            RCODE::SERVER => "The Name Server was unable to process this query due to a problem with the name server.".to_owned(),
            RCODE::NAME => "Meaningful only for responses from an authoritative name server, this code signifies that the domain name referenced in the query does not exist.".to_owned(),
            RCODE::NOIMPL => "The name server does not support the requested kind of query.".to_owned(),
            RCODE::REFUSED => "The name server refuses to perform the specified operation for policy reasons.  For example, a name server may not wish to provide the information to the particular requester, or a name server may not wish to perform a particular operation (e.g., zone".to_owned(),
            RCODE::RESERVED(_) => "An unknown error code was encountered. Check your parsing.".to_owned(),
        }
    }
}

/// The flag word of a header.
#[derive(Clone, Copy, Debug, PartialEq, Eq, Structural)]
pub struct Flags(pub Row);

impl From<(u8, u8)> for Flags {
    fn from(value: (u8, u8)) -> (r: Flags) {
        Flags::new(Row::new(value.0, value.1))
    }
}

impl FromSpecImpl<(u8, u8)> for Flags {
    open spec fn obeys_from_spec() -> bool {
        true
    }

    open spec fn from_spec(value: (u8, u8)) -> Flags {
        Flags(Row(value.0, value.1))
    }
}

impl Flags {
    pub fn new(row: Row) -> (r: Self)
        ensures
            r == Flags(row),
    {
        Self(row)
    }

    pub fn is_query(&self) -> (r: bool)
        ensures
            r == !bit_at(self.0.0, 7),
    {
        !self.0.head().bit_is_set(7)
    }

    pub fn is_response(&self) -> (r: bool)
        ensures
            r == bit_at(self.0.0, 7),
    {
        self.0.head().bit_is_set(7)
    }

    pub fn opcode(&self) -> (r: Opcode)
        ensures
            r == opcode_in(self.0.0),
    {
        Opcode::from(self.0.head())
    }

    pub fn is_authoritative_answer(&self) -> (r: bool)
        ensures
            r == bit_at(self.0.0, 2),
    {
        self.0.head().bit_is_set(2)
    }

    pub fn is_truncated(&self) -> (r: bool)
        ensures
            r == bit_at(self.0.0, 1),
    {
        self.0.head().bit_is_set(1)
    }

    pub fn recursion_desired(&self) -> (r: bool)
        ensures
            r == (self.0.0 & 1 == 1),
    {
        (self.0.head() & 1) == 1
    }

    pub fn recursion_available(&self) -> (r: bool)
        ensures
            r == bit_at(self.0.1, 7),
    {
        self.0.tail().bit_is_set(7)
    }

    pub fn rcode(&self) -> (r: RCODE)
        ensures
            r == rcode_in(self.0.1),
    {
        RCODE::from(self.0.tail())
    }

    /// Whether the response code reports a failure.
    pub fn has_error(&self) -> (r: bool)
        ensures
            r == (rcode_in(self.0.1) != RCODE::NONE),
    {
        self.rcode() != RCODE::NONE
    }

    /// The lines that `to_string` writes.
    pub open spec fn text(&self) -> Seq<char> {
        "Opcode: "@ + opcode_in(self.0.0).text() + "\n"@ + (if bit_at(self.0.0, 2) {
            "Authoritative: True\n"@
        } else {
            "Authoritative: False\n"@
        }) + (if self.0.0 & 1 == 1 {
            "Recursion Desired: True\n"@
        } else {
            "Recursion Desired: False\n"@
        }) + (if bit_at(self.0.1, 7) {
            "Recursion Available: True\n"@
        } else {
            "Recursion Available: False\n"@
        }) + "\n"@ + rcode_in(self.0.1).text()
    }

    /// The flags in words: the opcode, whether the answer is
    /// authoritative, whether recursion is desired and available, and,
    /// after an empty line, the response code.
    pub fn to_string(&self) -> (r: String)
        ensures
            r@ == self.text(),
    {
        let mut out = "Opcode: ".to_owned();
        out.append(self.opcode().to_string().as_str());
        out.append("\n");
        out.append(if self.is_authoritative_answer() {
            "Authoritative: True\n"
        } else {
            "Authoritative: False\n"
        });
        out.append(if self.recursion_desired() {
            "Recursion Desired: True\n"
        } else {
            "Recursion Desired: False\n"
        });
        out.append(if self.recursion_available() {
            "Recursion Available: True\n"
        } else {
            "Recursion Available: False\n"
        });
        out.append("\n");
        out.append(self.rcode().to_string().as_str());
        out
    }
}

} // verus!
