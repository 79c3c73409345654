//! The type of the records a question asks for, read from a row.

use vstd::prelude::*;
use vstd::std_specs::convert::FromSpecImpl;
use crate::packed::data::Row;
use crate::utility::be16;

verus! {

/// A question type, or the code that names none.
#[derive(Clone, Copy, Debug, PartialEq, Eq, Structural)]
pub enum Qtype {
    A,
    NS,
    MD,
    MF,
    CNAME,
    SOA,
    MB,
    MG,
    MR,
    NULL,
    WKS,
    PTR,
    HINFO,
    MINFO,
    MX,
    TXT,
    AXFR,
    MAILB,
    MAILA,
    ALL,
    UNKNOWN(u16),
}

/// The question type that a code stands for.
pub open spec fn qtype_from(value: u16) -> Qtype {
    if value == 1 {
        Qtype::A
    } else if value == 2 {
        Qtype::NS
    } else if value == 3 {
        Qtype::MD
    } else if value == 4 {
        Qtype::MF
    } else if value == 5 {
        Qtype::CNAME
    } else if value == 6 {
        Qtype::SOA
    } else if value == 7 {
        Qtype::MB
    } else if value == 8 {
        Qtype::MG
    } else if value == 9 {
        Qtype::MR
    } else if value == 10 {
        Qtype::NULL
    } else if value == 11 {
        Qtype::WKS
    } else if value == 12 {
        Qtype::PTR
    } else if value == 13 {
        Qtype::HINFO
    } else if value == 14 {
        Qtype::MINFO
    } else if value == 15 {
        Qtype::MX
    } else if value == 16 {
        Qtype::TXT
    } else if value == 252 {
        Qtype::AXFR
    } else if value == 253 {
        Qtype::MAILB
    } else if value == 254 {
        Qtype::MAILA
    } else if value == 255 {
        Qtype::ALL
    } else {
        Qtype::UNKNOWN(value)
    }
}

impl From<u16> for Qtype {
    fn from(value: u16) -> (r: Qtype) {
        match value {
            1 => Qtype::A,
            2 => Qtype::NS,
            3 => Qtype::MD,
            4 => Qtype::MF,
            5 => Qtype::CNAME,
            6 => Qtype::SOA,
            7 => Qtype::MB,
            8 => Qtype::MG,
            9 => Qtype::MR,
            10 => Qtype::NULL,
            11 => Qtype::WKS,
            12 => Qtype::PTR,
            13 => Qtype::HINFO,
            14 => Qtype::MINFO,
            15 => Qtype::MX,
            16 => Qtype::TXT,
            252 => Qtype::AXFR,
            253 => Qtype::MAILB,
            254 => Qtype::MAILA,
            255 => Qtype::ALL,
            _ => Qtype::UNKNOWN(value),
        }
    }
}

impl FromSpecImpl<u16> for Qtype {
    open spec fn obeys_from_spec() -> bool {
        true
    }

    open spec fn from_spec(value: u16) -> Qtype {
        qtype_from(value)
    }
}

impl From<Row> for Qtype {
    fn from(value: Row) -> (r: Qtype) {
        Qtype::from(u16::from(value))
    }
}

impl FromSpecImpl<Row> for Qtype {
    open spec fn obeys_from_spec() -> bool {
        true
    }

    open spec fn from_spec(value: Row) -> Qtype {
        qtype_from(be16(value.0, value.1))
    }
}

} // verus!
