//! The class of the records a question asks for, read from a row.

use vstd::prelude::*;
use vstd::std_specs::convert::FromSpecImpl;
use crate::packed::data::Row;
use crate::text::{hex, hex_text};
use crate::utility::be16;

verus! {

/// A record class, or the code that names none.
#[derive(Clone, Copy, Debug, PartialEq, Eq, Structural)]
pub enum QClass {
    IN,
    CS,
    CH,
    HS,
    UNKNOWN(u16),
}

/// The class that a code stands for.
pub open spec fn qclass_from(value: u16) -> QClass {
    if value == 1 {
        QClass::IN
    } else if value == 2 {
        QClass::CS
    } else if value == 3 {
        QClass::CH
    } else if value == 4 {
        QClass::HS
    } else {
        QClass::UNKNOWN(value)
    }
}

impl QClass {
    pub open spec fn text(&self) -> Seq<char> {
        match self {
            QClass::IN => "Internet"@,
            QClass::CS => "CSNet (Obsolete)"@,
            QClass::CH => "Chaos"@,
            QClass::HS => "Hesiod"@,
            QClass::UNKNOWN(v) => "Invalid Class 0x"@ + hex_text(*v as nat, true),
        }
    }

    /// The class in words; a code that names none in hexadecimal.
    pub fn to_string(&self) -> (r: String)
        ensures
            r@ == self.text(),
    {
        match self {
            QClass::IN => "Internet".to_owned(),
            QClass::CS => "CSNet (Obsolete)".to_owned(),
            QClass::CH => "Chaos".to_owned(),
            QClass::HS => "Hesiod".to_owned(),
            QClass::UNKNOWN(v) => {
                let mut out = "Invalid Class 0x".to_owned();
                out.append(hex(*v as u64, true).as_str());
                out
            },
        }
    }
}

impl From<u16> for QClass {
    fn from(value: u16) -> (r: QClass) {
        match value {
            1 => QClass::IN,
            2 => QClass::CS,
            3 => QClass::CH,
            4 => QClass::HS,
            _ => QClass::UNKNOWN(value),
        }
    }
}

impl FromSpecImpl<u16> for QClass {
    open spec fn obeys_from_spec() -> bool {
        true
    }

    open spec fn from_spec(value: u16) -> QClass {
        qclass_from(value)
    }
}

impl From<Row> for QClass {
    fn from(value: Row) -> (r: QClass) {
        QClass::from(u16::from(value))
    }
}

impl FromSpecImpl<Row> for QClass {
    open spec fn obeys_from_spec() -> bool {
        true
    }

    open spec fn from_spec(value: Row) -> QClass {
        qclass_from(be16(value.0, value.1))
    }
}

} // verus!
