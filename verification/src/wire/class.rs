//! The registry of record classes.

use vstd::prelude::*;
use vstd::std_specs::convert::{FromSpecImpl, TryFromSpecImpl};
use crate::wire::error::DnsError;

verus! {

/// The class of a resource record, or of the records a question asks
/// for.
#[derive(Debug, Clone, Copy, PartialEq, Eq, Structural)]
pub enum RecordClass {
    /// The Internet.
    IN,
    /// The CSNET class (obsolete).
    CS,
    /// The CHAOS class.
    CH,
    /// Hesiod.
    HS,
    /// Any class; in questions only.
    ANY,
}

/// The code of a class on the wire.
pub open spec fn class_code(c: RecordClass) -> u16 {
    match c {
        RecordClass::IN => 1,
        RecordClass::CS => 2,
        RecordClass::CH => 3,
        RecordClass::HS => 4,
        RecordClass::ANY => 255,
    }
}

/// The class that a code names, if it names one.
pub open spec fn class_of_code(code: u16) -> Option<RecordClass> {
    if code == 1 {
        Some(RecordClass::IN)
    } else if code == 2 {
        Some(RecordClass::CS)
    } else if code == 3 {
        Some(RecordClass::CH)
    } else if code == 4 {
        Some(RecordClass::HS)
    } else if code == 255 {
        Some(RecordClass::ANY)
    } else {
        None
    }
}

impl RecordClass {
    /// The code of the class on the wire.
    pub fn code(&self) -> (r: u16)
        ensures
            r == class_code(*self),
    {
        match self {
            RecordClass::IN => 1,
            RecordClass::CS => 2,
            RecordClass::CH => 3,
            RecordClass::HS => 4,
            RecordClass::ANY => 255,
        }
    }
}

impl TryFrom<u16> for RecordClass {
    type Error = ();

    fn try_from(value: u16) -> (r: Result<Self, ()>) {
        match value {
            1 => Ok(RecordClass::IN),
            2 => Ok(RecordClass::CS),
            3 => Ok(RecordClass::CH),
            4 => Ok(RecordClass::HS),
            255 => Ok(RecordClass::ANY),
            _ => Err(()),
        }
    }
}

impl TryFromSpecImpl<u16> for RecordClass {
    open spec fn obeys_try_from_spec() -> bool {
        true
    }

    open spec fn try_from_spec(value: u16) -> Result<Self, ()> {
        match class_of_code(value) {
            Some(c) => Ok(c),
            None => Err(()),
        }
    }
}

impl From<RecordClass> for u16 {
    fn from(value: RecordClass) -> (r: u16) {
        value.code()
    }
}

impl FromSpecImpl<RecordClass> for u16 {
    open spec fn obeys_from_spec() -> bool {
        true
    }

    open spec fn from_spec(value: RecordClass) -> u16 {
        class_code(value)
    }
}

/// A class that may stand in a resource record.
#[derive(Debug, Clone, Copy, PartialEq, Eq, Structural)]
pub struct Class(pub RecordClass);

/// The class as the class of a resource record: the wildcard is refused,
/// with its code.
pub open spec fn record_class_of(c: RecordClass) -> Result<Class, DnsError> {
    if c == RecordClass::ANY {
        Err(DnsError::InvalidClass(class_code(c)))
    } else {
        Ok(Class(c))
    }
}

/// The class that a code names in a resource record: a code that names
/// no class, and that of the wildcard, are refused.
pub open spec fn record_class_of_code(code: u16) -> Result<Class, DnsError> {
    match class_of_code(code) {
        Some(c) => record_class_of(c),
        None => Err(DnsError::InvalidClass(code)),
    }
}

impl TryFrom<RecordClass> for Class {
    type Error = DnsError;

    fn try_from(value: RecordClass) -> (r: Result<Self, DnsError>) {
        match value {
            RecordClass::ANY => Err(DnsError::InvalidClass(value.code())),
            _ => Ok(Class(value)),
        }
    }
}

impl TryFromSpecImpl<RecordClass> for Class {
    open spec fn obeys_try_from_spec() -> bool {
        true
    }

    open spec fn try_from_spec(value: RecordClass) -> Result<Self, DnsError> {
        record_class_of(value)
    }
}

impl TryFrom<u16> for Class {
    type Error = DnsError;

    fn try_from(value: u16) -> (r: Result<Self, DnsError>) {
        match RecordClass::try_from(value) {
            Ok(c) => Class::try_from(c),
            Err(_) => Err(DnsError::InvalidClass(value)),
        }
    }
}

impl TryFromSpecImpl<u16> for Class {
    open spec fn obeys_try_from_spec() -> bool {
        true
    }

    open spec fn try_from_spec(value: u16) -> Result<Self, DnsError> {
        record_class_of_code(value)
    }
}

impl From<Class> for u16 {
    fn from(value: Class) -> (r: u16) {
        value.0.code()
    }
}

impl FromSpecImpl<Class> for u16 {
    open spec fn obeys_from_spec() -> bool {
        true
    }

    open spec fn from_spec(value: Class) -> u16 {
        class_code(value.0)
    }
}

/// A class that may stand in a question.
#[derive(Debug, Clone, Copy, PartialEq, Eq, Structural)]
pub struct QClass(pub RecordClass);

/// The class that a code names in a question: a code that names no class
/// is refused.
pub open spec fn question_class_of(code: u16) -> Result<QClass, DnsError> {
    match class_of_code(code) {
        Some(c) => Ok(QClass(c)),
        None => Err(DnsError::InvalidQClass(code)),
    }
}

impl From<RecordClass> for QClass {
    fn from(value: RecordClass) -> (r: QClass) {
        QClass(value)
    }
}

impl FromSpecImpl<RecordClass> for QClass {
    open spec fn obeys_from_spec() -> bool {
        true
    }

    open spec fn from_spec(value: RecordClass) -> QClass {
        QClass(value)
    }
}

impl TryFrom<u16> for QClass {
    type Error = DnsError;

    fn try_from(value: u16) -> (r: Result<Self, DnsError>) {
        match RecordClass::try_from(value) {
            Ok(c) => Ok(QClass(c)),
            Err(_) => Err(DnsError::InvalidQClass(value)),
        }
    }
}

impl TryFromSpecImpl<u16> for QClass {
    open spec fn obeys_try_from_spec() -> bool {
        true
    }

    open spec fn try_from_spec(value: u16) -> Result<Self, DnsError> {
        question_class_of(value)
    }
}

impl From<QClass> for u16 {
    fn from(value: QClass) -> (r: u16) {
        value.0.code()
    }
}

impl FromSpecImpl<QClass> for u16 {
    open spec fn obeys_from_spec() -> bool {
        true
    }

    open spec fn from_spec(value: QClass) -> u16 {
        class_code(value.0)
    }
}

} // verus!
