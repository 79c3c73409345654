//! The registry of record types: the codes of the wire format, the
//! keywords a caller writes, and which types may stand where.

use vstd::prelude::*;
use vstd::std_specs::convert::{FromSpecImpl, TryFromSpecImpl};
use crate::utility::{be16, be16_bytes, push_u16};
use crate::wire::error::DnsError;

verus! {

/// The type of a resource record, or of the records a question asks for.
#[derive(Clone, Copy, Debug, PartialEq, Eq, Structural)]
pub enum RecordType {
    /// A host address.
    A,
    /// An authoritative name server.
    NS,
    /// A mail destination (obsolete).
    MD,
    /// A mail forwarder (obsolete).
    MF,
    /// The canonical name for an alias.
    CNAME,
    /// The start of a zone of authority.
    SOA,
    /// A mailbox domain name.
    MB,
    /// A mail group member.
    MG,
    /// A mail rename domain name.
    MR,
    /// A null record.
    NULL,
    /// A well known service description.
    WKS,
    /// A domain name pointer.
    PTR,
    /// Host information.
    HINFO,
    /// Mailbox or mail list information.
    MINFO,
    /// Mail exchange.
    MX,
    /// Text strings.
    TXT,
    /// An IPv6 host address.
    AAAA,
    /// A request for a transfer of an entire zone.
    AXFR,
    /// A request for mailbox-related records.
    MAILB,
    /// A request for mail agent records.
    MAILA,
    /// A request for all records.
    ANY,
    /// A code that names none of the types above.
    UNKNOWN(u16),
}

/// The code of a type on the wire.
pub open spec fn type_code(t: RecordType) -> u16 {
    match t {
        RecordType::A => 1,
        RecordType::NS => 2,
        RecordType::MD => 3,
        RecordType::MF => 4,
        RecordType::CNAME => 5,
        RecordType::SOA => 6,
        RecordType::MB => 7,
        RecordType::MG => 8,
        RecordType::MR => 9,
        RecordType::NULL => 10,
        RecordType::WKS => 11,
        RecordType::PTR => 12,
        RecordType::HINFO => 13,
        RecordType::MINFO => 14,
        RecordType::MX => 15,
        RecordType::TXT => 16,
        RecordType::AAAA => 28,
        RecordType::AXFR => 252,
        RecordType::MAILB => 253,
        RecordType::MAILA => 254,
        RecordType::ANY => 255,
        RecordType::UNKNOWN(code) => code,
    }
}

/// The type that a code names, if it names one.
pub open spec fn type_of_code(code: u16) -> Option<RecordType> {
    if code == 1 {
        Some(RecordType::A)
    } else if code == 2 {
        Some(RecordType::NS)
    } else if code == 3 {
        Some(RecordType::MD)
    } else if code == 4 {
        Some(RecordType::MF)
    } else if code == 5 {
        Some(RecordType::CNAME)
    } else if code == 6 {
        Some(RecordType::SOA)
    } else if code == 7 {
        Some(RecordType::MB)
    } else if code == 8 {
        Some(RecordType::MG)
    } else if code == 9 {
        Some(RecordType::MR)
    } else if code == 10 {
        Some(RecordType::NULL)
    } else if code == 11 {
        Some(RecordType::WKS)
    } else if code == 12 {
        Some(RecordType::PTR)
    } else if code == 13 {
        Some(RecordType::HINFO)
    } else if code == 14 {
        Some(RecordType::MINFO)
    } else if code == 15 {
        Some(RecordType::MX)
    } else if code == 16 {
        Some(RecordType::TXT)
    } else if code == 28 {
        Some(RecordType::AAAA)
    } else if code == 252 {
        Some(RecordType::AXFR)
    } else if code == 253 {
        Some(RecordType::MAILB)
    } else if code == 254 {
        Some(RecordType::MAILA)
    } else if code == 255 {
        Some(RecordType::ANY)
    } else {
        None
    }
}

/// The type that a code stands for: the one it names, or the code itself
/// kept as an unknown type.
pub open spec fn type_from_code(code: u16) -> RecordType {
    match type_of_code(code) {
        Some(t) => t,
        None => RecordType::UNKNOWN(code),
    }
}

/// Whether a type may stand in a question only: a transfer or a
/// wildcard.
pub open spec fn question_only(t: RecordType) -> bool {
    t == RecordType::AXFR || t == RecordType::MAILB || t == RecordType::MAILA || t
        == RecordType::ANY
}

/// The type that a keyword names. A text that is no keyword stands for
/// `A`, the type asked for where none is given.
pub open spec fn type_of_keyword(text: Seq<char>) -> RecordType {
    if text == "A"@ {
        RecordType::A
    } else if text == "NS"@ {
        RecordType::NS
    } else if text == "MD"@ {
        RecordType::MD
    } else if text == "MF"@ {
        RecordType::MF
    } else if text == "CNAME"@ {
        RecordType::CNAME
    } else if text == "SOA"@ {
        RecordType::SOA
    } else if text == "MB"@ {
        RecordType::MB
    } else if text == "MG"@ {
        RecordType::MG
    } else if text == "MR"@ {
        RecordType::MR
    } else if text == "NULL"@ {
        RecordType::NULL
    } else if text == "WKS"@ {
        RecordType::WKS
    } else if text == "PTR"@ {
        RecordType::PTR
    } else if text == "HINFO"@ {
        RecordType::HINFO
    } else if text == "MINFO"@ {
        RecordType::MINFO
    } else if text == "MX"@ {
        RecordType::MX
    } else if text == "TXT"@ {
        RecordType::TXT
    } else if text == "AAAA"@ {
        RecordType::AAAA
    } else if text == "AXFR"@ {
        RecordType::AXFR
    } else if text == "MAILB"@ {
        RecordType::MAILB
    } else if text == "MAILA"@ {
        RecordType::MAILA
    } else if text == "ANY"@ {
        RecordType::ANY
    } else {
        RecordType::A
    }
}

/// Whether a string holds the text of a literal.
pub fn text_is(s: &String, lit: &str) -> (r: bool)
    ensures
        r == (s@ == lit@),
{
    let other = lit.to_owned();
    *s == other
}

impl RecordType {
    /// The keyword of the type.
    pub open spec fn text(&self) -> Seq<char> {
        match self {
            RecordType::A => "A"@,
            RecordType::NS => "NS"@,
            RecordType::MD => "MD"@,
            RecordType::MF => "MF"@,
            RecordType::CNAME => "CNAME"@,
            RecordType::SOA => "SOA"@,
            RecordType::MB => "MB"@,
            RecordType::MG => "MG"@,
            RecordType::MR => "MR"@,
            RecordType::NULL => "NULL"@,
            RecordType::WKS => "WKS"@,
            RecordType::PTR => "PTR"@,
            RecordType::HINFO => "HINFO"@,
            RecordType::MINFO => "MINFO"@,
            RecordType::MX => "MX"@,
            RecordType::TXT => "TXT"@,
            RecordType::AAAA => "AAAA"@,
            RecordType::AXFR => "AXFR"@,
            RecordType::MAILB => "MAILB"@,
            RecordType::MAILA => "MAILA"@,
            RecordType::ANY => "ANY"@,
            RecordType::UNKNOWN(_) => "UNKNOWN"@,
        }
    }

    /// The code of the type on the wire.
    pub fn code(&self) -> (r: u16)
        ensures
            r == type_code(*self),
    {
        match self {
            RecordType::A => 1,
            RecordType::NS => 2,
            RecordType::MD => 3,
            RecordType::MF => 4,
            RecordType::CNAME => 5,
            RecordType::SOA => 6,
            RecordType::MB => 7,
            RecordType::MG => 8,
            RecordType::MR => 9,
            RecordType::NULL => 10,
            RecordType::WKS => 11,
            RecordType::PTR => 12,
            RecordType::HINFO => 13,
            RecordType::MINFO => 14,
            RecordType::MX => 15,
            RecordType::TXT => 16,
            RecordType::AAAA => 28,
            RecordType::AXFR => 252,
            RecordType::MAILB => 253,
            RecordType::MAILA => 254,
            RecordType::ANY => 255,
            RecordType::UNKNOWN(code) => *code,
        }
    }

    /// The type that a code stands for. A code that names no type is
    /// kept as an unknown one.
    pub fn from_code(code: u16) -> (r: Self)
        ensures
            r == type_from_code(code),
            type_code(r) == code,
    {
        match code {
            1 => RecordType::A,
            2 => RecordType::NS,
            3 => RecordType::MD,
            4 => RecordType::MF,
            5 => RecordType::CNAME,
            6 => RecordType::SOA,
            7 => RecordType::MB,
            8 => RecordType::MG,
            9 => RecordType::MR,
            10 => RecordType::NULL,
            11 => RecordType::WKS,
            12 => RecordType::PTR,
            13 => RecordType::HINFO,
            14 => RecordType::MINFO,
            15 => RecordType::MX,
            16 => RecordType::TXT,
            28 => RecordType::AAAA,
            252 => RecordType::AXFR,
            253 => RecordType::MAILB,
            254 => RecordType::MAILA,
            255 => RecordType::ANY,
            _ => RecordType::UNKNOWN(code),
        }
    }

    /// The two octets of the type's code, big-endian.
    pub fn as_bytes(r_type: RecordType) -> (r: [u8; 2])
        ensures
            r@ == be16_bytes(type_code(r_type)),
    {
        let code: u16 = r_type.code();
        let r: [u8; 2] = [(code / 256) as u8, (code % 256) as u8];
        assert(r@ =~= be16_bytes(code));
        r
    }

    /// The two octets of the type's code, big-endian.
    pub fn to_bytes(&self) -> (r: Vec<u8>)
        ensures
            r@ == be16_bytes(type_code(*self)),
    {
        let mut out: Vec<u8> = Vec::new();
        push_u16(&mut out, self.code());
        out
    }

    /// The type that the big-endian code in two octets stands for. A
    /// code that names no type is kept as an unknown one.
    pub fn from_bytes(data: [u8; 2]) -> (r: Self)
        ensures
            r == type_from_code(be16(data[0], data[1])),
            type_code(r) == be16(data[0], data[1]),
    {
        RecordType::from_code(data[0] as u16 * 256 + data[1] as u16)
    }

    /// The type that a keyword names; `A` where it names none.
    pub fn from_string(r_type: String) -> (r: Self)
        ensures
            r == type_of_keyword(r_type@),
    {
        if text_is(&r_type, "A") {
            RecordType::A
        } else if text_is(&r_type, "NS") {
            RecordType::NS
        } else if text_is(&r_type, "MD") {
            RecordType::MD
        } else if text_is(&r_type, "MF") {
            RecordType::MF
        } else if text_is(&r_type, "CNAME") {
            RecordType::CNAME
        } else if text_is(&r_type, "SOA") {
            RecordType::SOA
        } else if text_is(&r_type, "MB") {
            RecordType::MB
        } else if text_is(&r_type, "MG") {
            RecordType::MG
        } else if text_is(&r_type, "MR") {
            RecordType::MR
        } else if text_is(&r_type, "NULL") {
            RecordType::NULL
        } else if text_is(&r_type, "WKS") {
            RecordType::WKS
        } else if text_is(&r_type, "PTR") {
            RecordType::PTR
        } else if text_is(&r_type, "HINFO") {
            RecordType::HINFO
        } else if text_is(&r_type, "MINFO") {
            RecordType::MINFO
        } else if text_is(&r_type, "MX") {
            RecordType::MX
        } else if text_is(&r_type, "TXT") {
            RecordType::TXT
        } else if text_is(&r_type, "AAAA") {
            RecordType::AAAA
        } else if text_is(&r_type, "AXFR") {
            RecordType::AXFR
        } else if text_is(&r_type, "MAILB") {
            RecordType::MAILB
        } else if text_is(&r_type, "MAILA") {
            RecordType::MAILA
        } else if text_is(&r_type, "ANY") {
            RecordType::ANY
        } else {
            RecordType::A
        }
    }

    /// The keyword of the type.
    pub fn to_string(&self) -> (r: String)
        ensures
            r@ == self.text(),
    {
        match self {
            RecordType::A => "A".to_owned(),
            RecordType::NS => "NS".to_owned(),
            RecordType::MD => "MD".to_owned(),
            RecordType::MF => "MF".to_owned(),
            RecordType::CNAME => "CNAME".to_owned(),
            RecordType::SOA => "SOA".to_owned(),
            RecordType::MB => "MB".to_owned(),
            RecordType::MG => "MG".to_owned(),
            RecordType::MR => "MR".to_owned(),
            RecordType::NULL => "NULL".to_owned(),
            RecordType::WKS => "WKS".to_owned(),
            RecordType::PTR => "PTR".to_owned(),
            RecordType::HINFO => "HINFO".to_owned(),
            RecordType::MINFO => "MINFO".to_owned(),
            RecordType::MX => "MX".to_owned(),
            RecordType::TXT => "TXT".to_owned(),
            RecordType::AAAA => "AAAA".to_owned(),
            RecordType::AXFR => "AXFR".to_owned(),
            RecordType::MAILB => "MAILB".to_owned(),
            RecordType::MAILA => "MAILA".to_owned(),
            RecordType::ANY => "ANY".to_owned(),
            RecordType::UNKNOWN(_) => "UNKNOWN".to_owned(),
        }
    }
}

impl TryFrom<u16> for RecordType {
    type Error = ();

    fn try_from(value: u16) -> (r: Result<Self, ()>) {
        match value {
            1 => Ok(RecordType::A),
            2 => Ok(RecordType::NS),
            3 => Ok(RecordType::MD),
            4 => Ok(RecordType::MF),
            5 => Ok(RecordType::CNAME),
            6 => Ok(RecordType::SOA),
            7 => Ok(RecordType::MB),
            8 => Ok(RecordType::MG),
            9 => Ok(RecordType::MR),
            10 => Ok(RecordType::NULL),
            11 => Ok(RecordType::WKS),
            12 => Ok(RecordType::PTR),
            13 => Ok(RecordType::HINFO),
            14 => Ok(RecordType::MINFO),
            15 => Ok(RecordType::MX),
            16 => Ok(RecordType::TXT),
            28 => Ok(RecordType::AAAA),
            252 => Ok(RecordType::AXFR),
            253 => Ok(RecordType::MAILB),
            254 => Ok(RecordType::MAILA),
            255 => Ok(RecordType::ANY),
            _ => Err(()),
        }
    }
}

impl TryFromSpecImpl<u16> for RecordType {
    open spec fn obeys_try_from_spec() -> bool {
        true
    }

    open spec fn try_from_spec(value: u16) -> Result<Self, ()> {
        match type_of_code(value) {
            Some(t) => Ok(t),
            None => Err(()),
        }
    }
}

impl From<RecordType> for u16 {
    fn from(value: RecordType) -> (r: u16) {
        value.code()
    }
}

impl FromSpecImpl<RecordType> for u16 {
    open spec fn obeys_from_spec() -> bool {
        true
    }

    open spec fn from_spec(value: RecordType) -> u16 {
        type_code(value)
    }
}

/// A record type that may stand in a resource record.
#[derive(Clone, Copy, Debug, PartialEq, Eq, Structural)]
pub struct Type(pub RecordType);

/// The record type as the type of a resource record: a question-only
/// type and an unknown one are refused, with their code.
pub open spec fn record_type_of(t: RecordType) -> Result<Type, DnsError> {
    if question_only(t) || t is UNKNOWN {
        Err(DnsError::InvalidType(type_code(t)))
    } else {
        Ok(Type(t))
    }
}

impl TryFrom<RecordType> for Type {
    type Error = DnsError;

    fn try_from(value: RecordType) -> (r: Result<Self, DnsError>) {
        match value {
            RecordType::AXFR | RecordType::MAILB | RecordType::MAILA | RecordType::ANY => Err(
                DnsError::InvalidType(value.code()),
            ),
            RecordType::UNKNOWN(code) => Err(DnsError::InvalidType(code)),
            _ => Ok(Type(value)),
        }
    }
}

impl TryFromSpecImpl<RecordType> for Type {
    open spec fn obeys_try_from_spec() -> bool {
        true
    }

    open spec fn try_from_spec(value: RecordType) -> Result<Self, DnsError> {
        record_type_of(value)
    }
}

impl TryFrom<u16> for Type {
    type Error = DnsError;

    fn try_from(value: u16) -> (r: Result<Self, DnsError>) {
        Type::try_from(RecordType::from_code(value))
    }
}

impl TryFromSpecImpl<u16> for Type {
    open spec fn obeys_try_from_spec() -> bool {
        true
    }

    open spec fn try_from_spec(value: u16) -> Result<Self, DnsError> {
        record_type_of(type_from_code(value))
    }
}

impl From<Type> for u16 {
    fn from(value: Type) -> (r: u16) {
        value.0.code()
    }
}

impl FromSpecImpl<Type> for u16 {
    open spec fn obeys_from_spec() -> bool {
        true
    }

    open spec fn from_spec(value: Type) -> u16 {
        type_code(value.0)
    }
}

/// A record type that may stand in a question.
#[derive(Clone, Copy, Debug, PartialEq, Eq, Structural)]
pub struct QType(pub RecordType);

/// The type that a code names in a question: a code that names no type
/// is refused.
pub open spec fn question_type_of(code: u16) -> Result<QType, DnsError> {
    match type_of_code(code) {
        Some(t) => Ok(QType(t)),
        None => Err(DnsError::InvalidQType(code)),
    }
}

impl From<RecordType> for QType {
    fn from(value: RecordType) -> (r: QType) {
        QType(value)
    }
}

impl FromSpecImpl<RecordType> for QType {
    open spec fn obeys_from_spec() -> bool {
        true
    }

    open spec fn from_spec(value: RecordType) -> QType {
        QType(value)
    }
}

impl TryFrom<u16> for QType {
    type Error = DnsError;

    fn try_from(value: u16) -> (r: Result<Self, DnsError>) {
        match RecordType::from_code(value) {
            RecordType::UNKNOWN(_) => Err(DnsError::InvalidQType(value)),
            t => Ok(QType(t)),
        }
    }
}

impl TryFromSpecImpl<u16> for QType {
    open spec fn obeys_try_from_spec() -> bool {
        true
    }

    open spec fn try_from_spec(value: u16) -> Result<Self, DnsError> {
        question_type_of(value)
    }
}

impl From<QType> for u16 {
    fn from(value: QType) -> (r: u16) {
        value.0.code()
    }
}

impl FromSpecImpl<QType> for u16 {
    open spec fn obeys_from_spec() -> bool {
        true
    }

    open spec fn from_spec(value: QType) -> u16 {
        type_code(value.0)
    }
}

} // verus!
