//! The question of a message: a name, and the type and class of the
//! records that are asked for.

use vstd::prelude::*;
use crate::dns::name::Name;
use crate::dns::name_lemmas::lemma_decode_advances;
use crate::dns::name_model::{
    decode_name, name_of_text, name_wire, name_wire_len, render, LabelModel,
};
use crate::utility::{be16, be16_bytes, push_u16, read_u16};
use crate::wire::class::class_of_code;
use crate::wire::error::DnsError;
use crate::wire::name::NameError;
use crate::wire::rtype::{type_code, type_of_code, RecordType};

verus! {

/// The class of the records that a question asks for.
#[derive(Debug, Clone, Copy, PartialEq, Eq, Structural)]
pub enum QClass {
    /// The Internet.
    INET,
    /// The CSNET class (obsolete).
    CS,
    /// The CHAOS class.
    CH,
    /// Hesiod.
    HS,
    /// Any class.
    ANY,
    /// A code that names none of the classes above.
    UNKNOWN(u16),
}

/// The code of a question class on the wire.
pub open spec fn qclass_code(c: QClass) -> u16 {
    match c {
        QClass::INET => 1,
        QClass::CS => 2,
        QClass::CH => 3,
        QClass::HS => 4,
        QClass::ANY => 255,
        QClass::UNKNOWN(code) => code,
    }
}

/// The question class that a code stands for: the one it names, or the
/// code itself kept as an unknown class.
pub open spec fn qclass_of(code: u16) -> QClass {
    if code == 1 {
        QClass::INET
    } else if code == 2 {
        QClass::CS
    } else if code == 3 {
        QClass::CH
    } else if code == 4 {
        QClass::HS
    } else if code == 255 {
        QClass::ANY
    } else {
        QClass::UNKNOWN(code)
    }
}

impl QClass {
    pub open spec fn text(&self) -> Seq<char> {
        match self {
            QClass::INET => "INET"@,
            QClass::CS => "CS"@,
            QClass::CH => "CH"@,
            QClass::HS => "HS"@,
            QClass::ANY => "ANY"@,
            QClass::UNKNOWN(_) => "UNKNOWN"@,
        }
    }

    /// The code of the class on the wire.
    pub fn code(&self) -> (r: u16)
        ensures
            r == qclass_code(*self),
    {
        match self {
            QClass::INET => 1,
            QClass::CS => 2,
            QClass::CH => 3,
            QClass::HS => 4,
            QClass::ANY => 255,
            QClass::UNKNOWN(code) => *code,
        }
    }

    /// The class that a code stands for. A code that names no class is
    /// kept as an unknown one.
    pub fn from_code(code: u16) -> (r: Self)
        ensures
            r == qclass_of(code),
            qclass_code(r) == code,
    {
        match code {
            1 => QClass::INET,
            2 => QClass::CS,
            3 => QClass::CH,
            4 => QClass::HS,
            255 => QClass::ANY,
            _ => QClass::UNKNOWN(code),
        }
    }

    /// The two octets of the class's code, big-endian.
    pub fn get_bytes(class: QClass) -> (r: [u8; 2])
        ensures
            r@ == be16_bytes(qclass_code(class)),
    {
        let code: u16 = class.code();
        let r: [u8; 2] = [(code / 256) as u8, (code % 256) as u8];
        assert(r@ =~= be16_bytes(qclass_code(class)));
        r
    }

    /// The class that the big-endian code in the two octets of `data`
    /// stands for. A code that names no class is kept as an unknown one.
    pub fn from_bytes(data: Vec<u8>) -> (r: Self)
        requires
            data@.len() == 2,
        ensures
            r == qclass_of(be16(data@[0], data@[1])),
    {
        QClass::from_row([data[0], data[1]])
    }

    /// The class that the big-endian code in two octets stands for. A
    /// code that names no class is kept as an unknown one.
    pub fn from_row(data: [u8; 2]) -> (r: Self)
        ensures
            r == qclass_of(be16(data[0], data[1])),
    {
        QClass::from_code(data[0] as u16 * 256 + data[1] as u16)
    }

    /// The keyword of the class.
    pub fn to_string(&self) -> (r: String)
        ensures
            r@ == self.text(),
    {
        match self {
            QClass::INET => "INET".to_owned(),
            QClass::CS => "CS".to_owned(),
            QClass::CH => "CH".to_owned(),
            QClass::HS => "HS".to_owned(),
            QClass::ANY => "ANY".to_owned(),
            QClass::UNKNOWN(_) => "UNKNOWN".to_owned(),
        }
    }

    /// The two octets of the class's code, big-endian.
    pub fn to_bytes(&self) -> (r: Vec<u8>)
        ensures
            r@ == be16_bytes(qclass_code(*self)),
    {
        let mut out: Vec<u8> = Vec::new();
        push_u16(&mut out, self.code());
        out
    }
}

/// What is asked of a name server.
pub struct Question {
    pub q_name: Name,
    pub q_type: RecordType,
    pub q_class: QClass,
}

/// What a question stands for.
pub struct QuestionModel {
    pub name: Seq<LabelModel>,
    pub q_type: RecordType,
    pub q_class: QClass,
}

impl View for Question {
    type V = QuestionModel;

    open spec fn view(&self) -> QuestionModel {
        QuestionModel { name: self.q_name@, q_type: self.q_type, q_class: self.q_class }
    }
}

/// The bytes of a question on the wire: the name, then the codes of the
/// type and the class.
pub open spec fn question_wire(name: Seq<LabelModel>, q_type: RecordType, q_class: QClass) -> Seq<
    u8,
> {
    name_wire(name) + be16_bytes(type_code(q_type)) + be16_bytes(qclass_code(q_class))
}

/// The question that is made from a dotted name and, where they are
/// given, a type and a class: the name has to be one, and the type and
/// the class known ones. Without a type, host addresses are asked for;
/// without a class, those of the Internet.
pub open spec fn question_of(
    name: Seq<char>,
    q_type: Option<RecordType>,
    q_class: Option<QClass>,
) -> Result<(Seq<LabelModel>, RecordType, QClass), DnsError> {
    let t = match q_type {
        Some(t) => t,
        None => RecordType::A,
    };
    let c = match q_class {
        Some(c) => c,
        None => QClass::INET,
    };
    match name_of_text(name) {
        Err(e) => Err(DnsError::InvalidDomainName(e)),
        Ok(ls) => if t is UNKNOWN {
            Err(DnsError::InvalidQType(type_code(t)))
        } else if c is UNKNOWN {
            Err(DnsError::InvalidQClass(qclass_code(c)))
        } else {
            Ok((ls, t, c))
        },
    }
}

/// The question at `pos` of a message, and the position right behind
/// it: the name, decoded with its pointers followed, then the codes of
/// the type and the class, each of which has to name one.
pub open spec fn question_at(msg: Seq<u8>, pos: int) -> Result<(QuestionModel, int), DnsError> {
    match decode_name(msg, pos) {
        Err(e) => Err(DnsError::InvalidDomainName(e)),
        Ok((ls, p)) => if p + 4 > msg.len() {
            Err(DnsError::UnexpectedEnd)
        } else {
            let t = be16(msg[p], msg[p + 1]);
            let c = be16(msg[p + 2], msg[p + 3]);
            if type_of_code(t) is None {
                Err(DnsError::InvalidQType(t))
            } else if class_of_code(c) is None {
                Err(DnsError::InvalidQClass(c))
            } else {
                Ok(
                    (
                        QuestionModel {
                            name: ls,
                            q_type: type_of_code(t)->Some_0,
                            q_class: qclass_of(c),
                        },
                        p + 4,
                    ),
                )
            }
        },
    }
}

impl Question {
    /// Decodes the question at `pos` of a message, and tells where it
    /// ends.
    pub fn decode(message: &[u8], pos: usize) -> (r: Result<(Self, usize), DnsError>)
        ensures
            match question_at(message@, pos as int) {
                Ok((q, next)) => r is Ok && r->Ok_0.0@ == q && !r->Ok_0.0.q_name.compressed
                    && r->Ok_0.0.wf() && r->Ok_0.1 == next && pos < next <= message@.len(),
                Err(e) => r == Err::<(Question, usize), DnsError>(e),
            },
    {
        let n: usize = message.len();
        match Name::decode(message, pos) {
            Err(e) => Err(DnsError::InvalidDomainName(e)),
            Ok((q_name, p)) => {
                proof {
                    lemma_decode_advances(message@, pos as int);
                }
                if n - p < 4 {
                    return Err(DnsError::UnexpectedEnd);
                }
                let t: u16 = read_u16(message, p);
                let c: u16 = read_u16(message, p + 2);
                let q_type = RecordType::from_code(t);
                match q_type {
                    RecordType::UNKNOWN(_) => {
                        return Err(DnsError::InvalidQType(t));
                    },
                    _ => {},
                }
                if !(c == 1 || c == 2 || c == 3 || c == 4 || c == 255) {
                    return Err(DnsError::InvalidQClass(c));
                }
                Ok((Question { q_name, q_type, q_class: QClass::from_code(c) }, p + 4))
            },
        }
    }

    /// The name is well formed, and the type and the class are known
    /// ones.
    pub open spec fn wf(&self) -> bool {
        &&& self.q_name.wf()
        &&& !(self.q_type is UNKNOWN)
        &&& !(self.q_class is UNKNOWN)
    }

    pub fn init(q_name: Name, q_type: RecordType, q_class: QClass) -> (r: Self)
        ensures
            r.q_name == q_name,
            r.q_type == q_type,
            r.q_class == q_class,
    {
        Self { q_name, q_type, q_class }
    }

    /// The question for a dotted name. Without a type, host addresses
    /// are asked for; without a class, those of the Internet.
    pub fn new(name: String, q_type: Option<RecordType>, q_class: Option<QClass>) -> (r: Result<
        Self,
        DnsError,
    >)
        ensures
            match question_of(name@, q_type, q_class) {
                Ok((ls, t, c)) => r is Ok && r->Ok_0.q_name@ == ls && !r->Ok_0.q_name.compressed
                    && r->Ok_0.q_type == t && r->Ok_0.q_class == c && r->Ok_0.wf(),
                Err(e) => r == Err::<Question, DnsError>(e),
            },
    {
        let t = match q_type {
            Some(t) => t,
            None => RecordType::A,
        };
        let c = match q_class {
            Some(c) => c,
            None => QClass::INET,
        };
        match Name::from_string(name) {
            Err(e) => Err(DnsError::InvalidDomainName(e)),
            Ok(q_name) => {
                match t {
                    RecordType::UNKNOWN(code) => Err(DnsError::InvalidQType(code)),
                    _ => match c {
                        QClass::UNKNOWN(code) => Err(DnsError::InvalidQClass(code)),
                        _ => Ok(Question { q_name, q_type: t, q_class: c }),
                    },
                }
            },
        }
    }

    /// The question as it is written on the wire.
    pub fn to_bytes(&self) -> (r: Vec<u8>)
        requires
            self.wf(),
        ensures
            r@ == question_wire(self.q_name@, self.q_type, self.q_class),
    {
        let mut res: Vec<u8> = self.q_name.get_bytes();
        push_u16(&mut res, self.q_type.code());
        push_u16(&mut res, self.q_class.code());
        res
    }

    /// The number of bytes the question takes on the wire.
    pub fn length(&self) -> (r: usize)
        requires
            self.wf(),
        ensures
            r == name_wire_len(self.q_name@) + 4,
    {
        self.q_name.get_bytes_length() + 4
    }

    /// The lines that `to_string` writes.
    pub open spec fn text(&self) -> Seq<char> {
        "URI: "@ + render(self.q_name@) + "\nQType: "@ + self.q_type.text()
            + "\nQClass: "@ + self.q_class.text()
    }

    /// The question in words, one line each for the name, the type and
    /// the class. A name that still ends in a pointer has no text.
    pub fn to_string(&self) -> (r: Result<String, NameError>)
        ensures
            self.q_name.compressed ==> r == Err::<String, NameError>(NameError::Compressed),
            !self.q_name.compressed ==> r is Ok && r->Ok_0@ == self.text(),
    {
        match self.q_name.get_string() {
            Err(e) => Err(e),
            Ok(name) => {
                let mut out = "URI: ".to_owned();
                out.append(name.as_str());
                out.append("\nQType: ");
                out.append(self.q_type.to_string().as_str());
                out.append("\nQClass: ");
                out.append(self.q_class.to_string().as_str());
                Ok(out)
            },
        }
    }
}

} // verus!
