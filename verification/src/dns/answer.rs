//! Resource records as a response carries them.

use vstd::prelude::*;
use crate::dns::name::Name;
use crate::dns::name_lemmas::lemma_decode_advances;
use crate::dns::name_model::{decode_name, name_wire, render, LabelModel};
use crate::dns::rdata::{
    lemma_payload_fills_length, payload_consumed, payload_wire, rdata_code, rdata_of, RecordData,
    RecordDataModel,
};
use crate::text::{decimal, decimal_text};
use crate::utility::{
    append_bytes, be16, be16_bytes, be32, be32_bytes, copy_bytes, push_u16, push_u32, read_u16,
};
use crate::wire::class::{class_of_code, RecordClass};
use crate::wire::error::DnsError;
use crate::wire::name::NameError;
use crate::wire::rtype::{question_only, type_code, type_from_code, RecordType};

verus! {

/// One resource record: the owner name, the type and class, the time to
/// live, and the payload, both as its bytes and decoded.
pub struct Answer {
    pub name: Name,
    pub r_type: RecordType,
    pub class: [u8; 2],
    pub ttl: [u8; 4],
    pub length: [u8; 2],
    pub a_data: Vec<u8>,
    /// The payload in the shape of its type. A record that was put
    /// together from its parts keeps the payload's bytes here as well.
    pub record: RecordData,
}

/// What a resource record stands for.
pub struct AnswerModel {
    pub name: Seq<LabelModel>,
    pub r_type: RecordType,
    pub class: u16,
    pub ttl: u32,
    pub length: u16,
    pub a_data: Seq<u8>,
    pub record: RecordDataModel,
}

impl View for Answer {
    type V = AnswerModel;

    open spec fn view(&self) -> AnswerModel {
        AnswerModel {
            name: self.name@,
            r_type: self.r_type,
            class: be16(self.class[0], self.class[1]),
            ttl: be32(self.ttl[0], self.ttl[1], self.ttl[2], self.ttl[3]),
            length: be16(self.length[0], self.length[1]),
            a_data: self.a_data@,
            record: self.record@,
        }
    }
}

impl Clone for Answer {
    fn clone(&self) -> (r: Self)
        ensures
            r@ == self@,
            self.wf() ==> r.wf(),
    {
        Answer {
            name: self.name.clone(),
            r_type: self.r_type,
            class: self.class,
            ttl: self.ttl,
            length: self.length,
            a_data: copy_bytes(&self.a_data),
            record: self.record.clone(),
        }
    }
}

/// The resource record at `pos` of a message, and the position right
/// behind it. The owner name is decoded with its pointers followed; ten
/// bytes give the type, the class, the time to live and the payload's
/// length; the payload has to lie inside the message and to fill that
/// length in the shape of its type. A question-only type is refused, and
/// so is a class that is none of the four record classes.
pub open spec fn answer_at(msg: Seq<u8>, pos: int) -> Result<(AnswerModel, int), DnsError> {
    match decode_name(msg, pos) {
        Err(e) => Err(DnsError::InvalidDomainName(e)),
        Ok((ls, p)) => if p + 10 > msg.len() {
            Err(DnsError::UnexpectedEnd)
        } else {
            let code = be16(msg[p], msg[p + 1]);
            let class = be16(msg[p + 2], msg[p + 3]);
            let ttl = be32(msg[p + 4], msg[p + 5], msg[p + 6], msg[p + 7]);
            let len = be16(msg[p + 8], msg[p + 9]);
            if question_only(type_from_code(code)) {
                Err(DnsError::InvalidType(code))
            } else if class_of_code(class) is None || class_of_code(class) == Some(
                RecordClass::ANY,
            ) {
                Err(DnsError::InvalidClass(class))
            } else if p + 10 + len > msg.len() {
                Err(DnsError::UnexpectedEnd)
            } else {
                match rdata_of(msg, p + 10, len as int, code) {
                    Err(e) => Err(e),
                    Ok(record) => Ok(
                        (
                            AnswerModel {
                                name: ls,
                                r_type: type_from_code(code),
                                class,
                                ttl,
                                length: len,
                                a_data: msg.subrange(p + 10, p + 10 + len),
                                record,
                            },
                            p + 10 + len,
                        ),
                    ),
                }
            }
        },
    }
}

/// The bytes of a resource record on the wire. The type has to be a
/// record type and the one that the payload's shape belongs to, the
/// class one of the four record classes, and the payload has to be
/// writable in at most 65535 bytes.
pub open spec fn record_wire(a: AnswerModel) -> Result<Seq<u8>, DnsError> {
    let code = type_code(a.r_type);
    if question_only(a.r_type) || a.r_type is UNKNOWN || code != rdata_code(a.record) {
        Err(DnsError::InvalidType(code))
    } else if class_of_code(a.class) is None || class_of_code(a.class) == Some(RecordClass::ANY) {
        Err(DnsError::InvalidClass(a.class))
    } else {
        match payload_wire(a.record) {
            Err(e) => Err(e),
            Ok(p) => if p.len() > 65535 {
                Err(DnsError::RdataLengthMismatch)
            } else {
                Ok(
                    name_wire(a.name) + be16_bytes(code) + be16_bytes(a.class) + be32_bytes(a.ttl)
                        + be16_bytes(p.len() as u16) + p,
                )
            },
        }
    }
}

impl Answer {
    /// The names of the record are well formed and hold literals only.
    pub open spec fn wf(&self) -> bool {
        &&& self.name.wf()
        &&& !self.name.compressed
        &&& self.record.wf()
    }

    /// Puts a record together from its parts. The payload is kept as
    /// its bytes.
    pub fn new(
        name: Name,
        r_type: RecordType,
        class: [u8; 2],
        ttl: [u8; 4],
        length: [u8; 2],
        a_data: Vec<u8>,
    ) -> (r: Self)
        ensures
            r.name == name,
            r.r_type == r_type,
            r.class == class,
            r.ttl == ttl,
            r.length == length,
            r.a_data == a_data,
            r.record@ == RecordDataModel::Unknown(type_code(r_type), a_data@),
    {
        let record = RecordData::Unknown(r_type.code(), copy_bytes(&a_data));
        Self { name, r_type, class, ttl, length, a_data, record }
    }

    /// The time to live, in seconds.
    pub fn ttl_as_u32(&self) -> (r: u32)
        ensures
            r == self@.ttl,
    {
        self.ttl[0] as u32 * 16777216 + self.ttl[1] as u32 * 65536 + self.ttl[2] as u32 * 256
            + self.ttl[3] as u32
    }

    /// The code of the record's class.
    pub fn class_as_u16(&self) -> (r: u16)
        ensures
            r == self@.class,
    {
        self.class[0] as u16 * 256 + self.class[1] as u16
    }

    /// The length that the record announces for its payload.
    pub fn length_as_u16(&self) -> (r: u16)
        ensures
            r == self@.length,
    {
        self.length[0] as u16 * 256 + self.length[1] as u16
    }

    /// The lines that `to_string` writes.
    pub open spec fn text(&self) -> Seq<char> {
        "\tName: "@ + render(self.name@) + "\n\tType: "@ + self.r_type.text() + "\n\tClass: "@
            + decimal_text(self@.class as nat) + "\n\tTTL: "@ + decimal_text(self@.ttl as nat)
            + "\n\tLength: "@ + decimal_text(self@.length as nat)
    }

    /// The record in words, one line each: the owner name, the type,
    /// and class, time to live and payload length in decimal. A name
    /// that still ends in a pointer has no text.
    pub fn to_string(&self) -> (r: Result<String, NameError>)
        ensures
            self.name.compressed ==> r == Err::<String, NameError>(NameError::Compressed),
            !self.name.compressed ==> r is Ok && r->Ok_0@ == self.text(),
    {
        match self.name.get_string() {
            Ok(name) => {
                let mut out = "\tName: ".to_owned();
                out.append(name.as_str());
                out.append("\n\tType: ");
                out.append(self.r_type.to_string().as_str());
                out.append("\n\tClass: ");
                out.append(decimal(self.class_as_u16() as u64).as_str());
                out.append("\n\tTTL: ");
                out.append(decimal(self.ttl_as_u32() as u64).as_str());
                out.append("\n\tLength: ");
                out.append(decimal(self.length_as_u16() as u64).as_str());
                Ok(out)
            },
            Err(e) => Err(e),
        }
    }

    /// The record as it is written on the wire: the owner name in
    /// full, type, class and time to live, the length of the payload as
    /// it is written, and the payload.
    pub fn encode(&self) -> (r: Result<Vec<u8>, DnsError>)
        requires
            self.wf(),
        ensures
            match record_wire(self@) {
                Ok(b) => r is Ok && r->Ok_0@ == b,
                Err(e) => r == Err::<Vec<u8>, DnsError>(e),
            },
    {
        let code: u16 = self.r_type.code();
        match self.r_type {
            RecordType::AXFR | RecordType::MAILB | RecordType::MAILA | RecordType::ANY => {
                return Err(DnsError::InvalidType(code));
            },
            RecordType::UNKNOWN(_) => {
                return Err(DnsError::InvalidType(code));
            },
            _ => {},
        }
        if code != self.record.code() {
            return Err(DnsError::InvalidType(code));
        }
        let class: u16 = self.class_as_u16();
        if !(class == 1 || class == 2 || class == 3 || class == 4) {
            return Err(DnsError::InvalidClass(class));
        }
        let payload = match self.record.encode() {
            Ok(p) => p,
            Err(e) => {
                return Err(e);
            },
        };
        if payload.len() > 65535 {
            return Err(DnsError::RdataLengthMismatch);
        }
        let mut out: Vec<u8> = self.name.get_bytes();
        push_u16(&mut out, code);
        push_u16(&mut out, class);
        push_u32(&mut out, self.ttl_as_u32());
        push_u16(&mut out, payload.len() as u16);
        append_bytes(&mut out, &payload);
        Ok(out)
    }

    /// Decodes the resource record at `pos` of a message, and tells
    /// where it ends.
    pub fn decode(message: &[u8], pos: usize) -> (r: Result<(Self, usize), DnsError>)
        ensures
            match answer_at(message@, pos as int) {
                Ok((a, next)) => r is Ok && r->Ok_0.0@ == a && r->Ok_0.0.wf() && r->Ok_0.1 == next
                    && pos < next <= message@.len(),
                Err(e) => r == Err::<(Answer, usize), DnsError>(e),
            },
    {
        let n: usize = message.len();
        match Name::decode(message, pos) {
            Err(e) => Err(DnsError::InvalidDomainName(e)),
            Ok((name, p)) => {
                proof {
                    crate::dns::name_lemmas::lemma_decode_advances(message@, pos as int);
                }
                if n - p < 10 {
                    return Err(DnsError::UnexpectedEnd);
                }
                let code: u16 = read_u16(message, p);
                let class: [u8; 2] = [message[p + 2], message[p + 3]];
                let ttl: [u8; 4] = [message[p + 4], message[p + 5], message[p + 6], message[p + 7]];
                let length: [u8; 2] = [message[p + 8], message[p + 9]];
                let class_code: u16 = read_u16(message, p + 2);
                let len: usize = read_u16(message, p + 8) as usize;
                let r_type = RecordType::from_code(code);
                match r_type {
                    RecordType::AXFR | RecordType::MAILB | RecordType::MAILA | RecordType::ANY => {
                        return Err(DnsError::InvalidType(code));
                    },
                    _ => {},
                }
                match RecordClass::try_from(class_code) {
                    Ok(RecordClass::ANY) => {
                        return Err(DnsError::InvalidClass(class_code));
                    },
                    Ok(_) => {},
                    Err(_) => {
                        return Err(DnsError::InvalidClass(class_code));
                    },
                }
                if n - p - 10 < len {
                    return Err(DnsError::UnexpectedEnd);
                }
                match RecordData::decode(message, p + 10, len, code) {
                    Err(e) => Err(e),
                    Ok(record) => {
                        let a_data = vstd::slice::slice_to_vec(
                            vstd::slice::slice_subrange(message, p + 10, p + 10 + len),
                        );
                        Ok((Answer { name, r_type, class, ttl, length, a_data, record }, p + 10 + len))
                    },
                }
            },
        }
    }
}

/// The payload of every resource record that decodes takes up exactly
/// the length the record announces: counted from the payload's first
/// byte, the shape of the record's type ends where that length ends.
pub proof fn lemma_record_payload_fills_length(msg: Seq<u8>, pos: int)
    requires
        answer_at(msg, pos) is Ok,
    ensures
        ({
            let start = decode_name(msg, pos)->Ok_0.1 + 10;
            let a = answer_at(msg, pos)->Ok_0.0;
            &&& payload_consumed(msg, start, a.length as int, type_code(a.r_type)) == a.length
            &&& a.a_data.len() == a.length
            &&& answer_at(msg, pos)->Ok_0.1 == start + a.length
        }),
{
    lemma_decode_advances(msg, pos);
    let p = decode_name(msg, pos)->Ok_0.1;
    let code = be16(msg[p], msg[p + 1]);
    let len = be16(msg[p + 8], msg[p + 9]);
    lemma_payload_fills_length(msg, p + 10, len as int, code);
}

} // verus!
