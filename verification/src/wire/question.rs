//! The question of a query, over a checked dotted name.

use vstd::prelude::*;
use crate::dns::name_model::{name_of_text, name_wire};
use crate::utility::{append_bytes, be16_bytes};
use crate::wire::class::{class_code, QClass, RecordClass};
use crate::wire::error::DnsError;
use crate::wire::header::be_write_u16;
use crate::wire::name::{labels_bytes, lemma_bytes_push, Label, Name};
use crate::wire::rtype::{type_code, QType, RecordType};

verus! {

/// What is asked of a name server: the records of a type and a class
/// that a name has.
pub struct Question<'a> {
    pub name: Name<'a>,
    pub qtype: QType,
    pub qclass: QClass,
}

/// The bytes of a question on the wire: the name, then the codes of the
/// type and the class. A type that is only a code is not sent.
pub open spec fn question_bytes(name: Seq<char>, qtype: QType, qclass: QClass) -> Result<
    Seq<u8>,
    DnsError,
> {
    if qtype.0 is UNKNOWN {
        Err(DnsError::InvalidQType(type_code(qtype.0)))
    } else {
        Ok(
            name_wire(name_of_text(name)->Ok_0) + be16_bytes(type_code(qtype.0)) + be16_bytes(
                class_code(qclass.0),
            ),
        )
    }
}

impl<'a> Question<'a> {
    /// The question for the host addresses of a name in the Internet
    /// class.
    pub fn a_type_record(name: Name<'a>) -> (r: Self)
        ensures
            r.name == name,
            r.qtype == QType(RecordType::A),
            r.qclass == QClass(RecordClass::IN),
    {
        Self { name, qtype: QType::from(RecordType::A), qclass: QClass::from(RecordClass::IN) }
    }

    /// The question as it is written on the wire.
    pub fn try_to_bytes(&self) -> (r: Result<Vec<u8>, DnsError>)
        ensures
            match question_bytes(self.name@, self.qtype, self.qclass) {
                Ok(b) => r is Ok && r->Ok_0@ == b,
                Err(e) => r == Err::<Vec<u8>, DnsError>(e),
            },
    {
        match self.qtype.0 {
            RecordType::UNKNOWN(code) => {
                return Err(DnsError::InvalidQType(code));
            },
            _ => {},
        }
        let name_labels: Vec<Label> = match self.name.try_into() {
            Ok(labels) => labels,
            Err(e) => {
                return Err(DnsError::InvalidDomainName(e));
            },
        };
        let mut out: Vec<u8> = Vec::new();
        let mut i: usize = 0;
        assert(labels_bytes(name_labels@.take(0)) =~= Seq::<u8>::empty());
        while i < name_labels.len()
            invariant
                i <= name_labels.len(),
                out@ == labels_bytes(name_labels@.take(i as int)),
            decreases name_labels.len() - i,
        {
            let bytes = name_labels[i].as_bytes();
            proof {
                assert(name_labels@.take(i + 1) =~= name_labels@.take(i as int).push(
                    name_labels@[i as int],
                ));
                lemma_bytes_push(name_labels@.take(i as int), name_labels@[i as int]);
            }
            append_bytes(&mut out, bytes);
            i += 1;
        }
        proof {
            assert(name_labels@.take(i as int) =~= name_labels@);
        }
        let qt_bytes = be_write_u16(u16::from(self.qtype));
        let qc_bytes = be_write_u16(u16::from(self.qclass));
        out.push(qt_bytes[0]);
        out.push(qt_bytes[1]);
        out.push(qc_bytes[0]);
        out.push(qc_bytes[1]);
        proof {
            assert(out@ =~= name_wire(name_of_text(self.name@)->Ok_0) + be16_bytes(
                type_code(self.qtype.0),
            ) + be16_bytes(class_code(self.qclass.0)));
        }
        Ok(out)
    }
}

} // verus!
