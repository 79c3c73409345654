//! Decoding the payload of a resource record inside its message: the
//! type code picks the shape, and the shape has to fill the announced
//! length exactly.

use vstd::prelude::*;
use vstd::std_specs::convert::FromSpecImpl;
use vstd::string::StringSliceAdditionalSpecFns;
use vstd::slice::slice_to_vec;
use crate::dns::name::Name;
use crate::dns::name_model::{decode_name, name_wire, LabelModel};
use crate::dns::record::{AAAARecord, ARecord, CNAMERecord, MXRecord, NSRecord};
use crate::utility::{
    append_bytes, be16, be16_bytes, be32, be32_bytes, copy_bytes, push_u16, push_u32, read_u16,
    read_u32,
};
use crate::wire::error::DnsError;

verus! {

/// The payload of a resource record.
pub enum RecordData {
    /// A host address.
    A(ARecord),
    /// An IPv6 host address.
    AAAA(AAAARecord),
    /// The canonical name for an alias.
    CNAME(CNAMERecord),
    /// An authoritative name server.
    NS(NSRecord),
    /// A domain name pointer.
    PTR(Name),
    /// A mail exchange.
    MX(MXRecord),
    /// One or more character strings.
    TXT(Vec<Vec<u8>>),
    /// The start of a zone of authority.
    SOA {
        mname: Name,
        rname: Name,
        serial: u32,
        refresh: u32,
        retry: u32,
        expire: u32,
        minimum: u32,
    },
    /// Host information: the CPU and the operating system.
    HINFO { cpu: Vec<u8>, os: Vec<u8> },
    /// The bytes of a payload whose type gives it no shape here, with
    /// the type's code.
    Unknown(u16, Vec<u8>),
}

impl From<[u8; 4]> for RecordData {
    fn from(value: [u8; 4]) -> (r: RecordData) {
        RecordData::A(ARecord { fields: value })
    }
}

impl FromSpecImpl<[u8; 4]> for RecordData {
    open spec fn obeys_from_spec() -> bool {
        true
    }

    open spec fn from_spec(value: [u8; 4]) -> RecordData {
        RecordData::A(ARecord { fields: value })
    }
}

impl From<[u8; 16]> for RecordData {
    fn from(value: [u8; 16]) -> (r: RecordData) {
        RecordData::AAAA(AAAARecord { bytes: value })
    }
}

impl FromSpecImpl<[u8; 16]> for RecordData {
    open spec fn obeys_from_spec() -> bool {
        true
    }

    open spec fn from_spec(value: [u8; 16]) -> RecordData {
        RecordData::AAAA(AAAARecord { bytes: value })
    }
}

impl From<(u16, Name)> for RecordData {
    fn from(value: (u16, Name)) -> (r: RecordData) {
        RecordData::MX(MXRecord { preference: value.0, exchange: value.1 })
    }
}

impl FromSpecImpl<(u16, Name)> for RecordData {
    open spec fn obeys_from_spec() -> bool {
        true
    }

    open spec fn from_spec(value: (u16, Name)) -> RecordData {
        RecordData::MX(MXRecord { preference: value.0, exchange: value.1 })
    }
}

impl<'a> From<&'a str> for RecordData {
    /// The text payload that holds the bytes of `value` as its one
    /// string.
    fn from(value: &'a str) -> (r: RecordData)
        ensures
            r@ == RecordDataModel::TXT(seq![value.spec_bytes()]),
    {
        let mut strings: Vec<Vec<u8>> = Vec::new();
        strings.push(slice_to_vec(value.as_bytes()));
        assert(string_views(strings@) =~= seq![value.spec_bytes()]);
        RecordData::TXT(strings)
    }
}

impl<'a> FromSpecImpl<&'a str> for RecordData {
    open spec fn obeys_from_spec() -> bool {
        false
    }

    open spec fn from_spec(value: &'a str) -> RecordData {
        arbitrary()
    }
}

/// What a payload stands for.
pub enum RecordDataModel {
    A(Seq<u8>),
    AAAA(Seq<u8>),
    CNAME(Seq<LabelModel>),
    NS(Seq<LabelModel>),
    PTR(Seq<LabelModel>),
    MX(u16, Seq<LabelModel>),
    TXT(Seq<Seq<u8>>),
    SOA(Seq<LabelModel>, Seq<LabelModel>, u32, u32, u32, u32, u32),
    HINFO(Seq<u8>, Seq<u8>),
    Unknown(u16, Seq<u8>),
}

/// The byte vectors of a sequence, each as its bytes.
pub open spec fn string_views(strings: Seq<Vec<u8>>) -> Seq<Seq<u8>> {
    strings.map_values(|v: Vec<u8>| v@)
}

impl View for RecordData {
    type V = RecordDataModel;

    open spec fn view(&self) -> RecordDataModel {
        match self {
            RecordData::A(a) => RecordDataModel::A(a.fields@),
            RecordData::AAAA(a) => RecordDataModel::AAAA(a.bytes@),
            RecordData::CNAME(c) => RecordDataModel::CNAME(c.name@),
            RecordData::NS(n) => RecordDataModel::NS(n.nsdname@),
            RecordData::PTR(n) => RecordDataModel::PTR(n@),
            RecordData::MX(m) => RecordDataModel::MX(m.preference, m.exchange@),
            RecordData::TXT(t) => RecordDataModel::TXT(string_views(t@)),
            RecordData::SOA { mname, rname, serial, refresh, retry, expire, minimum } =>
                RecordDataModel::SOA(
                mname@,
                rname@,
                *serial,
                *refresh,
                *retry,
                *expire,
                *minimum,
            ),
            RecordData::HINFO { cpu, os } => RecordDataModel::HINFO(cpu@, os@),
            RecordData::Unknown(code, raw) => RecordDataModel::Unknown(*code, raw@),
        }
    }
}

/// A copy of a run of strings.
pub fn copy_strings(strings: &Vec<Vec<u8>>) -> (r: Vec<Vec<u8>>)
    ensures
        string_views(r@) == string_views(strings@),
{
    let mut out: Vec<Vec<u8>> = Vec::new();
    let mut i: usize = 0;
    while i < strings.len()
        invariant
            i <= strings.len(),
            out@.len() == i,
            forall|j: int| 0 <= j < i ==> (#[trigger] out@[j])@ == strings@[j]@,
        decreases strings.len() - i,
    {
        out.push(copy_bytes(&strings[i]));
        i += 1;
    }
    assert(string_views(out@) =~= string_views(strings@));
    out
}

impl Clone for RecordData {
    fn clone(&self) -> (r: Self)
        ensures
            r@ == self@,
            self.wf() ==> r.wf(),
    {
        match self {
            RecordData::A(a) => RecordData::A(*a),
            RecordData::AAAA(a) => RecordData::AAAA(*a),
            RecordData::CNAME(c) => RecordData::CNAME(c.clone()),
            RecordData::NS(n) => RecordData::NS(n.clone()),
            RecordData::PTR(n) => RecordData::PTR(n.clone()),
            RecordData::MX(m) => RecordData::MX(m.clone()),
            RecordData::TXT(t) => RecordData::TXT(copy_strings(t)),
            RecordData::SOA { mname, rname, serial, refresh, retry, expire, minimum } =>
                RecordData::SOA {
                mname: mname.clone(),
                rname: rname.clone(),
                serial: *serial,
                refresh: *refresh,
                retry: *retry,
                expire: *expire,
                minimum: *minimum,
            },
            RecordData::HINFO { cpu, os } => RecordData::HINFO {
                cpu: copy_bytes(cpu),
                os: copy_bytes(os),
            },
            RecordData::Unknown(code, raw) => RecordData::Unknown(*code, copy_bytes(raw)),
        }
    }
}

impl RecordData {
    /// Every name in the payload is well formed and holds literals only.
    pub open spec fn wf(&self) -> bool {
        match self {
            RecordData::CNAME(c) => c.name.wf() && !c.name.compressed,
            RecordData::NS(n) => n.nsdname.wf() && !n.nsdname.compressed,
            RecordData::PTR(n) => n.wf() && !n.compressed,
            RecordData::MX(m) => m.exchange.wf() && !m.exchange.compressed,
            RecordData::SOA { mname, rname, .. } => mname.wf() && !mname.compressed && rname.wf()
                && !rname.compressed,
            _ => true,
        }
    }
}

/// The name at `pos` of the message, as part of a payload that ends at
/// `end`: the name's own bytes may not pass the end.
pub open spec fn name_within(msg: Seq<u8>, pos: int, end: int) -> Result<
    (Seq<LabelModel>, int),
    DnsError,
> {
    match decode_name(msg, pos) {
        Err(e) => Err(DnsError::InvalidDomainName(e)),
        Ok((ls, next)) => if next > end {
            Err(DnsError::RdataLengthMismatch)
        } else {
            Ok((ls, next))
        },
    }
}

/// The strings found, with `s` put before them.
pub open spec fn prepend_string(s: Seq<u8>, r: Option<Seq<Seq<u8>>>) -> Option<Seq<Seq<u8>>> {
    match r {
        Some(ss) => Some(seq![s] + ss),
        None => None,
    }
}

/// The character strings that fill the bytes from `pos` up to `end`,
/// each a length octet and that many bytes; none where they do not end
/// at `end`.
pub open spec fn strings_within(msg: Seq<u8>, pos: int, end: int) -> Option<Seq<Seq<u8>>>
    decreases end - pos,
{
    if pos >= end {
        Some(Seq::empty())
    } else if pos < 0 || pos + 1 + msg[pos] > end {
        None
    } else {
        prepend_string(
            msg.subrange(pos + 1, pos + 1 + msg[pos]),
            strings_within(msg, pos + 1 + msg[pos], end),
        )
    }
}

/// The payload in the `len` bytes of the message from `pos` on, in the
/// shape that the type code gives it. A shape that does not fill the
/// bytes exactly is a length mismatch.
pub open spec fn rdata_of(msg: Seq<u8>, pos: int, len: int, code: u16) -> Result<
    RecordDataModel,
    DnsError,
> {
    let end = pos + len;
    if code == 1 {
        if len != 4 {
            Err(DnsError::RdataLengthMismatch)
        } else {
            Ok(RecordDataModel::A(msg.subrange(pos, end)))
        }
    } else if code == 28 {
        if len != 16 {
            Err(DnsError::RdataLengthMismatch)
        } else {
            Ok(RecordDataModel::AAAA(msg.subrange(pos, end)))
        }
    } else if code == 5 || code == 2 || code == 12 {
        match name_within(msg, pos, end) {
            Err(e) => Err(e),
            Ok((ls, next)) => if next != end {
                Err(DnsError::RdataLengthMismatch)
            } else if code == 5 {
                Ok(RecordDataModel::CNAME(ls))
            } else if code == 2 {
                Ok(RecordDataModel::NS(ls))
            } else {
                Ok(RecordDataModel::PTR(ls))
            },
        }
    } else if code == 15 {
        if len < 2 {
            Err(DnsError::RdataLengthMismatch)
        } else {
            match name_within(msg, pos + 2, end) {
                Err(e) => Err(e),
                Ok((ls, next)) => if next != end {
                    Err(DnsError::RdataLengthMismatch)
                } else {
                    Ok(RecordDataModel::MX(be16(msg[pos], msg[pos + 1]), ls))
                },
            }
        }
    } else if code == 16 {
        match strings_within(msg, pos, end) {
            Some(ss) => if ss.len() == 0 {
                Err(DnsError::RdataLengthMismatch)
            } else {
                Ok(RecordDataModel::TXT(ss))
            },
            None => Err(DnsError::RdataLengthMismatch),
        }
    } else if code == 6 {
        match name_within(msg, pos, end) {
            Err(e) => Err(e),
            Ok((mname, m_end)) => match name_within(msg, m_end, end) {
                Err(e) => Err(e),
                Ok((rname, r_end)) => if r_end + 20 != end {
                    Err(DnsError::RdataLengthMismatch)
                } else {
                    Ok(
                        RecordDataModel::SOA(
                            mname,
                            rname,
                            be32(msg[r_end], msg[r_end + 1], msg[r_end + 2], msg[r_end + 3]),
                            be32(msg[r_end + 4], msg[r_end + 5], msg[r_end + 6], msg[r_end + 7]),
                            be32(msg[r_end + 8], msg[r_end + 9], msg[r_end + 10], msg[r_end + 11]),
                            be32(msg[r_end + 12], msg[r_end + 13], msg[r_end + 14], msg[r_end + 15]),
                            be32(msg[r_end + 16], msg[r_end + 17], msg[r_end + 18], msg[r_end + 19]),
                        ),
                    )
                },
            },
        }
    } else if code == 13 {
        match strings_within(msg, pos, end) {
            Some(ss) => if ss.len() != 2 {
                Err(DnsError::RdataLengthMismatch)
            } else {
                Ok(RecordDataModel::HINFO(ss[0], ss[1]))
            },
            None => Err(DnsError::RdataLengthMismatch),
        }
    } else {
        Ok(RecordDataModel::Unknown(code, msg.subrange(pos, end)))
    }
}

/// The strings found after `prefix`, with `prefix` put before them.
pub open spec fn strings_after(prefix: Seq<Seq<u8>>, r: Option<Seq<Seq<u8>>>) -> Option<
    Seq<Seq<u8>>,
> {
    match r {
        Some(ss) => Some(prefix + ss),
        None => None,
    }
}

/// Reads the character strings between `pos` and `end`, as
/// `strings_within` describes.
pub fn read_strings(message: &[u8], pos: usize, end: usize) -> (r: Option<Vec<Vec<u8>>>)
    requires
        pos <= end <= message@.len(),
    ensures
        match strings_within(message@, pos as int, end as int) {
            Some(ss) => r is Some && string_views(r->Some_0@) == ss,
            None => r is None,
        },
{
    let mut out: Vec<Vec<u8>> = Vec::new();
    let mut at: usize = pos;
    proof {
        assert(string_views(out@) =~= Seq::<Seq<u8>>::empty());
        match strings_within(message@, pos as int, end as int) {
            Some(ss) => {
                assert(Seq::<Seq<u8>>::empty() + ss =~= ss);
            },
            None => {},
        }
    }
    while at < end
        invariant
            pos <= at <= end <= message@.len(),
            strings_within(message@, pos as int, end as int) == strings_after(
                string_views(out@),
                strings_within(message@, at as int, end as int),
            ),
        decreases end - at,
    {
        let len: usize = message[at] as usize;
        if len > end - at - 1 {
            return None;
        }
        let s = vstd::slice::slice_to_vec(vstd::slice::slice_subrange(message, at + 1, at + 1 + len));
        proof {
            match strings_within(message@, at + 1 + len, end as int) {
                Some(ss) => {
                    assert(string_views(out@) + (seq![s@] + ss) =~= string_views(out@).push(s@)
                        + ss);
                },
                None => {},
            }
            assert(string_views(out@.push(s)) =~= string_views(out@).push(s@));
        }
        out.push(s);
        at = at + 1 + len;
    }
    proof {
        assert(string_views(out@) + Seq::<Seq<u8>>::empty() =~= string_views(out@));
    }
    Some(out)
}

/// Decodes the name at `pos`, as `name_within` describes.
pub fn read_name_within(message: &[u8], pos: usize, end: usize) -> (r: Result<
    (Name, usize),
    DnsError,
>)
    ensures
        match name_within(message@, pos as int, end as int) {
            Ok((ls, next)) => r is Ok && r->Ok_0.0@ == ls && r->Ok_0.0.wf()
                && !r->Ok_0.0.compressed && r->Ok_0.1 == next,
            Err(e) => r == Err::<(Name, usize), DnsError>(e),
        },
{
    match Name::decode(message, pos) {
        Err(e) => Err(DnsError::InvalidDomainName(e)),
        Ok((name, next)) => {
            if next > end {
                Err(DnsError::RdataLengthMismatch)
            } else {
                Ok((name, next))
            }
        },
    }
}

/// Copies `n` bytes of `message` from `pos` on into an array.
pub fn copy4(message: &[u8], pos: usize) -> (r: [u8; 4])
    requires
        pos + 4 <= message@.len(),
    ensures
        r@ == message@.subrange(pos as int, pos + 4),
{
    let r: [u8; 4] = [message[pos], message[pos + 1], message[pos + 2], message[pos + 3]];
    assert(r@ =~= message@.subrange(pos as int, pos + 4));
    r
}

/// Copies sixteen bytes of `message` from `pos` on into an array.
pub fn copy16(message: &[u8], pos: usize) -> (r: [u8; 16])
    requires
        pos + 16 <= message@.len(),
    ensures
        r@ == message@.subrange(pos as int, pos + 16),
{
    let mut buf: [u8; 16] = [0;16];
    let n: usize = message.len();
    let mut i: usize = 0;
    while i < 16
        invariant
            i <= 16,
            pos + 16 <= n == message@.len(),
            forall|j: int| 0 <= j < i ==> buf[j] == message@[pos + j],
        decreases 16 - i,
    {
        buf[i] = message[pos + i];
        i += 1;
    }
    assert(buf@ =~= message@.subrange(pos as int, pos + 16));
    buf
}

impl RecordData {
    /// Decodes the payload in the `len` bytes of `message` from `pos`
    /// on, in the shape that the type code gives it.
    pub fn decode(message: &[u8], pos: usize, len: usize, code: u16) -> (r: Result<
        RecordData,
        DnsError,
    >)
        requires
            pos + len <= message@.len(),
        ensures
            match rdata_of(message@, pos as int, len as int, code) {
                Ok(m) => r is Ok && r->Ok_0@ == m && r->Ok_0.wf(),
                Err(e) => r == Err::<RecordData, DnsError>(e),
            },
    {
        let n: usize = message.len();
        let end: usize = pos + len;
        if code == 1 {
            if len != 4 {
                return Err(DnsError::RdataLengthMismatch);
            }
            Ok(RecordData::A(ARecord { fields: copy4(message, pos) }))
        } else if code == 28 {
            if len != 16 {
                return Err(DnsError::RdataLengthMismatch);
            }
            Ok(RecordData::AAAA(AAAARecord { bytes: copy16(message, pos) }))
        } else if code == 5 || code == 2 || code == 12 {
            match read_name_within(message, pos, end) {
                Err(e) => Err(e),
                Ok((name, next)) => {
                    if next != end {
                        Err(DnsError::RdataLengthMismatch)
                    } else if code == 5 {
                        Ok(RecordData::CNAME(CNAMERecord { name }))
                    } else if code == 2 {
                        Ok(RecordData::NS(NSRecord { nsdname: name }))
                    } else {
                        Ok(RecordData::PTR(name))
                    }
                },
            }
        } else if code == 15 {
            if len < 2 {
                return Err(DnsError::RdataLengthMismatch);
            }
            let preference = read_u16(message, pos);
            match read_name_within(message, pos + 2, end) {
                Err(e) => Err(e),
                Ok((exchange, next)) => {
                    if next != end {
                        Err(DnsError::RdataLengthMismatch)
                    } else {
                        Ok(RecordData::MX(MXRecord { preference, exchange }))
                    }
                },
            }
        } else if code == 16 {
            match read_strings(message, pos, end) {
                Some(strings) => {
                    if strings.len() == 0 {
                        Err(DnsError::RdataLengthMismatch)
                    } else {
                        Ok(RecordData::TXT(strings))
                    }
                },
                None => Err(DnsError::RdataLengthMismatch),
            }
        } else if code == 6 {
            match read_name_within(message, pos, end) {
                Err(e) => Err(e),
                Ok((mname, m_end)) => {
                    match read_name_within(message, m_end, end) {
                        Err(e) => Err(e),
                        Ok((rname, r_end)) => {
                            if end - r_end != 20 {
                                Err(DnsError::RdataLengthMismatch)
                            } else {
                                Ok(
                                    RecordData::SOA {
                                        mname,
                                        rname,
                                        serial: read_u32(message, r_end),
                                        refresh: read_u32(message, r_end + 4),
                                        retry: read_u32(message, r_end + 8),
                                        expire: read_u32(message, r_end + 12),
                                        minimum: read_u32(message, r_end + 16),
                                    },
                                )
                            }
                        },
                    }
                },
            }
        } else if code == 13 {
            match read_strings(message, pos, end) {
                Some(mut strings) => {
                    if strings.len() != 2 {
                        Err(DnsError::RdataLengthMismatch)
                    } else {
                        let ghost views = string_views(strings@);
                        let os = strings.pop().unwrap();
                        let cpu = strings.pop().unwrap();
                        assert(views[0] == cpu@ && views[1] == os@);
                        Ok(RecordData::HINFO { cpu, os })
                    }
                },
                None => Err(DnsError::RdataLengthMismatch),
            }
        } else {
            let raw = vstd::slice::slice_to_vec(vstd::slice::slice_subrange(message, pos, end));
            Ok(RecordData::Unknown(code, raw))
        }
    }
}

/// The number of bytes that strings take on the wire, each with its
/// length octet.
pub open spec fn strings_size(strings: Seq<Seq<u8>>) -> int
    decreases strings.len(),
{
    if strings.len() == 0 {
        0
    } else {
        strings[0].len() + 1 + strings_size(strings.drop_first())
    }
}

/// The number of bytes that the shape of a payload takes up, counted
/// from the payload's first byte: four and sixteen for the addresses,
/// the name's own bytes for a name, the strings with their length
/// octets, and for a payload without a shape all of its bytes.
pub open spec fn payload_consumed(msg: Seq<u8>, pos: int, len: int, code: u16) -> int {
    if code == 1 {
        4
    } else if code == 28 {
        16
    } else if code == 5 || code == 2 || code == 12 {
        match decode_name(msg, pos) {
            Ok((_, next)) => next - pos,
            Err(_) => 0,
        }
    } else if code == 15 {
        match decode_name(msg, pos + 2) {
            Ok((_, next)) => next - pos,
            Err(_) => 0,
        }
    } else if code == 16 || code == 13 {
        match strings_within(msg, pos, pos + len) {
            Some(ss) => strings_size(ss),
            None => 0,
        }
    } else if code == 6 {
        match decode_name(msg, pos) {
            Ok((_, m_end)) => match decode_name(msg, m_end) {
                Ok((_, r_end)) => r_end + 20 - pos,
                Err(_) => 0,
            },
            Err(_) => 0,
        }
    } else {
        len
    }
}

/// Strings that fill a range take as many bytes as the range has.
pub proof fn lemma_strings_fill(msg: Seq<u8>, pos: int, end: int)
    requires
        0 <= pos <= end <= msg.len(),
        strings_within(msg, pos, end) is Some,
    ensures
        strings_size(strings_within(msg, pos, end)->Some_0) == end - pos,
    decreases end - pos,
{
    if pos < end {
        let next = pos + 1 + msg[pos];
        lemma_strings_fill(msg, next, end);
        let rest = strings_within(msg, next, end)->Some_0;
        let all = strings_within(msg, pos, end)->Some_0;
        assert(all =~= seq![msg.subrange(pos + 1, next)] + rest);
        assert(all.drop_first() =~= rest);
    }
}

/// A payload that decodes takes up exactly the length its record
/// announces: whatever the type, the shape's bytes are `len` many.
pub proof fn lemma_payload_fills_length(msg: Seq<u8>, pos: int, len: int, code: u16)
    requires
        0 <= pos,
        0 <= len,
        pos + len <= msg.len(),
        rdata_of(msg, pos, len, code) is Ok,
    ensures
        payload_consumed(msg, pos, len, code) == len,
{
    if code == 16 || code == 13 {
        lemma_strings_fill(msg, pos, pos + len);
    }
}

/// The type code that the shape of a payload belongs to.
pub open spec fn rdata_code(r: RecordDataModel) -> u16 {
    match r {
        RecordDataModel::A(_) => 1,
        RecordDataModel::NS(_) => 2,
        RecordDataModel::CNAME(_) => 5,
        RecordDataModel::SOA(_, _, _, _, _, _, _) => 6,
        RecordDataModel::PTR(_) => 12,
        RecordDataModel::HINFO(_, _) => 13,
        RecordDataModel::MX(_, _) => 15,
        RecordDataModel::TXT(_) => 16,
        RecordDataModel::AAAA(_) => 28,
        RecordDataModel::Unknown(code, _) => code,
    }
}

/// The bytes of character strings on the wire: each its length octet and
/// its bytes.
pub open spec fn strings_wire(strings: Seq<Seq<u8>>) -> Seq<u8>
    decreases strings.len(),
{
    if strings.len() == 0 {
        Seq::empty()
    } else {
        strings_wire(strings.drop_last()) + seq![strings.last().len() as u8] + strings.last()
    }
}

/// Whether every string fits a length octet.
pub open spec fn strings_fit(strings: Seq<Seq<u8>>) -> bool {
    forall|i: int| 0 <= i < strings.len() ==> (#[trigger] strings[i]).len() <= 255
}

/// The bytes of a payload on the wire, every name written in full. A
/// string of more than 255 bytes cannot be written, and text needs one
/// string at least.
pub open spec fn payload_wire(r: RecordDataModel) -> Result<Seq<u8>, DnsError> {
    match r {
        RecordDataModel::A(b) => Ok(b),
        RecordDataModel::AAAA(b) => Ok(b),
        RecordDataModel::CNAME(n) => Ok(name_wire(n)),
        RecordDataModel::NS(n) => Ok(name_wire(n)),
        RecordDataModel::PTR(n) => Ok(name_wire(n)),
        RecordDataModel::MX(p, n) => Ok(be16_bytes(p) + name_wire(n)),
        RecordDataModel::TXT(ss) => if ss.len() == 0 || !strings_fit(ss) {
            Err(DnsError::RdataLengthMismatch)
        } else {
            Ok(strings_wire(ss))
        },
        RecordDataModel::SOA(mname, rname, serial, refresh, retry, expire, minimum) => Ok(
            name_wire(mname) + name_wire(rname) + be32_bytes(serial) + be32_bytes(refresh)
                + be32_bytes(retry) + be32_bytes(expire) + be32_bytes(minimum),
        ),
        RecordDataModel::HINFO(cpu, os) => if cpu.len() > 255 || os.len() > 255 {
            Err(DnsError::RdataLengthMismatch)
        } else {
            Ok(seq![cpu.len() as u8] + cpu + seq![os.len() as u8] + os)
        },
        RecordDataModel::Unknown(_, raw) => Ok(raw),
    }
}

/// Writes character strings, each with its length octet. A string of
/// more than 255 bytes cannot be written.
pub fn write_strings(strings: &Vec<Vec<u8>>) -> (r: Option<Vec<u8>>)
    ensures
        strings_fit(string_views(strings@)) ==> r is Some && r->Some_0@ == strings_wire(
            string_views(strings@),
        ),
        !strings_fit(string_views(strings@)) ==> r is None,
{
    let ghost all = string_views(strings@);
    let mut out: Vec<u8> = Vec::new();
    let mut i: usize = 0;
    assert(strings_wire(all.take(0)) =~= Seq::<u8>::empty());
    while i < strings.len()
        invariant
            i <= strings.len(),
            all == string_views(strings@),
            strings_fit(all.take(i as int)),
            out@ == strings_wire(all.take(i as int)),
        decreases strings.len() - i,
    {
        let s = &strings[i];
        if s.len() > 255 {
            assert(all[i as int].len() > 255);
            return None;
        }
        proof {
            assert(all.take(i + 1).drop_last() =~= all.take(i as int));
            assert(all.take(i + 1).last() == s@);
            assert forall|j: int| 0 <= j < i + 1 implies (#[trigger] all.take(i + 1)[j]).len()
                <= 255 by {
                if j < i {
                    assert(all.take(i as int)[j] == all.take(i + 1)[j]);
                }
            }
        }
        out.push(s.len() as u8);
        append_bytes(&mut out, s);
        i += 1;
    }
    proof {
        assert(all.take(i as int) =~= all);
    }
    Some(out)
}

impl RecordData {
    /// The type code that the payload's shape belongs to.
    pub fn code(&self) -> (r: u16)
        ensures
            r == rdata_code(self@),
    {
        match self {
            RecordData::A(_) => 1,
            RecordData::NS(_) => 2,
            RecordData::CNAME(_) => 5,
            RecordData::SOA { .. } => 6,
            RecordData::PTR(_) => 12,
            RecordData::HINFO { .. } => 13,
            RecordData::MX(_) => 15,
            RecordData::TXT(_) => 16,
            RecordData::AAAA(_) => 28,
            RecordData::Unknown(code, _) => *code,
        }
    }

    /// The payload as it is written on the wire. No compression pointer
    /// is written.
    pub fn encode(&self) -> (r: Result<Vec<u8>, DnsError>)
        requires
            self.wf(),
        ensures
            match payload_wire(self@) {
                Ok(b) => r is Ok && r->Ok_0@ == b,
                Err(e) => r == Err::<Vec<u8>, DnsError>(e),
            },
    {
        match self {
            RecordData::A(a) => Ok(slice_to_vec(a.fields.as_slice())),
            RecordData::AAAA(a) => Ok(slice_to_vec(a.bytes.as_slice())),
            RecordData::CNAME(c) => Ok(c.name.get_bytes()),
            RecordData::NS(n) => Ok(n.nsdname.get_bytes()),
            RecordData::PTR(n) => Ok(n.get_bytes()),
            RecordData::MX(m) => {
                let mut out: Vec<u8> = Vec::new();
                push_u16(&mut out, m.preference);
                let name = m.exchange.get_bytes();
                append_bytes(&mut out, &name);
                assert(out@ =~= be16_bytes(m.preference) + name_wire(m.exchange@));
                Ok(out)
            },
            RecordData::TXT(t) => {
                if t.len() == 0 {
                    return Err(DnsError::RdataLengthMismatch);
                }
                match write_strings(t) {
                    Some(out) => Ok(out),
                    None => Err(DnsError::RdataLengthMismatch),
                }
            },
            RecordData::SOA { mname, rname, serial, refresh, retry, expire, minimum } => {
                let mut out: Vec<u8> = mname.get_bytes();
                let second = rname.get_bytes();
                append_bytes(&mut out, &second);
                push_u32(&mut out, *serial);
                push_u32(&mut out, *refresh);
                push_u32(&mut out, *retry);
                push_u32(&mut out, *expire);
                push_u32(&mut out, *minimum);
                Ok(out)
            },
            RecordData::HINFO { cpu, os } => {
                if cpu.len() > 255 || os.len() > 255 {
                    return Err(DnsError::RdataLengthMismatch);
                }
                let mut out: Vec<u8> = Vec::new();
                out.push(cpu.len() as u8);
                append_bytes(&mut out, cpu);
                out.push(os.len() as u8);
                append_bytes(&mut out, os);
                assert(out@ =~= seq![cpu@.len() as u8] + cpu@ + seq![os@.len() as u8] + os@);
                Ok(out)
            },
            RecordData::Unknown(_, raw) => Ok(copy_bytes(raw)),
        }
    }
}

} // verus!
