//! What holds of questions and resource records as a whole: what was
//! written reads back as itself.

use vstd::prelude::*;
use crate::dns::answer::{answer_at, record_wire, AnswerModel};
use crate::dns::name_laws::{lemma_decode_of_wire, written_in_full};
use crate::dns::name_model::{decode_name, name_wire, LabelModel};
use crate::dns::question::{
    qclass_code, qclass_of, question_at, question_wire, QClass, QuestionModel,
};
use crate::dns::rdata::{
    payload_wire, rdata_code, rdata_of, strings_fit, strings_wire, strings_within, RecordDataModel,
};
use crate::utility::{be16, be16_bytes, be32, be32_bytes};
use crate::wire::class::class_of_code;
use crate::wire::error::DnsError;
use crate::wire::name::NameError;
use crate::wire::rtype::{type_code, type_from_code, type_of_code, RecordType};

verus! {

/// The two octets of a number read back as the number.
pub proof fn lemma_be16_reads_back(n: u16)
    ensures
        be16_bytes(n).len() == 2,
        be16(be16_bytes(n)[0], be16_bytes(n)[1]) == n,
{
}

/// The four octets of a number read back as the number.
pub proof fn lemma_be32_reads_back(n: u32)
    ensures
        be32_bytes(n).len() == 4,
        be32(be32_bytes(n)[0], be32_bytes(n)[1], be32_bytes(n)[2], be32_bytes(n)[3]) == n,
{
    let b0 = n / 16777216;
    let b1 = n / 65536 % 256;
    let b2 = n / 256 % 256;
    let b3 = n % 256;
    assert(b0 < 256 && b0 * 16777216 + b1 * 65536 + b2 * 256 + b3 == n) by (bit_vector)
        requires
            b0 == n / 16777216,
            b1 == n / 65536 % 256,
            b2 == n / 256 % 256,
            b3 == n % 256,
    ;
}

/// The code of a type that has a name stands for that type.
pub proof fn lemma_type_code_reads_back(t: RecordType)
    requires
        !(t is UNKNOWN),
    ensures
        type_of_code(type_code(t)) == Some(t),
        type_from_code(type_code(t)) == t,
{
}

/// A question reads back as itself wherever its bytes stand in a
/// message: for a name written in full, a type and a class that have a
/// name, decoding at the first byte of the question's wire bytes gives
/// the same name, type and class, and ends right behind them.
pub proof fn lemma_question_reads_back(
    pre: Seq<u8>,
    name: Seq<LabelModel>,
    q_type: RecordType,
    q_class: QClass,
    post: Seq<u8>,
)
    requires
        written_in_full(name),
        !(q_type is UNKNOWN),
        !(q_class is UNKNOWN),
    ensures
        question_at(pre + question_wire(name, q_type, q_class) + post, pre.len() as int) == Ok::<
            (QuestionModel, int),
            DnsError,
        >(
            (
                QuestionModel { name, q_type, q_class },
                (pre.len() + question_wire(name, q_type, q_class).len()) as int,
            ),
        ),
{
    let t = be16_bytes(type_code(q_type));
    let c = be16_bytes(qclass_code(q_class));
    let msg = pre + question_wire(name, q_type, q_class) + post;
    let tail = t + c + post;
    assert(msg =~= pre + name_wire(name) + tail);
    lemma_decode_of_wire(pre, name, tail);
    let p = (pre.len() + name_wire(name).len()) as int;
    assert(msg[p] == t[0] && msg[p + 1] == t[1]);
    assert(msg[p + 2] == c[0] && msg[p + 3] == c[1]);
    lemma_be16_reads_back(type_code(q_type));
    lemma_be16_reads_back(qclass_code(q_class));
    lemma_type_code_reads_back(q_type);
    assert(qclass_of(qclass_code(q_class)) == q_class);
    assert(class_of_code(qclass_code(q_class)) is Some);
}

/// The wire bytes of strings, taken from the front: the first string
/// with its length octet, then the others.
pub proof fn lemma_strings_wire_front(s: Seq<u8>, rest: Seq<Seq<u8>>)
    ensures
        strings_wire(seq![s] + rest) == seq![s.len() as u8] + s + strings_wire(rest),
    decreases rest.len(),
{
    let all = seq![s] + rest;
    if rest.len() == 0 {
        assert(all.drop_last() =~= Seq::<Seq<u8>>::empty());
        assert(strings_wire(Seq::<Seq<u8>>::empty()) =~= Seq::<u8>::empty());
        assert(all.last() == s);
        assert(strings_wire(all) =~= seq![s.len() as u8] + s + strings_wire(rest));
    } else {
        assert(all.drop_last() =~= seq![s] + rest.drop_last());
        assert(all.last() == rest.last());
        lemma_strings_wire_front(s, rest.drop_last());
        assert(strings_wire(all) =~= seq![s.len() as u8] + s + strings_wire(rest));
    }
}

/// Strings that fit their length octets read back as themselves
/// wherever their bytes stand in a message.
pub proof fn lemma_strings_read_back(pre: Seq<u8>, strings: Seq<Seq<u8>>, post: Seq<u8>)
    requires
        strings_fit(strings),
    ensures
        strings_within(
            pre + strings_wire(strings) + post,
            pre.len() as int,
            (pre.len() + strings_wire(strings).len()) as int,
        ) == Some(strings),
    decreases strings.len(),
{
    let msg = pre + strings_wire(strings) + post;
    let pos = pre.len() as int;
    let end = (pre.len() + strings_wire(strings).len()) as int;
    if strings.len() == 0 {
        assert(strings_wire(strings) =~= Seq::<u8>::empty());
        assert(strings =~= Seq::<Seq<u8>>::empty());
    } else {
        let s = strings[0];
        let rest = strings.drop_first();
        assert(strings =~= seq![s] + rest);
        lemma_strings_wire_front(s, rest);
        assert(strings_fit(rest)) by {
            assert forall|i: int| 0 <= i < rest.len() implies (#[trigger] rest[i]).len()
                <= 255 by {
                assert(rest[i] == strings[i + 1]);
            }
        }
        let head = seq![s.len() as u8] + s;
        let pre2 = pre + head;
        assert(msg =~= pre2 + strings_wire(rest) + post);
        lemma_strings_read_back(pre2, rest, post);
        assert(msg[pos] == s.len() as u8);
        assert(msg.subrange(pos + 1, pos + 1 + s.len()) =~= s);
        assert(pos + 1 + s.len() <= end);
    }
}

/// Whether a payload is one that the wire format can hold and give
/// back: addresses of four and sixteen octets, names written in full,
/// strings that fit their length octets, at least one string of text,
/// and raw bytes only under a type that gives a payload no shape.
pub open spec fn payload_valid(r: RecordDataModel) -> bool {
    match r {
        RecordDataModel::A(b) => b.len() == 4,
        RecordDataModel::AAAA(b) => b.len() == 16,
        RecordDataModel::CNAME(n) => written_in_full(n),
        RecordDataModel::NS(n) => written_in_full(n),
        RecordDataModel::PTR(n) => written_in_full(n),
        RecordDataModel::MX(_, n) => written_in_full(n),
        RecordDataModel::TXT(ss) => ss.len() > 0 && strings_fit(ss),
        RecordDataModel::SOA(mname, rname, _, _, _, _, _) => written_in_full(mname)
            && written_in_full(rname),
        RecordDataModel::HINFO(cpu, os) => cpu.len() <= 255 && os.len() <= 255,
        RecordDataModel::Unknown(code, _) => code != 1 && code != 2 && code != 5 && code != 6
            && code != 12 && code != 13 && code != 15 && code != 16 && code != 28,
    }
}

/// What reading a written payload back is to give: the payload itself.
pub open spec fn reads_back(pre: Seq<u8>, r: RecordDataModel, post: Seq<u8>) -> bool {
    &&& payload_wire(r) is Ok
    &&& rdata_of(
        pre + payload_wire(r)->Ok_0 + post,
        pre.len() as int,
        payload_wire(r)->Ok_0.len() as int,
        rdata_code(r),
    ) == Ok::<RecordDataModel, DnsError>(r)
}

/// An address, and raw bytes under a type without a shape, read back as
/// themselves.
pub proof fn lemma_bytes_read_back(pre: Seq<u8>, r: RecordDataModel, post: Seq<u8>)
    requires
        payload_valid(r),
        r is A || r is AAAA || r is Unknown,
    ensures
        reads_back(pre, r, post),
{
    let w = payload_wire(r)->Ok_0;
    let msg = pre + w + post;
    let pos = pre.len() as int;
    assert(msg.subrange(pos, pos + w.len()) =~= w);
}

/// A payload that is one name reads back as itself.
pub proof fn lemma_name_payload_reads_back(pre: Seq<u8>, r: RecordDataModel, post: Seq<u8>)
    requires
        payload_valid(r),
        r is CNAME || r is NS || r is PTR,
    ensures
        reads_back(pre, r, post),
{
    match r {
        RecordDataModel::CNAME(n) => {
            lemma_decode_of_wire(pre, n, post);
        },
        RecordDataModel::NS(n) => {
            lemma_decode_of_wire(pre, n, post);
        },
        RecordDataModel::PTR(n) => {
            lemma_decode_of_wire(pre, n, post);
        },
        _ => {},
    }
}

/// A mail exchange reads back as itself.
pub proof fn lemma_mx_reads_back(pre: Seq<u8>, r: RecordDataModel, post: Seq<u8>)
    requires
        payload_valid(r),
        r is MX,
    ensures
        reads_back(pre, r, post),
{
    let p = r->MX_0;
    let n = r->MX_1;
    let msg = pre + payload_wire(r)->Ok_0 + post;
    let pos = pre.len() as int;
    let pre2 = pre + be16_bytes(p);
    assert(msg =~= pre2 + name_wire(n) + post);
    lemma_decode_of_wire(pre2, n, post);
    lemma_be16_reads_back(p);
    assert(msg[pos] == be16_bytes(p)[0] && msg[pos + 1] == be16_bytes(p)[1]);
}

/// Text reads back as itself.
pub proof fn lemma_txt_reads_back(pre: Seq<u8>, r: RecordDataModel, post: Seq<u8>)
    requires
        payload_valid(r),
        r is TXT,
    ensures
        reads_back(pre, r, post),
{
    lemma_strings_read_back(pre, r->TXT_0, post);
}

/// Host information reads back as itself.
pub proof fn lemma_hinfo_reads_back(pre: Seq<u8>, r: RecordDataModel, post: Seq<u8>)
    requires
        payload_valid(r),
        r is HINFO,
    ensures
        reads_back(pre, r, post),
{
    let cpu = r->HINFO_0;
    let os = r->HINFO_1;
    let w = payload_wire(r)->Ok_0;
    let ss = seq![cpu, os];
    assert(strings_fit(ss));
    lemma_strings_wire_front(os, Seq::<Seq<u8>>::empty());
    assert(seq![os] + Seq::<Seq<u8>>::empty() =~= seq![os]);
    assert(strings_wire(Seq::<Seq<u8>>::empty()) =~= Seq::<u8>::empty());
    lemma_strings_wire_front(cpu, seq![os]);
    assert(seq![cpu] + seq![os] =~= ss);
    assert(strings_wire(ss) =~= w);
    lemma_strings_read_back(pre, ss, post);
}

/// The five numbers that close the start of a zone of authority, as
/// they are written.
pub open spec fn soa_numbers(serial: u32, refresh: u32, retry: u32, expire: u32, minimum: u32) -> Seq<
    u8,
> {
    be32_bytes(serial) + be32_bytes(refresh) + be32_bytes(retry) + be32_bytes(expire)
        + be32_bytes(minimum)
}

/// The five numbers read back as themselves wherever their twenty bytes
/// stand.
pub proof fn lemma_soa_numbers_read_back(
    msg: Seq<u8>,
    q: int,
    serial: u32,
    refresh: u32,
    retry: u32,
    expire: u32,
    minimum: u32,
)
    requires
        0 <= q,
        q + 20 <= msg.len(),
        msg.subrange(q, q + 20) == soa_numbers(serial, refresh, retry, expire, minimum),
    ensures
        be32(msg[q], msg[q + 1], msg[q + 2], msg[q + 3]) == serial,
        be32(msg[q + 4], msg[q + 5], msg[q + 6], msg[q + 7]) == refresh,
        be32(msg[q + 8], msg[q + 9], msg[q + 10], msg[q + 11]) == retry,
        be32(msg[q + 12], msg[q + 13], msg[q + 14], msg[q + 15]) == expire,
        be32(msg[q + 16], msg[q + 17], msg[q + 18], msg[q + 19]) == minimum,
{
    let numbers = soa_numbers(serial, refresh, retry, expire, minimum);
    lemma_be32_reads_back(serial);
    lemma_be32_reads_back(refresh);
    lemma_be32_reads_back(retry);
    lemma_be32_reads_back(expire);
    lemma_be32_reads_back(minimum);
    assert forall|k: int| 0 <= k < 20 implies msg[q + k] == #[trigger] numbers[k] by {
        assert(msg.subrange(q, q + 20)[k] == msg[q + k]);
    }
    assert(numbers[0] == be32_bytes(serial)[0] && numbers[1] == be32_bytes(serial)[1]
        && numbers[2] == be32_bytes(serial)[2] && numbers[3] == be32_bytes(serial)[3]);
    assert(numbers[4] == be32_bytes(refresh)[0] && numbers[5] == be32_bytes(refresh)[1]
        && numbers[6] == be32_bytes(refresh)[2] && numbers[7] == be32_bytes(refresh)[3]);
    assert(numbers[8] == be32_bytes(retry)[0] && numbers[9] == be32_bytes(retry)[1]
        && numbers[10] == be32_bytes(retry)[2] && numbers[11] == be32_bytes(retry)[3]);
    assert(numbers[12] == be32_bytes(expire)[0] && numbers[13] == be32_bytes(expire)[1]
        && numbers[14] == be32_bytes(expire)[2] && numbers[15] == be32_bytes(expire)[3]);
    assert(numbers[16] == be32_bytes(minimum)[0] && numbers[17] == be32_bytes(minimum)[1]
        && numbers[18] == be32_bytes(minimum)[2] && numbers[19] == be32_bytes(minimum)[3]);
}

/// Two names written one behind the other read back one behind the
/// other.
pub proof fn lemma_two_names_read_back(
    pre: Seq<u8>,
    first: Seq<LabelModel>,
    second: Seq<LabelModel>,
    post: Seq<u8>,
)
    requires
        written_in_full(first),
        written_in_full(second),
    ensures
        ({
            let msg = pre + name_wire(first) + name_wire(second) + post;
            let mid = (pre.len() + name_wire(first).len()) as int;
            let end = mid + name_wire(second).len();
            &&& decode_name(msg, pre.len() as int) == Ok::<(Seq<LabelModel>, int), NameError>(
                (first, mid),
            )
            &&& decode_name(msg, mid) == Ok::<(Seq<LabelModel>, int), NameError>((second, end))
            &&& msg.subrange(end, msg.len() as int) == post
        }),
{
    let msg = pre + name_wire(first) + name_wire(second) + post;
    let tail = name_wire(second) + post;
    assert(msg =~= pre + name_wire(first) + tail);
    lemma_decode_of_wire(pre, first, tail);
    let pre2 = pre + name_wire(first);
    assert(msg =~= pre2 + name_wire(second) + post);
    lemma_decode_of_wire(pre2, second, post);
    let end = (pre2.len() + name_wire(second).len()) as int;
    assert(msg.subrange(end, msg.len() as int) =~= post);
}

/// The start of a zone of authority reads back as itself.
pub proof fn lemma_soa_reads_back(pre: Seq<u8>, r: RecordDataModel, post: Seq<u8>)
    requires
        payload_valid(r),
        r is SOA,
    ensures
        reads_back(pre, r, post),
{
    let mname = r->SOA_0;
    let rname = r->SOA_1;
    let numbers = soa_numbers(r->SOA_2, r->SOA_3, r->SOA_4, r->SOA_5, r->SOA_6);
    let w = payload_wire(r)->Ok_0;
    let tail = numbers + post;
    let msg = pre + name_wire(mname) + name_wire(rname) + tail;
    assert(numbers.len() == 20);
    assert(w =~= name_wire(mname) + name_wire(rname) + numbers);
    assert(pre + w + post =~= msg);
    lemma_two_names_read_back(pre, mname, rname, tail);
    let q = (pre.len() + name_wire(mname).len() + name_wire(rname).len()) as int;
    assert(msg.subrange(q, q + 20) =~= msg.subrange(q, msg.len() as int).subrange(0, 20));
    assert(tail.subrange(0, 20) =~= numbers);
    lemma_soa_numbers_read_back(msg, q, r->SOA_2, r->SOA_3, r->SOA_4, r->SOA_5, r->SOA_6);
}

/// A payload reads back as itself wherever its bytes stand in a
/// message: decoding the bytes that a valid payload is written as, under
/// the type code of its shape and with their number as the length, gives
/// the same payload.
pub proof fn lemma_payload_reads_back(pre: Seq<u8>, r: RecordDataModel, post: Seq<u8>)
    requires
        payload_valid(r),
    ensures
        payload_wire(r) is Ok,
        rdata_of(
            pre + payload_wire(r)->Ok_0 + post,
            pre.len() as int,
            payload_wire(r)->Ok_0.len() as int,
            rdata_code(r),
        ) == Ok::<RecordDataModel, DnsError>(r),
{
    match r {
        RecordDataModel::A(_) => lemma_bytes_read_back(pre, r, post),
        RecordDataModel::AAAA(_) => lemma_bytes_read_back(pre, r, post),
        RecordDataModel::Unknown(_, _) => lemma_bytes_read_back(pre, r, post),
        RecordDataModel::CNAME(_) => lemma_name_payload_reads_back(pre, r, post),
        RecordDataModel::NS(_) => lemma_name_payload_reads_back(pre, r, post),
        RecordDataModel::PTR(_) => lemma_name_payload_reads_back(pre, r, post),
        RecordDataModel::MX(_, _) => lemma_mx_reads_back(pre, r, post),
        RecordDataModel::TXT(_) => lemma_txt_reads_back(pre, r, post),
        RecordDataModel::SOA(_, _, _, _, _, _, _) => lemma_soa_reads_back(pre, r, post),
        RecordDataModel::HINFO(_, _) => lemma_hinfo_reads_back(pre, r, post),
    }
}

/// A resource record reads back as itself wherever its bytes stand in a
/// message: for a record that can be written, with its owner name
/// written in full and a valid payload, decoding at the first byte of
/// the record's wire bytes gives the same record, with the payload's
/// written bytes and their number as its data and length, and ends right
/// behind them.
pub proof fn lemma_record_reads_back(pre: Seq<u8>, a: AnswerModel, post: Seq<u8>)
    requires
        record_wire(a) is Ok,
        written_in_full(a.name),
        payload_valid(a.record),
    ensures
        answer_at(pre + record_wire(a)->Ok_0 + post, pre.len() as int) == Ok::<
            (AnswerModel, int),
            DnsError,
        >(
            (
                AnswerModel {
                    length: payload_wire(a.record)->Ok_0.len() as u16,
                    a_data: payload_wire(a.record)->Ok_0,
                    ..a
                },
                (pre.len() + record_wire(a)->Ok_0.len()) as int,
            ),
        ),
{
    let w = record_wire(a)->Ok_0;
    let payload = payload_wire(a.record)->Ok_0;
    let code = type_code(a.r_type);
    let fixed = be16_bytes(code) + be16_bytes(a.class) + be32_bytes(a.ttl) + be16_bytes(
        payload.len() as u16,
    );
    let msg = pre + w + post;
    let tail = fixed + payload + post;
    assert(msg =~= pre + name_wire(a.name) + tail);
    lemma_decode_of_wire(pre, a.name, tail);
    let p = (pre.len() + name_wire(a.name).len()) as int;
    lemma_be16_reads_back(code);
    lemma_be16_reads_back(a.class);
    lemma_be32_reads_back(a.ttl);
    lemma_be16_reads_back(payload.len() as u16);
    assert(fixed.len() == 10);
    assert(msg.subrange(p, p + 10) =~= fixed);
    assert forall|k: int| 0 <= k < 10 implies msg[p + k] == #[trigger] fixed[k] by {
        assert(msg.subrange(p, p + 10)[k] == msg[p + k]);
    }
    assert(fixed[0] == be16_bytes(code)[0] && fixed[1] == be16_bytes(code)[1]);
    assert(fixed[2] == be16_bytes(a.class)[0] && fixed[3] == be16_bytes(a.class)[1]);
    assert(fixed[4] == be32_bytes(a.ttl)[0] && fixed[5] == be32_bytes(a.ttl)[1] && fixed[6]
        == be32_bytes(a.ttl)[2] && fixed[7] == be32_bytes(a.ttl)[3]);
    assert(fixed[8] == be16_bytes(payload.len() as u16)[0] && fixed[9] == be16_bytes(
        payload.len() as u16,
    )[1]);
    lemma_type_code_reads_back(a.r_type);
    let pre2 = pre + name_wire(a.name) + fixed;
    assert(msg =~= pre2 + payload + post);
    lemma_payload_reads_back(pre2, a.record, post);
    assert(msg.subrange(p + 10, p + 10 + payload.len()) =~= payload);
}

} // verus!
