//! What a whole message decodes to, and where the decoding of each of
//! its parts ends.

use vstd::prelude::*;
use crate::dns::answer::{answer_at, Answer, AnswerModel};
use crate::dns::header::HEADER_LEN;
use crate::dns::name_lemmas::lemma_scan_shape;
use crate::dns::name_model::{name_wire_len, scan_labels};
use crate::dns::question::{question_at, Question, QuestionModel};
use crate::parsing::{all_answers_wf, all_questions_wf, answer_models, question_models};
use crate::utility::be16;
use crate::wire::error::DnsError;

verus! {

/// The questions found, with `q` put before them.
pub open spec fn prepend_question(
    q: QuestionModel,
    r: Result<(Seq<QuestionModel>, int), DnsError>,
) -> Result<(Seq<QuestionModel>, int), DnsError> {
    match r {
        Ok((qs, next)) => Ok((seq![q] + qs, next)),
        Err(e) => Err(e),
    }
}

/// The records found, with `a` put before them.
pub open spec fn prepend_answer(
    a: AnswerModel,
    r: Result<(Seq<AnswerModel>, int), DnsError>,
) -> Result<(Seq<AnswerModel>, int), DnsError> {
    match r {
        Ok((rs, next)) => Ok((seq![a] + rs, next)),
        Err(e) => Err(e),
    }
}

/// The `count` questions that follow each other from `pos` on, and the
/// position right behind the last.
pub open spec fn questions_at(msg: Seq<u8>, pos: int, count: nat) -> Result<
    (Seq<QuestionModel>, int),
    DnsError,
>
    decreases count,
{
    if count == 0 {
        Ok((Seq::empty(), pos))
    } else {
        match question_at(msg, pos) {
            Err(e) => Err(e),
            Ok((q, next)) => prepend_question(q, questions_at(msg, next, (count - 1) as nat)),
        }
    }
}

/// The `count` resource records that follow each other from `pos` on,
/// and the position right behind the last.
pub open spec fn answers_at(msg: Seq<u8>, pos: int, count: nat) -> Result<
    (Seq<AnswerModel>, int),
    DnsError,
>
    decreases count,
{
    if count == 0 {
        Ok((Seq::empty(), pos))
    } else {
        match answer_at(msg, pos) {
            Err(e) => Err(e),
            Ok((a, next)) => prepend_answer(a, answers_at(msg, next, (count - 1) as nat)),
        }
    }
}

/// What a message stands for: the twelve bytes of its header and its
/// four sections.
pub struct MessageModel {
    pub header: Seq<u8>,
    pub questions: Seq<QuestionModel>,
    pub answers: Seq<AnswerModel>,
    pub authorities: Seq<AnswerModel>,
    pub additionals: Seq<AnswerModel>,
}

/// The four counts of a header, in the order of the sections.
pub open spec fn counts_of(msg: Seq<u8>) -> (nat, nat, nat, nat) {
    (
        be16(msg[4], msg[5]) as nat,
        be16(msg[6], msg[7]) as nat,
        be16(msg[8], msg[9]) as nat,
        be16(msg[10], msg[11]) as nat,
    )
}

/// What a message decodes to, and where the decoding ends: the header,
/// then as many questions, answers, authority records and additional
/// records as the header counts, each right behind the one before. What
/// follows the last record is left alone.
pub open spec fn message_of(msg: Seq<u8>) -> Result<(MessageModel, int), DnsError> {
    if msg.len() < HEADER_LEN {
        Err(DnsError::ShortHeader)
    } else {
        let (qd, an, ns, ar) = counts_of(msg);
        match questions_at(msg, HEADER_LEN as int, qd) {
            Err(e) => Err(e),
            Ok((questions, q_end)) => match answers_at(msg, q_end, an) {
                Err(e) => Err(e),
                Ok((answers, an_end)) => match answers_at(msg, an_end, ns) {
                    Err(e) => Err(e),
                    Ok((authorities, ns_end)) => match answers_at(msg, ns_end, ar) {
                        Err(e) => Err(e),
                        Ok((additionals, ar_end)) => Ok(
                            (
                                MessageModel {
                                    header: msg.take(HEADER_LEN as int),
                                    questions,
                                    answers,
                                    authorities,
                                    additionals,
                                },
                                ar_end,
                            ),
                        ),
                    },
                },
            },
        }
    }
}

/// The outcome of reading questions, with `prefix` put before them.
pub open spec fn questions_after(
    prefix: Seq<QuestionModel>,
    r: Result<(Seq<QuestionModel>, int), DnsError>,
) -> Result<(Seq<QuestionModel>, int), DnsError> {
    match r {
        Ok((qs, next)) => Ok((prefix + qs, next)),
        Err(e) => Err(e),
    }
}

/// The outcome of reading records, with `prefix` put before them.
pub open spec fn answers_after(
    prefix: Seq<AnswerModel>,
    r: Result<(Seq<AnswerModel>, int), DnsError>,
) -> Result<(Seq<AnswerModel>, int), DnsError> {
    match r {
        Ok((rs, next)) => Ok((prefix + rs, next)),
        Err(e) => Err(e),
    }
}

/// Decodes `count` questions from `pos` on.
pub fn read_questions(message: &[u8], pos: usize, count: u16) -> (r: Result<
    (Vec<Question>, usize),
    DnsError,
>)
    ensures
        match questions_at(message@, pos as int, count as nat) {
            Ok((qs, next)) => r is Ok && question_models(r->Ok_0.0@) == qs && r->Ok_0.1 == next
                && r->Ok_0.0@.len() == count && all_questions_wf(r->Ok_0.0@) && pos <= next && (
            count == 0 || next <= message@.len()),
            Err(e) => r == Err::<(Vec<Question>, usize), DnsError>(e),
        },
{
    let mut out: Vec<Question> = Vec::new();
    let mut at: usize = pos;
    let mut i: u16 = 0;
    proof {
        assert(question_models(out@) =~= Seq::<QuestionModel>::empty());
        match questions_at(message@, pos as int, count as nat) {
            Ok((qs, next)) => {
                assert(Seq::<QuestionModel>::empty() + qs =~= qs);
            },
            Err(_) => {},
        }
    }
    while i < count
        invariant
            i <= count,
            out@.len() == i,
            all_questions_wf(out@),
            pos <= at,
            i == 0 || at <= message@.len(),
            questions_at(message@, pos as int, count as nat) == questions_after(
                question_models(out@),
                questions_at(message@, at as int, (count - i) as nat),
            ),
        decreases count - i,
    {
        match Question::decode(message, at) {
            Err(e) => {
                return Err(e);
            },
            Ok((q, next)) => {
                proof {
                    match questions_at(message@, next as int, (count - i - 1) as nat) {
                        Ok((qs, _)) => {
                            assert(question_models(out@) + (seq![q@] + qs) =~= question_models(
                                out@,
                            ).push(q@) + qs);
                        },
                        Err(_) => {},
                    }
                    assert(question_models(out@.push(q)) =~= question_models(out@).push(q@));
                }
                out.push(q);
                at = next;
                i += 1;
            },
        }
    }
    proof {
        assert(question_models(out@) + Seq::<QuestionModel>::empty() =~= question_models(out@));
    }
    Ok((out, at))
}

/// Decodes `count` resource records from `pos` on.
pub fn read_answers(message: &[u8], pos: usize, count: u16) -> (r: Result<
    (Vec<Answer>, usize),
    DnsError,
>)
    ensures
        match answers_at(message@, pos as int, count as nat) {
            Ok((rs, next)) => r is Ok && answer_models(r->Ok_0.0@) == rs && r->Ok_0.1 == next
                && r->Ok_0.0@.len() == count && all_answers_wf(r->Ok_0.0@) && pos <= next && (
            count == 0 || next <= message@.len()),
            Err(e) => r == Err::<(Vec<Answer>, usize), DnsError>(e),
        },
{
    let mut out: Vec<Answer> = Vec::new();
    let mut at: usize = pos;
    let mut i: u16 = 0;
    proof {
        assert(answer_models(out@) =~= Seq::<AnswerModel>::empty());
        match answers_at(message@, pos as int, count as nat) {
            Ok((rs, next)) => {
                assert(Seq::<AnswerModel>::empty() + rs =~= rs);
            },
            Err(_) => {},
        }
    }
    while i < count
        invariant
            i <= count,
            out@.len() == i,
            all_answers_wf(out@),
            pos <= at,
            i == 0 || at <= message@.len(),
            answers_at(message@, pos as int, count as nat) == answers_after(
                answer_models(out@),
                answers_at(message@, at as int, (count - i) as nat),
            ),
        decreases count - i,
    {
        match Answer::decode(message, at) {
            Err(e) => {
                return Err(e);
            },
            Ok((a, next)) => {
                proof {
                    match answers_at(message@, next as int, (count - i - 1) as nat) {
                        Ok((rs, _)) => {
                            assert(answer_models(out@) + (seq![a@] + rs) =~= answer_models(
                                out@,
                            ).push(a@) + rs);
                        },
                        Err(_) => {},
                    }
                    assert(answer_models(out@.push(a)) =~= answer_models(out@).push(a@));
                }
                out.push(a);
                at = next;
                i += 1;
            },
        }
    }
    proof {
        assert(answer_models(out@) + Seq::<AnswerModel>::empty() =~= answer_models(out@));
    }
    Ok((out, at))
}

/// The number of bytes that the question at `pos` takes in the message:
/// the name as it stands there, and four bytes for type and class.
pub open spec fn question_size(msg: Seq<u8>, pos: int) -> int {
    name_wire_len(scan_labels(msg, pos, 0)->Ok_0.0) + 4
}

/// The number of bytes that the resource record at `pos` takes in the
/// message: the name as it stands there, ten bytes for type, class, time
/// to live and length, and as many bytes of payload as that length says.
pub open spec fn record_size(msg: Seq<u8>, pos: int) -> int {
    let n = name_wire_len(scan_labels(msg, pos, 0)->Ok_0.0);
    n + 10 + be16(msg[pos + n + 8], msg[pos + n + 9])
}

/// The number of bytes that `count` questions take from `pos` on.
pub open spec fn questions_size(msg: Seq<u8>, pos: int, count: nat) -> int
    decreases count,
{
    if count == 0 {
        0
    } else {
        question_size(msg, pos) + questions_size(
            msg,
            pos + question_size(msg, pos),
            (count - 1) as nat,
        )
    }
}

/// The number of bytes that `count` resource records take from `pos`
/// on.
pub open spec fn records_size(msg: Seq<u8>, pos: int, count: nat) -> int
    decreases count,
{
    if count == 0 {
        0
    } else {
        record_size(msg, pos) + records_size(msg, pos + record_size(msg, pos), (count - 1) as nat)
    }
}

/// Decoding a run of questions ends as many bytes behind its start as
/// the questions take.
pub proof fn lemma_questions_end(msg: Seq<u8>, pos: int, count: nat)
    requires
        questions_at(msg, pos, count) is Ok,
    ensures
        questions_at(msg, pos, count)->Ok_0.1 == pos + questions_size(msg, pos, count),
        questions_at(msg, pos, count)->Ok_0.0.len() == count,
    decreases count,
{
    if count > 0 {
        lemma_scan_shape(msg, pos, 0);
        let next = question_at(msg, pos)->Ok_0.1;
        lemma_questions_end(msg, next, (count - 1) as nat);
    }
}

/// Decoding a run of resource records ends as many bytes behind its
/// start as the records take.
pub proof fn lemma_records_end(msg: Seq<u8>, pos: int, count: nat)
    requires
        answers_at(msg, pos, count) is Ok,
    ensures
        answers_at(msg, pos, count)->Ok_0.1 == pos + records_size(msg, pos, count),
        answers_at(msg, pos, count)->Ok_0.0.len() == count,
    decreases count,
{
    if count > 0 {
        lemma_scan_shape(msg, pos, 0);
        let next = answer_at(msg, pos)->Ok_0.1;
        lemma_records_end(msg, next, (count - 1) as nat);
    }
}

/// Decoding a message ends behind the twelve bytes of the header and the
/// bytes of the four sections: the final cursor is twelve plus the sizes
/// of the questions, the answers, the authority records and the
/// additional records, each section starting where the one before ends.
/// Each section holds as many entries as the header counts.
pub proof fn lemma_message_end(msg: Seq<u8>)
    requires
        message_of(msg) is Ok,
    ensures
        ({
            let (qd, an, ns, ar) = counts_of(msg);
            let (m, end) = message_of(msg)->Ok_0;
            let q_size = questions_size(msg, HEADER_LEN as int, qd);
            let an_size = records_size(msg, HEADER_LEN + q_size, an);
            let ns_size = records_size(msg, HEADER_LEN + q_size + an_size, ns);
            let ar_size = records_size(msg, HEADER_LEN + q_size + an_size + ns_size, ar);
            &&& end == HEADER_LEN + q_size + an_size + ns_size + ar_size
            &&& m.questions.len() == qd
            &&& m.answers.len() == an
            &&& m.authorities.len() == ns
            &&& m.additionals.len() == ar
        }),
{
    let (qd, an, ns, ar) = counts_of(msg);
    lemma_questions_end(msg, HEADER_LEN as int, qd);
    let q_end = questions_at(msg, HEADER_LEN as int, qd)->Ok_0.1;
    lemma_records_end(msg, q_end, an);
    let an_end = answers_at(msg, q_end, an)->Ok_0.1;
    lemma_records_end(msg, an_end, ns);
    let ns_end = answers_at(msg, an_end, ns)->Ok_0.1;
    lemma_records_end(msg, ns_end, ar);
}

} // verus!
