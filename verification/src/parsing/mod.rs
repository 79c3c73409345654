//! Whole messages: the query that is sent, the response that comes
//! back, and the parser that walks a response from its first byte.

pub mod byte_stream_parser;
pub mod message;

use vstd::prelude::*;
use crate::dns::answer::{Answer, AnswerModel};
use crate::dns::header::Header;
use crate::dns::question::{question_of, question_wire, Question, QuestionModel};
use crate::parsing::byte_stream_parser::ByteStreamParser;
use crate::parsing::message::{message_of, MessageModel};
use crate::utility::copy_bytes;
use crate::wire::error::DnsError;
use crate::wire::header::{query_header, HeaderReadWriter, Opcode};
use crate::wire::rtype::RecordType;

verus! {

/// A query: a header and one question.
pub struct Query {
    pub header: Header,
    pub question: Question,
}

impl Query {
    /// The question is well formed.
    pub open spec fn wf(&self) -> bool {
        self.question.wf()
    }

    /// The standard query, under the transaction id `id`, for the
    /// records of type `r_type` of a dotted name, in the Internet class.
    /// Recursion is asked for where `rd` holds.
    pub fn new(id: u16, domain: String, r_type: RecordType, rd: bool) -> (r: Result<
        Self,
        DnsError,
    >)
        ensures
            match question_of(domain@, Some(r_type), None) {
                Ok((ls, t, c)) => r is Ok && r->Ok_0.wf() && r->Ok_0.question@ == (QuestionModel {
                    name: ls,
                    q_type: t,
                    q_class: c,
                }) && r->Ok_0.header.wire() == query_header(id, Opcode::StandardQuery, rd, 1)
                    && !r->Ok_0.question.q_name.compressed,
                Err(e) => r == Err::<Query, DnsError>(e),
            },
    {
        let header = Header::new_query(id, Some(rd));
        match Question::new(domain, Some(r_type), None) {
            Ok(question) => Ok(Query { header, question }),
            Err(e) => Err(e),
        }
    }

    /// The query as it is sent: the header, then the question.
    pub fn to_bytes(&self) -> (r: Vec<u8>)
        requires
            self.wf(),
        ensures
            r@ == self.header.wire() + question_wire(
                self.question.q_name@,
                self.question.q_type,
                self.question.q_class,
            ),
    {
        let mut res: Vec<u8> = self.header.to_bytes();
        let q = self.question.to_bytes();
        crate::utility::append_bytes(&mut res, &q);
        res
    }
}

/// The bytes of a standard query with one question: the header with the
/// given transaction id and, where asked for, the recursion-desired bit,
/// then the question.
pub fn encode_query(q: &Question, id: u16, rd: bool) -> (r: Vec<u8>)
    requires
        q.wf(),
    ensures
        r@ == query_header(id, Opcode::StandardQuery, rd, 1) + question_wire(
            q.q_name@,
            q.q_type,
            q.q_class,
        ),
{
    let header = HeaderReadWriter::new().encode_query(id, Opcode::StandardQuery, rd, 1);
    let mut res: Vec<u8> = Vec::new();
    let mut i: usize = 0;
    while i < 12
        invariant
            i <= 12,
            res@ == header@.take(i as int),
        decreases 12 - i,
    {
        res.push(header.0[i]);
        proof {
            assert(header@.take(i + 1) =~= header@.take(i as int).push(header@[i as int]));
        }
        i += 1;
    }
    proof {
        assert(header@.take(12) =~= header@);
    }
    let body = q.to_bytes();
    crate::utility::append_bytes(&mut res, &body);
    res
}

/// A decoded response: the bytes it was decoded from, the header, and
/// the four sections.
pub struct Response {
    pub bytes: Vec<u8>,
    pub header: Header,
    pub questions: Vec<Question>,
    pub answers: Vec<Answer>,
    pub authorities: Vec<Answer>,
    pub additionals: Vec<Answer>,
}

/// What each question of a sequence stands for.
pub open spec fn question_models(questions: Seq<Question>) -> Seq<QuestionModel> {
    questions.map_values(|q: Question| q@)
}

/// What each record of a sequence stands for.
pub open spec fn answer_models(answers: Seq<Answer>) -> Seq<AnswerModel> {
    answers.map_values(|a: Answer| a@)
}

/// Whether every question of a sequence is well formed, its name
/// holding literals only.
pub open spec fn all_questions_wf(questions: Seq<Question>) -> bool {
    forall|i: int|
        0 <= i < questions.len() ==> (#[trigger] questions[i]).wf() && !questions[i].q_name.compressed
}

/// Whether every record of a sequence is well formed, its names holding
/// literals only.
pub open spec fn all_answers_wf(answers: Seq<Answer>) -> bool {
    forall|i: int| 0 <= i < answers.len() ==> (#[trigger] answers[i]).wf()
}

impl View for Response {
    type V = MessageModel;

    open spec fn view(&self) -> MessageModel {
        MessageModel {
            header: self.header.wire(),
            questions: question_models(self.questions@),
            answers: answer_models(self.answers@),
            authorities: answer_models(self.authorities@),
            additionals: answer_models(self.additionals@),
        }
    }
}

impl Response {
    /// Every question and every record of the four sections is well
    /// formed, and every name in them holds literals only.
    pub open spec fn wf(&self) -> bool {
        &&& all_questions_wf(self.questions@)
        &&& all_answers_wf(self.answers@)
        &&& all_answers_wf(self.authorities@)
        &&& all_answers_wf(self.additionals@)
    }

    /// A response with one question and its answers, and nothing in the
    /// other two sections.
    pub fn new(bytes: Vec<u8>, header: Header, question: Question, answers: Vec<Answer>) -> (r:
        Self)
        ensures
            r.bytes == bytes,
            r.header == header,
            r.questions@ == seq![question],
            r.answers == answers,
            r.authorities@.len() == 0,
            r.additionals@.len() == 0,
    {
        let mut questions: Vec<Question> = Vec::new();
        questions.push(question);
        assert(questions@ =~= seq![question]);
        Self {
            bytes,
            header,
            questions,
            answers,
            authorities: Vec::new(),
            additionals: Vec::new(),
        }
    }

    /// Decodes a whole message: the header, then as many questions,
    /// answers, authority records and additional records as the header
    /// counts. What follows the last record is left alone.
    pub fn decode(bytes: &Vec<u8>) -> (r: Result<Self, DnsError>)
        ensures
            match message_of(bytes@) {
                Ok((m, _)) => r is Ok && r->Ok_0@ == m && r->Ok_0.bytes@ == bytes@
                    && r->Ok_0.wf(),
                Err(e) => r == Err::<Response, DnsError>(e),
            },
    {
        let mut parser = ByteStreamParser::new(bytes);
        parser.parse_response()
    }

    /// A copy of the bytes the response was decoded from.
    pub fn get_bytes(&self) -> (r: Vec<u8>)
        ensures
            r@ == self.bytes@,
    {
        copy_bytes(&self.bytes)
    }
}

} // verus!
