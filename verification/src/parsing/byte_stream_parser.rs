//! A parser that walks a message with a cursor.

use vstd::prelude::*;
use crate::dns::answer::{answer_at, Answer};
use crate::dns::header::{Header, HEADER_LEN};
use crate::dns::name::Name;
use crate::dns::name_model::scan_name;
use crate::dns::question::{question_at, Question};
use crate::parsing::{all_answers_wf, answer_models, Response};
use crate::parsing::message::{answers_at, counts_of, message_of, read_answers, read_questions};
use crate::wire::error::DnsError;
use crate::wire::name::NameError;

verus! {

/// A borrowed run of bytes.
#[derive(Clone, Copy)]
pub struct ByteStream<'slice> {
    pub data: &'slice [u8],
}

impl<'slice> View for ByteStream<'slice> {
    type V = Seq<u8>;

    open spec fn view(&self) -> Seq<u8> {
        self.data@
    }
}

impl<'slice> ByteStream<'slice> {
    pub fn new(bytes: &'slice Vec<u8>) -> (r: ByteStream<'slice>)
        ensures
            r@ == bytes@,
    {
        ByteStream { data: bytes.as_slice() }
    }

    pub fn copy_bytes(&self) -> (r: Vec<u8>)
        ensures
            r@ == self@,
    {
        vstd::slice::slice_to_vec(self.data)
    }

    pub fn len(&self) -> (r: usize)
        ensures
            r == self@.len(),
    {
        self.data.len()
    }

    /// An iterator over the bytes, from the first on.
    pub fn get_iter(&self) -> (r: std::slice::Iter<'slice, u8>)
        ensures
            r == vstd::std_specs::slice::spec_slice_iter(self.data),
    {
        self.data.iter()
    }
}

/// A message and a cursor into it. Every read starts at the cursor and
/// moves it behind what was read; a read that fails leaves it in place.
pub struct ByteStreamParser<'slice> {
    pub data: ByteStream<'slice>,
    pub curr_offset: usize,
}

impl<'slice> ByteStreamParser<'slice> {
    /// The cursor lies inside the message or right behind it.
    pub open spec fn wf(&self) -> bool {
        self.curr_offset <= self.data@.len()
    }

    /// The bytes of the message.
    pub open spec fn bytes(&self) -> Seq<u8> {
        self.data@
    }

    /// The number of bytes from the cursor to the end.
    pub open spec fn remaining(&self) -> int {
        self.bytes().len() - self.curr_offset
    }

    /// The `n` bytes of the message from the cursor on.
    pub open spec fn next_bytes(&self, n: int) -> Seq<u8> {
        self.bytes().subrange(self.curr_offset as int, self.curr_offset + n)
    }

    pub fn new(data: &'slice Vec<u8>) -> (r: Self)
        ensures
            r.wf(),
            r.bytes() == data@,
            r.curr_offset == 0,
    {
        Self { data: ByteStream::new(data), curr_offset: 0 }
    }

    /// Puts the cursor back to the first byte.
    pub fn reset_stream(&mut self)
        ensures
            final(self).data == old(self).data,
            final(self).curr_offset == 0,
            final(self).wf(),
    {
        self.curr_offset = 0;
    }

    /// The number of bytes from the cursor to the end.
    pub fn remaining_stream_len(&self) -> (r: usize)
        requires
            self.wf(),
        ensures
            r == self.remaining(),
    {
        self.data.len() - self.curr_offset
    }

    /// Takes the next `n` bytes. Where fewer are left, none is taken.
    pub fn pop_n_from_stream(&mut self, n: usize) -> (r: Result<Vec<u8>, DnsError>)
        requires
            old(self).wf(),
        ensures
            final(self).data == old(self).data,
            final(self).wf(),
            old(self).remaining() < n ==> r == Err::<Vec<u8>, DnsError>(DnsError::UnexpectedEnd)
                && final(self).curr_offset == old(self).curr_offset,
            old(self).remaining() >= n ==> r is Ok && r->Ok_0@ == old(self).next_bytes(n as int)
                && final(self).curr_offset == old(self).curr_offset + n,
    {
        let total: usize = self.data.len();
        if total - self.curr_offset < n {
            return Err(DnsError::UnexpectedEnd);
        }
        let start: usize = self.curr_offset;
        let res = vstd::slice::slice_to_vec(
            vstd::slice::slice_subrange(self.data.data, start, start + n),
        );
        self.curr_offset = start + n;
        Ok(res)
    }

    /// Puts the cursor at `offset`. An offset behind the end of the
    /// message puts it back to the first byte.
    pub fn set_stream_to_offset(&mut self, offset: usize)
        ensures
            final(self).data == old(self).data,
            final(self).wf(),
            final(self).curr_offset == (if offset <= old(self).bytes().len() {
                offset
            } else {
                0
            }),
    {
        if offset <= self.data.len() {
            self.curr_offset = offset;
        } else {
            self.curr_offset = 0;
        }
    }

    /// Takes the next `size` bytes. Where fewer are left, none is taken.
    pub fn take_stream_slice(&mut self, size: usize) -> (r: Result<Vec<u8>, DnsError>)
        requires
            old(self).wf(),
        ensures
            final(self).data == old(self).data,
            final(self).wf(),
            old(self).remaining() < size ==> r == Err::<Vec<u8>, DnsError>(
                DnsError::UnexpectedEnd,
            ) && final(self).curr_offset == old(self).curr_offset,
            old(self).remaining() >= size ==> r is Ok && r->Ok_0@ == old(self).next_bytes(
                size as int,
            ) && final(self).curr_offset == old(self).curr_offset + size,
    {
        self.pop_n_from_stream(size)
    }

    /// Reads the header from the first twelve bytes, wherever the cursor
    /// stands, and puts the cursor behind them. A message of fewer bytes
    /// has no header; the cursor is then at the first byte.
    pub fn parse_dns_header(&mut self) -> (r: Result<Header, DnsError>)
        ensures
            final(self).data == old(self).data,
            final(self).wf(),
            old(self).bytes().len() < HEADER_LEN ==> r == Err::<Header, DnsError>(
                DnsError::ShortHeader,
            ) && final(self).curr_offset == 0,
            old(self).bytes().len() >= HEADER_LEN ==> r is Ok && r->Ok_0.wire() == old(
                self,
            ).bytes().take(HEADER_LEN as int) && final(self).curr_offset == HEADER_LEN,
    {
        self.reset_stream();
        match Header::read(self.data.data) {
            Ok(h) => {
                self.curr_offset = HEADER_LEN;
                Ok(h)
            },
            Err(e) => Err(e),
        }
    }

    /// Reads the name at the cursor without following a pointer, and
    /// puts the cursor behind the name's bytes. A pointer that ends the
    /// name has to point before itself.
    pub fn parse_name(&mut self) -> (r: Result<Name, NameError>)
        ensures
            final(self).data == old(self).data,
            match scan_name(old(self).bytes(), old(self).curr_offset as int) {
                Ok((ls, next)) => r is Ok && r->Ok_0@ == ls && r->Ok_0.wf()
                    && final(self).curr_offset == next && final(self).wf(),
                Err(e) => r == Err::<Name, NameError>(e)
                    && final(self).curr_offset == old(self).curr_offset,
            },
    {
        match Name::read(self.data.data, self.curr_offset) {
            Ok((name, next)) => {
                self.curr_offset = next;
                Ok(name)
            },
            Err(e) => Err(e),
        }
    }

    /// Takes the next two bytes. Where fewer are left, none is taken.
    pub fn take_row(&mut self) -> (r: Result<[u8; 2], DnsError>)
        requires
            old(self).wf(),
        ensures
            final(self).data == old(self).data,
            final(self).wf(),
            old(self).remaining() < 2 ==> r == Err::<[u8; 2], DnsError>(DnsError::UnexpectedEnd)
                && final(self).curr_offset == old(self).curr_offset,
            old(self).remaining() >= 2 ==> r is Ok && r->Ok_0@ == old(self).next_bytes(2)
                && final(self).curr_offset == old(self).curr_offset + 2,
    {
        if self.remaining_stream_len() < 2 {
            return Err(DnsError::UnexpectedEnd);
        }
        let at: usize = self.curr_offset;
        let buf: [u8; 2] = [self.data.data[at], self.data.data[at + 1]];
        assert(buf@ =~= self.bytes().subrange(at as int, at + 2));
        self.curr_offset = at + 2;
        Ok(buf)
    }

    /// Decodes the question at the cursor and puts the cursor behind it.
    pub fn parse_question(&mut self) -> (r: Result<Question, DnsError>)
        ensures
            final(self).data == old(self).data,
            match question_at(old(self).bytes(), old(self).curr_offset as int) {
                Ok((q, next)) => r is Ok && r->Ok_0@ == q && r->Ok_0.wf()
                    && !r->Ok_0.q_name.compressed && final(self).curr_offset == next
                    && final(self).wf(),
                Err(e) => r == Err::<Question, DnsError>(e)
                    && final(self).curr_offset == old(self).curr_offset,
            },
    {
        match Question::decode(self.data.data, self.curr_offset) {
            Ok((q, next)) => {
                self.curr_offset = next;
                Ok(q)
            },
            Err(e) => Err(e),
        }
    }

    /// Decodes the resource record at the cursor and puts the cursor
    /// behind it.
    pub fn parse_answer(&mut self) -> (r: Result<Answer, DnsError>)
        ensures
            final(self).data == old(self).data,
            match answer_at(old(self).bytes(), old(self).curr_offset as int) {
                Ok((a, next)) => r is Ok && r->Ok_0@ == a && r->Ok_0.wf()
                    && final(self).curr_offset == next && final(self).wf(),
                Err(e) => r == Err::<Answer, DnsError>(e)
                    && final(self).curr_offset == old(self).curr_offset,
            },
    {
        match Answer::decode(self.data.data, self.curr_offset) {
            Ok((a, next)) => {
                self.curr_offset = next;
                Ok(a)
            },
            Err(e) => Err(e),
        }
    }

    /// Decodes `r_count` resource records from the cursor on and puts
    /// the cursor behind the last.
    pub fn parse_answers(&mut self, r_count: u16) -> (r: Result<Vec<Answer>, DnsError>)
        requires
            old(self).wf(),
        ensures
            final(self).data == old(self).data,
            final(self).wf(),
            match answers_at(old(self).bytes(), old(self).curr_offset as int, r_count as nat) {
                Ok((rs, next)) => r is Ok && answer_models(r->Ok_0@) == rs
                    && r->Ok_0@.len() == r_count && all_answers_wf(r->Ok_0@)
                    && final(self).curr_offset == next,
                Err(e) => r == Err::<Vec<Answer>, DnsError>(e)
                    && final(self).curr_offset == old(self).curr_offset,
            },
    {
        match read_answers(self.data.data, self.curr_offset, r_count) {
            Ok((answers, next)) => {
                self.curr_offset = next;
                Ok(answers)
            },
            Err(e) => Err(e),
        }
    }

    /// Decodes the whole message, from its first byte, and puts the
    /// cursor behind the last record. Each section holds as many entries
    /// as the header counts.
    pub fn parse_response(&mut self) -> (r: Result<Response, DnsError>)
        ensures
            final(self).data == old(self).data,
            final(self).wf(),
            match message_of(old(self).bytes()) {
                Ok((m, end)) => r is Ok && final(self).curr_offset == end && r->Ok_0@ == m
                    && r->Ok_0.wf() && r->Ok_0.bytes@ == old(self).bytes()
                    && r->Ok_0.questions@.len()
                    == counts_of(old(self).bytes()).0 && r->Ok_0.answers@.len() == counts_of(
                    old(self).bytes(),
                ).1 && r->Ok_0.authorities@.len() == counts_of(old(self).bytes()).2
                    && r->Ok_0.additionals@.len() == counts_of(old(self).bytes()).3,
                Err(e) => r == Err::<Response, DnsError>(e) && final(self).curr_offset == 0,
            },
    {
        self.reset_stream();
        let message: &[u8] = self.data.data;
        let header = match Header::read(message) {
            Ok(h) => h,
            Err(e) => {
                return Err(e);
            },
        };
        proof {
            let w = message@.take(HEADER_LEN as int);
            assert(header.wire() == w);
            assert(header.wire()[4] == message@[4] && header.wire()[5] == message@[5]);
            assert(header.wire()[6] == message@[6] && header.wire()[7] == message@[7]);
            assert(header.wire()[8] == message@[8] && header.wire()[9] == message@[9]);
            assert(header.wire()[10] == message@[10] && header.wire()[11] == message@[11]);
        }
        let (questions, q_end) = match read_questions(message, HEADER_LEN, header.q_count()) {
            Ok(x) => x,
            Err(e) => {
                return Err(e);
            },
        };
        let (answers, an_end) = match read_answers(message, q_end, header.an_count()) {
            Ok(x) => x,
            Err(e) => {
                return Err(e);
            },
        };
        let (authorities, ns_end) = match read_answers(message, an_end, header.ns_count()) {
            Ok(x) => x,
            Err(e) => {
                return Err(e);
            },
        };
        let (additionals, ar_end) = match read_answers(message, ns_end, header.ar_count()) {
            Ok(x) => x,
            Err(e) => {
                return Err(e);
            },
        };
        self.curr_offset = ar_end;
        Ok(
            Response {
                bytes: self.data.copy_bytes(),
                header,
                questions,
                answers,
                authorities,
                additionals,
            },
        )
    }
}

} // verus!
