//! What the command line asks for, and the two steps of a lookup that
//! need no socket: making the query and reading the response.

use vstd::prelude::*;
use crate::client::{accept_response, ClientError};
use crate::dns::question::{question_of, question_wire, QuestionModel};
use crate::parsing::{Query, Response};
use crate::parsing::message::message_of;
use crate::ressources::DnsServer;
use crate::wire::error::DnsError;
use crate::wire::header::{query_header, Opcode};
use crate::wire::rtype::{text_is, type_of_keyword, RecordType};

verus! {

/// A name server by its keyword.
#[derive(Debug, Clone, Copy, PartialEq, Eq, Structural)]
pub enum DNSSocket {
    GOOGLE,
    CLOUDFLARE,
    QUAD9,
}

/// The name server that a keyword names; the first of them where it
/// names none.
pub open spec fn socket_of_keyword(text: Seq<char>) -> DNSSocket {
    if text == "cloudflare"@ {
        DNSSocket::CLOUDFLARE
    } else if text == "quad9"@ {
        DNSSocket::QUAD9
    } else {
        DNSSocket::GOOGLE
    }
}

impl DNSSocket {
    /// The name server that a keyword names.
    pub fn from_string(server: &String) -> (r: Self)
        ensures
            r == socket_of_keyword(server@),
    {
        if text_is(server, "cloudflare") {
            DNSSocket::CLOUDFLARE
        } else if text_is(server, "quad9") {
            DNSSocket::QUAD9
        } else {
            DNSSocket::GOOGLE
        }
    }

    /// The server that the keyword stands for.
    pub fn server(&self) -> (r: DnsServer)
        ensures
            r == (match self {
                DNSSocket::GOOGLE => DnsServer::GOOGLE,
                DNSSocket::CLOUDFLARE => DnsServer::CLOUDFLARE,
                DNSSocket::QUAD9 => DnsServer::QUAD9,
            }),
    {
        match self {
            DNSSocket::GOOGLE => DnsServer::GOOGLE,
            DNSSocket::CLOUDFLARE => DnsServer::CLOUDFLARE,
            DNSSocket::QUAD9 => DnsServer::QUAD9,
        }
    }
}

/// The client that exchanges one datagram with a name server. The
/// exchange is the caller's; what is made of its outcome is decided
/// here.
#[derive(Debug, Clone, Copy)]
pub struct UDPClient {}

impl UDPClient {
    /// What came back, given the receive buffer and the number of bytes
    /// that were received into it: nothing received is no response,
    /// fewer than twelve bytes are no message, and else the response is
    /// the bytes received.
    pub fn received(&self, buf: &Vec<u8>, length: usize) -> (r: Result<Vec<u8>, ClientError>)
        requires
            length <= buf@.len(),
        ensures
            length == 0 ==> r is Err && r->Err_0 == ClientError::NoResponse,
            0 < length < 12 ==> r is Err && r->Err_0 == ClientError::ParsingError(
                DnsError::ShortHeader,
            ),
            length >= 12 ==> r is Ok && r->Ok_0@ == buf@.take(length as int),
    {
        accept_response(buf.as_slice(), length)
    }
}

/// What was given on the command line.
pub struct Flags {
    /// The name to ask for.
    pub uri: String,
    /// The keyword of the name server to ask.
    pub server: String,
    /// The keyword of the record type to ask for.
    pub record: String,
    /// Whether recursion is asked for.
    pub rd: bool,
    /// Whether the query and the headers are shown as well.
    pub verbose: bool,
}

impl Flags {
    /// The record type that was asked for; `A` where the keyword names
    /// none.
    pub fn get_rtype(&self) -> (r: RecordType)
        ensures
            r == type_of_keyword(self.record@),
    {
        RecordType::from_string(self.record.clone())
    }

    /// The name server that was asked for.
    pub fn get_server(&self) -> (r: DNSSocket)
        ensures
            r == socket_of_keyword(self.server@),
    {
        DNSSocket::from_string(&self.server)
    }
}

/// A lookup as the command line asks for it.
pub struct CLI {
    pub flags: Flags,
}

impl CLI {
    pub fn new(flags: Flags) -> (r: Self)
        ensures
            r.flags == flags,
    {
        Self { flags }
    }

    /// The query that the command line asks for, under the transaction
    /// id `id`.
    pub fn query(&self, id: u16) -> (r: Result<Query, DnsError>)
        ensures
            match question_of(self.flags.uri@, Some(type_of_keyword(self.flags.record@)), None) {
                Ok((ls, t, c)) => r is Ok && r->Ok_0.wf() && r->Ok_0.question@ == (QuestionModel {
                    name: ls,
                    q_type: t,
                    q_class: c,
                }) && r->Ok_0.header.wire() == query_header(
                    id,
                    Opcode::StandardQuery,
                    self.flags.rd,
                    1,
                ),
                Err(e) => r == Err::<Query, DnsError>(e),
            },
    {
        Query::new(id, self.flags.uri.clone(), self.flags.get_rtype(), self.flags.rd)
    }

    /// The query that the command line asks for, under the transaction
    /// id `id`, and the bytes it is sent as: the header, then the
    /// question.
    pub fn request(&self, id: u16) -> (r: Result<(Query, Vec<u8>), DnsError>)
        ensures
            match question_of(self.flags.uri@, Some(type_of_keyword(self.flags.record@)), None) {
                Ok((ls, t, c)) => r is Ok && r->Ok_0.0.wf() && r->Ok_0.0.question@
                    == (QuestionModel { name: ls, q_type: t, q_class: c }) && r->Ok_0.1@
                    == query_header(id, Opcode::StandardQuery, self.flags.rd, 1) + question_wire(
                    ls,
                    t,
                    c,
                ),
                Err(e) => r == Err::<(Query, Vec<u8>), DnsError>(e),
            },
    {
        match self.query(id) {
            Ok(q) => {
                let bytes = q.to_bytes();
                Ok((q, bytes))
            },
            Err(e) => Err(e),
        }
    }

    /// Decodes the bytes that came back.
    pub fn read_response(&self, bytes: &Vec<u8>) -> (r: Result<Response, DnsError>)
        ensures
            match message_of(bytes@) {
                Ok((m, _)) => r is Ok && r->Ok_0@ == m && r->Ok_0.bytes@ == bytes@
                    && r->Ok_0.wf(),
                Err(e) => r == Err::<Response, DnsError>(e),
            },
    {
        Response::decode(bytes)
    }
}

} // verus!
