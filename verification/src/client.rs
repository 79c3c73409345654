//! What a client decides around the exchange with a name server: the
//! bytes it sends, and what it makes of the bytes that came back. The
//! exchange itself is the caller's.

use vstd::prelude::*;
use vstd::std_specs::convert::FromSpecImpl;
use crate::wire::error::DnsError;
use crate::wire::header::{
    error_of, header_rcode_bits, header_tc, query_header, HeaderReadWriter, MessageHeader, Opcode,
};
use crate::wire::question::{question_bytes, Question};

verus! {

/// The number of bytes a client accepts in one response.
pub const DEFAULT_CLIENT_BUF_SIZE: usize = 4096;

/// The error of an exchange over a socket.
#[verifier::external_type_specification]
#[verifier::external_body]
pub struct ExIoError(std::io::Error);

/// Why a query got no usable response.
#[derive(Debug)]
pub enum ClientError {
    /// Nothing came back in time.
    NoResponse,
    /// The exchange itself failed.
    IoError(std::io::Error),
    /// What was to be sent, or what came back, is no message.
    ParsingError(DnsError),
}

impl From<std::io::Error> for ClientError {
    fn from(value: std::io::Error) -> (r: ClientError) {
        ClientError::IoError(value)
    }
}

impl FromSpecImpl<std::io::Error> for ClientError {
    open spec fn obeys_from_spec() -> bool {
        true
    }

    open spec fn from_spec(value: std::io::Error) -> ClientError {
        ClientError::IoError(value)
    }
}

impl From<DnsError> for ClientError {
    fn from(value: DnsError) -> (r: ClientError) {
        ClientError::ParsingError(value)
    }
}

impl FromSpecImpl<DnsError> for ClientError {
    open spec fn obeys_from_spec() -> bool {
        true
    }

    open spec fn from_spec(value: DnsError) -> ClientError {
        ClientError::ParsingError(value)
    }
}

/// The bytes of a standard query for one question, with recursion asked
/// for.
pub open spec fn standard_query_bytes(id: u16, q: Question) -> Result<Seq<u8>, DnsError> {
    match question_bytes(q.name@, q.qtype, q.qclass) {
        Ok(b) => Ok(query_header(id, Opcode::StandardQuery, true, 1) + b),
        Err(e) => Err(e),
    }
}

/// The bytes to send for a standard query: the header with the given
/// transaction id, recursion asked for and one question counted, then
/// the question.
pub fn standard_query<'a>(id: u16, q: &Question<'a>) -> (r: Result<Vec<u8>, ClientError>)
    ensures
        match standard_query_bytes(id, *q) {
            Ok(b) => r is Ok && r->Ok_0@ == b,
            Err(e) => r is Err && r->Err_0 == ClientError::ParsingError(e),
        },
{
    let hrw = HeaderReadWriter::new();
    let header = hrw.encode_query(id, Opcode::StandardQuery, true, 1);
    match q.try_to_bytes() {
        Err(e) => Err(ClientError::ParsingError(e)),
        Ok(q_bytes) => {
            let mut out: Vec<u8> = Vec::new();
            let mut i: usize = 0;
            while i < 12
                invariant
                    i <= 12,
                    out@ == header@.take(i as int),
                decreases 12 - i,
            {
                out.push(header.0[i]);
                proof {
                    assert(header@.take(i + 1) =~= header@.take(i as int).push(header@[i as int]));
                }
                i += 1;
            }
            proof {
                assert(header@.take(12) =~= header@);
            }
            crate::utility::append_bytes(&mut out, &q_bytes);
            Ok(out)
        },
    }
}

/// The response in a receive buffer of which the first `received` bytes
/// were filled: those bytes, where they hold a header at least.
pub fn accept_response(buf: &[u8], received: usize) -> (r: Result<Vec<u8>, ClientError>)
    requires
        received <= buf@.len(),
    ensures
        received == 0 ==> r is Err && r->Err_0 == ClientError::NoResponse,
        0 < received < 12 ==> r is Err && r->Err_0 == ClientError::ParsingError(
            DnsError::ShortHeader,
        ),
        received >= 12 ==> r is Ok && r->Ok_0@ == buf@.take(received as int),
{
    if received == 0 {
        return Err(ClientError::NoResponse);
    }
    if received < 12 {
        return Err(ClientError::ParsingError(DnsError::ShortHeader));
    }
    let out = vstd::slice::slice_to_vec(vstd::slice::slice_subrange(buf, 0, received));
    assert(buf@.subrange(0, received as int) =~= buf@.take(received as int));
    Ok(out)
}

/// What the header of a response reports: the failure that the name
/// server names, before anything else; a response that was cut short;
/// or nothing.
pub open spec fn status_of(h: Seq<u8>) -> Option<DnsError> {
    match error_of(header_rcode_bits(h)) {
        Some(code) => Some(DnsError::QueryError(code)),
        None => if header_tc(h) {
            Some(DnsError::Truncated)
        } else {
            None
        },
    }
}

/// Tells what the header of a response reports: a failure of the query,
/// a truncated response, or nothing.
pub fn response_status(header: &MessageHeader) -> (r: Option<DnsError>)
    ensures
        r == status_of(header@),
{
    let hrw = HeaderReadWriter::new();
    match hrw.read_error(header) {
        Some(code) => Some(DnsError::from(code)),
        None => {
            if hrw.is_truncated(header) {
                Some(DnsError::Truncated)
            } else {
                None
            }
        },
    }
}

} // verus!
