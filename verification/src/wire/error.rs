//! Failures of the message codec.

use vstd::prelude::*;
use crate::wire::header::ErrorCode;
use crate::wire::name::NameError;

verus! {

/// Why a message, or a part of one, was not decoded or encoded.
#[derive(Debug, Clone, Copy, PartialEq, Eq, Structural)]
pub enum DnsError {
    /// The query/response bit read as something other than 0 or 1.
    InvalidQR(u8),
    /// A code that is no record type, or a question-only type where a
    /// record's type is asked for.
    InvalidType(u16),
    /// A code that names no question type.
    InvalidQType(u16),
    /// A code that is no record class, or the wildcard class where a
    /// record's class is asked for.
    InvalidClass(u16),
    /// A code that names no question class.
    InvalidQClass(u16),
    /// Fewer than twelve bytes where a header is expected.
    ShortHeader,
    /// The input ends inside a question or a resource record.
    UnexpectedEnd,
    /// A payload does not fill the length its record announces.
    RdataLengthMismatch,
    /// The response's truncation bit is set.
    Truncated,
    /// The name server answered with a failure code.
    QueryError(ErrorCode),
    /// A domain name could not be encoded or decoded.
    InvalidDomainName(NameError),
}

} // verus!
