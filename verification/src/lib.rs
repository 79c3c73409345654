//! A client-side DNS message codec.
//!
//! - `utility` and `text`: bit and byte helpers, big-endian numbers, and
//!   the text of numbers.
//! - `wire`: the vocabulary of the wire format, that is record types and
//!   classes, the twelve-byte header with the reader and writer of its
//!   fields, checked dotted names, and the failures of the codec.
//! - `dns`: owned message parts, that is header and flags, names with
//!   backward-pointer compression, questions, resource records and their
//!   payloads, each with its encoder and decoder.
//! - `parsing`: whole messages, and the parser that walks a response with
//!   a cursor.
//! - `packed`: message parts in fixed-size form.
//! - `client`, `cli` and `ressources`: what a lookup decides before and
//!   after the exchange with a name server, and the name servers it can
//!   go to. The exchange itself is left to the caller.
//! - `error`: the failures of a whole lookup.

pub mod cli;
pub mod client;
pub mod dns;
pub mod error;
pub mod packed;
pub mod parsing;
pub mod ressources;
pub mod text;
pub mod utility;
pub mod wire;
