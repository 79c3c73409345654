//! The typed vocabulary of the wire format: record types and classes,
//! the twelve-byte header with its field reader and writer, checked
//! dotted names and their labels, the question of a query, and the
//! failures that the codec can end in.

pub mod class;
pub mod error;
pub mod header;
pub mod name;
pub mod question;
pub mod rtype;
