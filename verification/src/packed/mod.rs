//! Message parts in fixed-size form: two-octet rows, labels in
//! sixty-four-byte buffers, and the header and flag word read from rows.

pub mod bits;
pub mod data;
pub mod flags;
pub mod header;
pub mod label;
pub mod qclass;
pub mod qtypes;
pub mod question;
