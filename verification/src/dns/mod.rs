//! Owned message parts: header and flags, names built from labels,
//! questions, resource records and their payloads, with what holds of
//! their codecs as a whole.

pub mod answer;
pub mod header;
pub mod header_flags;
pub mod name;
pub mod name_laws;
pub mod name_lemmas;
pub mod name_model;
pub mod question;
pub mod rdata;
pub mod record;
pub mod record_laws;
