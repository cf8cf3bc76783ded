//! Helpers: byte handling, string formatting and log redaction.

pub mod bytes;
pub mod text;
pub mod redact;
