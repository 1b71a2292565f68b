//! Bridges a race-timing decoder to many feed subscribers: line and JSON
//! decoding into one canonical passing record, the decoder session's
//! decisions, and a bounded fan-out hub.

pub mod decoder;
pub mod hub;
pub mod json_ingest;
pub mod passing;
pub mod session;
pub mod text;
