//! Capture and chronological merge of two timestamped, line-oriented logs.
//!
//! The crate holds the rules of a diagnostic session: how a line's leading
//! timestamp is read, which lines a capture task records, how two recorded
//! logs are interleaved into one, and how a session names its files. Reading
//! and writing the streams themselves is left to the caller, which is driven
//! step by step by the state machines defined here.

pub mod capture;
pub mod instant;
pub mod laws;
pub mod line;
pub mod merge;
pub mod session;
pub mod stamp;
pub mod text;
