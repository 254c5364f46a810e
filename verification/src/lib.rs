//! The logic of a small log server: what it reads of the messages that it gets, what it
//! keeps of them, how it searches them and what it shows.
pub mod bytes;
pub mod clock;
pub mod fieldmap;
pub mod gelf;
pub mod ingest;
pub mod json;
pub mod laws;
pub mod number;
pub mod query;
pub mod quickwit;
pub mod schema;
pub mod storage;
pub mod syslog;
pub mod text;
pub mod time;
pub mod toshi;
pub mod web;
