//! What holds of the library as a whole.
pub mod alphabet;
pub mod chains;
pub mod columns;
pub mod derive;
pub mod display;
pub mod engine;
pub mod gelf;
pub mod numbers;
pub mod query;
pub mod recent;
pub mod schema;
pub mod syslog;
pub mod terms;
pub mod toshi;
pub mod web;
