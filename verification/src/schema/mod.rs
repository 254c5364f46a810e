//! Documents: their fields, and how messages become documents.
pub mod attr;
pub mod column;
pub mod convert;
pub mod display;
pub mod document;
pub mod extract;
pub mod generate;
