//! The Toshi side: documents, and the index that they go to.
pub mod schema;
pub mod index;
