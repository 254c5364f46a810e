//! What the pages of the web server show.
pub mod format;
pub mod names;
pub mod page;
pub mod search;
pub mod state;
