//! Detection of archive and compression formats from a file's name and
//! leading bytes, the decisions taken while extracting them, and a bounded
//! block relay that turns a push-style decoder into a pull-style byte source.
pub mod codec;
pub mod extract;
pub mod format;
pub mod laws;
pub mod operation;
pub mod relay;
pub mod text;
