//! What the journal is read from.

pub mod file;
