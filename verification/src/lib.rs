//! A plain-text accounting journal: its grammar, and the checks that its
//! transactions balance.

pub mod conversion;
pub mod decimal;
pub mod emoji;
pub mod io;
pub mod journal;
pub mod parser;
pub mod text;
