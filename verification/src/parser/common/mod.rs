//! Rules that more than one construct of the journal shares.

pub mod date;
