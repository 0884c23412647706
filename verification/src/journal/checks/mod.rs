//! The checks that a journal has to pass.

pub mod transactions;
