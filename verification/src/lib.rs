//! Small demonstrations of language basics, written as functions that return
//! the lines a demonstration writes instead of printing them.
//!
//! Every demonstration is a function from plain values to the text of its
//! output, and its contract states that text exactly. Printing is left to the
//! caller.

pub mod conditional;
pub mod constants;
pub mod decimal;
pub mod lines;
pub mod mutability;
pub mod ownership;
pub mod repetition;
pub mod sizing;
