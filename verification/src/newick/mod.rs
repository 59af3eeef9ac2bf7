//! Trees written as nested parentheses.

pub mod defs;
pub mod grammar;
pub mod parser;
pub mod writer;
