//! Block structured files that hold a taxon list and trees.

pub mod blocks;
pub mod burnin;
pub mod defs;
pub mod grammar;
pub mod parser;
