//! Parsing of phylogenetic tree files in the Newick and NEXUS formats.
//!
//! The crate reads single trees written as nested parentheses and block
//! structured files that hold a taxon list, an optional translation table and
//! any number of trees. Every function states its behaviour as a contract over
//! byte sequences and arena models.

pub mod model;
pub mod newick;
pub mod nexus;
pub mod parser;
