//! Byte-level cursors and the scanning primitives built on them.

pub mod byte_parser;
pub mod byte_source;
pub mod in_memory_byte_source;
pub mod number;
pub mod parsing_error;
pub mod scan;
pub mod utils;
