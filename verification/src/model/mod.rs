//! The data model: binary trees kept in an arena, and the labels of their
//! leaves.

pub mod annotation;
pub mod branch_length;
pub mod compact_tree_builder;
pub mod label_resolver;
pub mod label_storage;
pub mod leaf_label_map;
pub mod shape;
pub mod simple_tree_builder;
pub mod translation;
pub mod traversal;
pub mod tree;
pub mod tree_builder;
pub mod vertex;
