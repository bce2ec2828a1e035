//! Walks over the tree.

pub mod laws;
pub mod layout;
pub mod plain;
pub mod printer;
pub mod rendering;
