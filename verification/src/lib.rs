//! An unparser for a Python-like language: it writes a syntax tree back as
//! source text.
//!
//! `ast` holds the nodes of the tree. `visitors::printer` writes them, and
//! `visitors::rendering` says what is written for each node. What holds of
//! the text of every tree stands in `visitors::laws`, which speaks of
//! parentheses and of the sections of a `try` statement, in
//! `visitors::layout`, which speaks of lines and their indentation, and in
//! `visitors::plain`, which speaks of names without line breaks. `text`
//! holds what all of them need of plain text.

pub mod ast;
pub mod text;
pub mod visitors;
