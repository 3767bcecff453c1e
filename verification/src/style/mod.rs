//! Styles: what elements look like, and the keys and trees that hold them.
pub mod color;
pub mod common;
pub mod key;
pub mod tree;
