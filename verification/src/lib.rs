//! A layout engine for directory listings.
//!
//! The engine turns an ordered sequence of directory entries into one of four
//! textual layouts — a packed grid, an aligned table, a branch-drawn tree, or
//! a plain list — for a given terminal width. Every renderer is a pure
//! function from its inputs to the output text, and each carries a contract
//! that pins the output down exactly.

pub mod digits;
pub mod entry;
pub mod grid;
pub mod list;
pub mod render;
pub mod table;
pub mod text;
pub mod tree;
pub mod util;
