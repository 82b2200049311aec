//! A minimal terminal text editor core: a line buffer with a cursor,
//! a two-mode key dispatcher, a keyword highlighter, and the text
//! serialization used to save and load files. All editing logic is
//! verified; terminal and file I/O live outside this crate.

pub mod editor;
pub mod highlight;
pub mod persist;
pub mod render;
