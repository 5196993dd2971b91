//! A text-mode display writer for the 80 x 25 character grid of a VGA text buffer.
//!
//! The writer keeps a cursor column on the bottom row, wraps to a new line when
//! that row is full, and scrolls the whole grid up by one row on every new line.
//! Every cell of the grid is read and written through volatile accesses.
pub mod color;
pub mod buffer;
pub mod writer;
