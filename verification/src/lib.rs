//! A verified core for a small to-do list manager.
//!
//! Tasks (a name and a completion flag) are kept as a JSON array in a single
//! text document.  This crate holds the verified logic: the codec between the
//! document text and an ordered task list, the decimal number parsing and
//! formatting used by the menu, and the four operations (list, add, toggle
//! completion, delete).  Reading and writing the file and the interactive
//! prompt loop live outside, and hand this crate plain strings.

pub mod codec;
pub mod num;
pub mod ops;
pub mod task;
pub mod text;
