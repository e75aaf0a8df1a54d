//! A modal line editor core: one text buffer with a cursor, a scrolling
//! viewport, snapshot-based undo and redo, and a key-driven mode state
//! machine.
//!
//! The buffer and the session are specified as mathematical values in
//! `file::model` and `text_editor`, and the executable types are verified
//! against them. The library does no input or output: the caller hands in
//! key events and the content of the file, and writes out the text that the
//! library renders. What the library takes on trust are the clock, the
//! control sequences of the `termion` crate, and `String::push`.

pub mod arguments;
pub mod clock;
pub mod file;
pub mod geometry;
pub mod terminal;
pub mod text;
pub mod text_editor;
