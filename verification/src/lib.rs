//! A small terminal text editor: the editing model of its buffer, cursor and
//! scrolling, the text of what it shows, and the reading and writing of files.

pub mod text;
pub mod editor;
pub mod input;
pub mod log;
pub mod document;
