//! A document as an outline of titled sections, read from and written back
//! to a small subset of markdown, and the commands of its editor.

pub mod command;
pub mod document;
pub mod markdown;
pub mod paragraph;
pub mod section;
