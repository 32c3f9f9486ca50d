//! The pieces of a small command shell that decide without touching the
//! machine: which words a line holds, which command they name, and where its
//! output is to go.

pub mod cmdline;
pub mod command;
pub mod completion;
pub mod executable;
pub mod utils;
