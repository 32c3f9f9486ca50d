//! An in-process chat broker with rooms, members and broadcast delivery,
//! and the deciding parts of the small programs that come with it: a command
//! shell, an outline editor for markdown, a configuration validator and a
//! task runner.
//!
//! Everything here is verified but for the few functions that call into
//! tokio, chrono, rand or the standard library and are marked
//! `external_body`: their contracts are taken on trust.

pub mod channel;
pub mod chat_room;
pub mod chat_server;
pub mod config;
pub mod doc;
pub mod error;
pub mod message;
pub mod shell;
pub mod simulation;
pub mod task;
pub mod text;
