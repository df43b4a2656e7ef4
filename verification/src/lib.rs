//! A small note-keeping library: projects and timestamped notes, a
//! repository over them with prefix-based guid lookup, filtering and
//! upsert semantics, and the text assembled for the two note editors.

pub mod backend;
pub mod commands;
pub mod config;
pub mod display;
pub mod error;
pub mod store;
pub mod timestamp;
