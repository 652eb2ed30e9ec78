//! Project tracker core: users, tasks and their assignments, kept in one
//! store file under the repository root.
//!
//! The crate is pure: it never touches the file system or the terminal.
//! Callers hand it plain values and get plain values back.

pub mod commands;
pub mod data_storage;
pub mod error;
pub mod model;
pub mod project;
pub mod record;
pub mod seq_facts;
pub mod state;
