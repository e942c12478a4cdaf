//! A small registry of SSH connection profiles kept in an embedded
//! key-value store, with the decisions of the command-line front end.

pub mod codec;
pub mod command;
pub mod error;
pub mod laws;
pub mod profile;
pub mod registry;
pub mod store;
