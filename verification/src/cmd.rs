//! The commands of the server.

pub mod info;
