//! Content recognition and install planning for simulator mod packages.

pub mod archive_unpacker;
pub mod common;
pub mod config;
pub mod deployment;
pub mod endpoints;
pub mod hashing;
pub mod install_task;
pub mod paths;
pub mod text_order;
pub mod wildcard;
