//! The command line.
pub mod acceptance;
pub mod address;
pub mod answering;
pub mod arguments;
pub mod assets;
pub mod browser;
pub mod declaring;
pub mod error;
pub mod flags;
pub mod gathering;
pub mod git;
pub mod meaning;
pub mod publication;
pub mod running;
pub mod sending;
