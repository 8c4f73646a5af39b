//! The daemon's configuration and its upkeep.
pub mod token;
pub mod credential;
pub mod cleanup;
pub mod config;
pub mod origin;
pub mod access;
pub mod resolve;
pub mod precedence;
pub mod settling;
pub mod telling;
pub mod answering;
pub mod running;
