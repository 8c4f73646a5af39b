//! The decisions of a self-hosted artifact feed: storage rules, publication
//! checks, access control, command-line handling and service management.
pub mod api;
pub mod bounds;
pub mod bytes;
pub mod cli;
pub mod daemon;
pub mod details;
pub mod digest;
pub mod hex;
pub mod letters;
pub mod logging;
pub mod number;
pub mod path;
pub mod percent;
pub mod random;
pub mod service;
pub mod storage;
pub mod text;
