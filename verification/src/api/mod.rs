//! The HTTP interface: who may ask, what a request must hold, and how it is answered.
pub mod error;
pub mod paths;
pub mod reception;
pub mod auth;
pub mod manifest;
pub mod artifact;
pub mod feed;
pub mod serving;
pub mod guarding;
pub mod receiving;
pub mod answering;
pub mod holding;
pub mod running;
