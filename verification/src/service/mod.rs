//! The daemon as a systemd user service.
pub mod control;
pub mod operation;
pub mod running;
pub mod telling;
pub mod unit;
pub mod wording;
pub mod write;
