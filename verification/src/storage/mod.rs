//! Storage rules: what is accepted, recorded, recovered, read and removed.
pub mod blob;
pub mod error;
pub mod session;
pub mod classification;
pub mod read;
pub mod lifecycle;
pub mod order;
pub mod status;
pub mod publication;
pub mod publishing;
pub mod staging;
pub mod finalizing;
pub mod rows;
pub mod tables;
pub mod resolving;
pub mod keeping;
pub mod effects;
pub mod readback;
pub mod permanence;
pub mod purging;
pub mod draining;
pub mod history;
pub mod storing;
pub mod rendering;
pub mod telling;
pub mod accepting;
pub mod cutting;
pub mod proceeding;
pub mod checking;
pub mod stepping;
pub mod running;
