//! What holds of the library as a whole: properties that relate several operations.

pub mod consumers;
pub mod contexts;
pub mod dispatches;
pub mod effects;
pub mod events;
pub mod fibers;
pub mod handover;
pub mod log;
pub mod lookup;
pub mod operations;
pub mod ownership;
pub mod records;
pub mod release;
pub mod requests;
pub mod runs;
pub mod services;
pub mod settling;
pub mod snapshots;
pub mod takeover;
