//! Scheduling of Git commit dates inside user-defined weekly timeslots.

pub mod clock;
pub mod instant;
pub mod random;
pub mod text;
pub mod timeslot;
pub mod config;
pub mod spawn;
pub mod git;
pub mod commands;
