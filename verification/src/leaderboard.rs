//! The record of what was played: per level, the runs and the best of them.

pub mod model;
pub mod record;
