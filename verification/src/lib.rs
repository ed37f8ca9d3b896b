//! Deterministic ball mechanics for a game about kinematics: balls that
//! travel, touch and bounce inside a bounded field, one simulation tick at
//! a time.
//!
//! All quantities are whole numbers of field units, so that a tick gives
//! the same result on every machine and every statement about it can be
//! proved exactly.
//!
//! - [`vector`]: points, displacements and the integer arithmetic beneath;
//! - [`ball`]: the ball, its lifecycle, its trail and its debounce table;
//! - [`ball_interaction`]: contact detection, the outcome table, the hit
//!   map of a tick and the velocity after a contact;
//! - [`phase`]: the phases of a game; [`phase::preparing`] holds the tick;
//! - [`timer`]: the fixed-interval timers that gate the tick;
//! - [`level_builder`]: the starting layouts of the levels;
//! - [`status`] and [`leaderboard`]: the run in progress and the runs that
//!   were played;
//! - [`action`] and [`text`]: the texts of the scoreboard;
//! - [`hit_counter`] and [`tailing`]: the two collections of other crates
//!   that a ball holds, each behind a handful of trusted functions.

pub mod action;
pub mod ball;
pub mod ball_interaction;
pub mod hit_counter;
pub mod leaderboard;
pub mod level_builder;
pub mod phase;
pub mod status;
pub mod tailing;
pub mod text;
pub mod timer;
pub mod vector;
