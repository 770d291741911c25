//! Decision logic of a desktop reminder clock: reminder and countdown
//! schedules, clock text, popup choices, settings and colour parsing.

pub mod text;
pub mod color;
pub mod schedule;
pub mod clock;
pub mod config;
pub mod alarm;
pub mod laws;
