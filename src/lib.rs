//! A day planner that fills recurring context windows with pomodoro-sized
//! slices of prioritised tasks.

pub mod context;
pub mod task;
pub mod text;
pub mod time;
pub mod timeblock;
pub mod schedule;
pub mod model;
pub mod laws;
