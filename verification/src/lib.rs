//! A daily-schedule resolution engine: given a configuration of named time
//! intervals (each showing one fixed screen or cycling through a list of
//! screens) and a clock reading, it determines which screen is active, how
//! long it remains, when the next change happens, and whether the
//! configuration is internally consistent.

pub mod config;
pub mod cycle;
pub mod text;
pub mod resolve;
pub mod transition;
pub mod validate;
pub mod daily;
pub mod scheduler;
pub mod editing;
pub mod laws;
