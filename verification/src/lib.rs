//! A terminal cube-timer library: scramble generation, solve statistics
//! with a JSON persistence format, user configuration, and the screen
//! state machine of the interactive timer.

pub mod app;
pub mod args;
pub mod asci;
pub mod config;
pub mod cursor;
pub mod error;
pub mod json;
pub mod num_parser;
pub mod scramble;
pub mod solve_time;
pub mod stats;
pub mod text;
