//! The logic of the terminal dashboard: what it holds, how keys move it,
//! and what it shows.

pub mod app;
pub mod formatters;
pub mod state;
pub mod views;
