//! NHL scores, standings, schedule and leaders: the state and the rules of a
//! terminal dashboard, with the network, the clock and the terminal left to
//! the binary that drives it.

pub mod api;
pub mod app;
pub mod calendar;
pub mod config;
pub mod leaders;
pub mod models;
pub mod standings;
pub mod tabs;
pub mod text;
pub mod view;
