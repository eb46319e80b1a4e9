//! tenki: the logic of an animated terminal weather app.
pub mod net;
pub mod text;
pub mod ui;
pub mod app;
pub mod config;
pub mod cli;
pub mod refresh;
