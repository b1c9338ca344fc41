//! Core of a Wayland quick-settings panel and top bar: the parsers, state
//! updates, text formats and decisions that the panel, its device daemon and
//! its compositor listener run, each with its contract.
pub mod ipc;
pub mod search;
pub mod services;
pub mod state;
pub mod text;
pub mod ui;
pub mod utils;
