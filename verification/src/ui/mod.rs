//! What the panel's views decide and show, apart from drawing it.
pub mod bluetooth;
pub mod quick_settings;
pub mod wifi;
