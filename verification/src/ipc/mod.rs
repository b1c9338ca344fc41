//! Inter-process communication with the compositor.
pub mod niri;
