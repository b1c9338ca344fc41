//! Small helpers of the bar that are not tied to a service.
pub mod time;
