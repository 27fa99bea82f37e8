//! What the device multicasts of itself, and the requests that make it do so.
pub mod clock_stats;
pub mod contents;
pub mod multicaster;
