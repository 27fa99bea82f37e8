//! The parts of the device that run while it is on.
pub mod lifecycle;
pub mod tx_multicasts;
