//! Requests of the audio routing control protocol and the answers to them.
pub mod actions;
pub mod channel_lists;
pub mod device_facts;
pub mod dispatch;
pub mod flow_lists;
pub mod renames;
pub mod rx_flows;
pub mod startup;
pub mod subscriptions;
pub mod tx_flows;
