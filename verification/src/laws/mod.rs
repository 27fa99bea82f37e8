//! What the messages, the changes and the results of the library mean to those who read them. Each
//! law reads numbers and texts out of bytes, or looks at what a function hands back, and says what
//! they are in terms of the device and of the request.
pub mod answers;
pub mod changes;
pub mod clocks;
pub mod device_facts;
pub mod encodings;
pub mod flow_counts;
pub mod messages;
pub mod multicasts;
pub mod pages;
pub mod reading;
pub mod requests;
pub mod results;
pub mod rx_flows;
pub mod services;
pub mod texts;
pub mod transmission;
pub mod tx_flows;
