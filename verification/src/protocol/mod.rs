//! Packets of the protocols that the device speaks.
pub mod proto_arc;
pub mod req_resp;
