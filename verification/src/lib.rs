//! Verified core of a Dante-compatible audio-over-IP device: the wire formats,
//! the request handlers, and the rules that decide what the device sends,
//! advertises and remembers. Sockets, files and clocks stay with the caller.

pub mod arc_server;
pub mod device_info;
pub mod device_server;
pub mod hex_text;
pub mod info_mcast_server;
pub mod laws;
pub mod mdns_server;
pub mod media_clock;
pub mod packet_buffer;
pub mod protocol;
pub mod state_storage;
pub mod text;
pub mod wire;
