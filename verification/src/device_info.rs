//! What the device knows of itself, its limits and its flows.
use vstd::prelude::*;

verus! {

/// An audio channel: the name it was made with and the name its user gave it.
#[derive(Debug)]
pub struct Channel {
    pub factory_name: String,
    pub friendly_name: String,
}

/// The identity and the settings of the device.
#[derive(Debug)]
pub struct DeviceInfo {
    pub ip_address: [u8; 4],
    pub netmask: [u8; 4],
    pub gateway: [u8; 4],
    pub mac_address: [u8; 6],
    pub friendly_hostname: String,
    pub factory_hostname: String,
    pub board_name: String,
    pub manufacturer: String,
    pub model_name: String,
    pub model_number: String,
    pub vendor_string: String,
    pub factory_device_id: [u8; 8],
    pub process_id: u16,
    pub sample_rate: u32,
    pub bits_per_sample: u8,
    pub pcm_type: u8,
    pub latency_ns: u64,
    pub arc_port: u16,
    pub cmc_port: u16,
    pub flows_control_port: u16,
    pub info_request_port: u16,
    pub rx_channels: Vec<Channel>,
    pub tx_channels: Vec<Channel>,
}

/// How many flows the device handles, and how they may look.
#[derive(Debug, Clone, Copy, PartialEq, Eq)]
pub struct FlowLimits {
    pub max_tx_flows: usize,
    pub max_rx_flows: usize,
    pub fpp_min: u16,
    pub fpp_max_advertised: u16,
    pub max_channels_in_flow: u16,
}

/// A flow that the device transmits.
#[derive(Debug)]
pub struct TxFlowInfo {
    pub rx_hostname: String,
    pub rx_flow_name: String,
    pub rx_addr: [u8; 4],
    pub rx_port: u16,
    /// The transmit channel in each slot of the flow, if the slot is used.
    pub local_channel_indices: Vec<Option<usize>>,
}

/// A flow that the device receives.
#[derive(Debug)]
pub struct RxFlowInfo {
    pub rx_port: u16,
    pub latency_samples: usize,
    /// For each slot of the flow, the receive channels that take their audio from it.
    pub channels_map: Vec<Vec<bool>>,
}

/// What a receive channel is subscribed to.
#[derive(Debug)]
pub struct ChannelStatus {
    pub tx_channel_name: String,
    pub tx_hostname: String,
    pub status: u32,
}

/// What the receiving side reports, while it runs.
#[derive(Debug)]
pub struct SubscriberState {
    /// The subscription of each receive channel.
    pub channels: Vec<Option<ChannelStatus>>,
    pub flows: Vec<Option<RxFlowInfo>>,
}

} // verus!
