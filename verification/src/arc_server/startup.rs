//! What the server does before it answers the first request.
use vstd::prelude::*;

use crate::device_info::{DeviceInfo, FlowLimits};
use crate::mdns_server;
use crate::mdns_server::ServiceDescription;
use crate::state_storage;
use crate::state_storage::{SavedChannels, SavedChannelsSettings};

verus! {

/// Gives the channels of the device the names that were kept, and describes the services that then
/// advertise its transmit channels: a list for each channel, in the order of the channels.
pub fn load_and_advertise(
    rx_channels: Option<SavedChannels>,
    tx_channels: Option<SavedChannels>,
    info: &mut DeviceInfo,
    limits: &FlowLimits,
) -> (r: (SavedChannelsSettings, Vec<Vec<ServiceDescription>>))
    ensures
        r.0.well_formed(*final(info)),
        state_storage::settings(r.0.rx_channels.channels@) == state_storage::grown(
            state_storage::kept(rx_channels),
            old(info).rx_channels@.len(),
        ),
        state_storage::settings(r.0.tx_channels.channels@) == state_storage::grown(
            state_storage::kept(tx_channels),
            old(info).tx_channels@.len(),
        ),
        state_storage::names(final(info).rx_channels@) == state_storage::loaded(
            state_storage::kept(rx_channels),
            state_storage::names(old(info).rx_channels@),
        ),
        state_storage::names(final(info).tx_channels@) == state_storage::loaded(
            state_storage::kept(tx_channels),
            state_storage::names(old(info).tx_channels@),
        ),
        *final(info) == (DeviceInfo {
            rx_channels: final(info).rx_channels,
            tx_channels: final(info).tx_channels,
            ..*old(info)
        }),
        r.1@.len() == final(info).tx_channels@.len(),
        r.1@.len() == old(info).tx_channels@.len(),
        forall|i: int|
            0 <= i < r.1@.len() ==> mdns_server::services((#[trigger] r.1@[i])@)
                == mdns_server::channel_services(*final(info), *limits, i),
{
    let saved = SavedChannelsSettings::load(rx_channels, tx_channels, info);
    proof {
        assert(state_storage::names(old(info).tx_channels@).len() == old(info).tx_channels@.len());
        assert(state_storage::names(info.tx_channels@).len() == info.tx_channels@.len());
    }
    let count: usize = info.tx_channels.len();
    let mut advertised: Vec<Vec<ServiceDescription>> = Vec::new();
    let ghost loaded = *info;
    while advertised.len() < count
        invariant
            *info == loaded,
            count == info.tx_channels@.len(),
            advertised@.len() <= count,
            forall|i: int|
                0 <= i < advertised@.len() ==> mdns_server::services((#[trigger] advertised@[i])@)
                    == mdns_server::channel_services(loaded, *limits, i),
        decreases count - advertised@.len(),
    {
        let index: usize = advertised.len();
        advertised.push(mdns_server::add_tx_channel(info, limits, index));
    }
    (saved, advertised)
}

} // verus!
