//! Requests to rename channels.
use vstd::prelude::*;

use crate::arc_server::actions;
use crate::arc_server::actions::{Action, Step};
use crate::arc_server::channel_lists;
use crate::arc_server::channel_lists::{ReceiveChannels, TransmitFriendlyNames};
use crate::device_info::{DeviceInfo, FlowLimits};
use crate::mdns_server;
use crate::mdns_server::ServiceDescription;
use crate::protocol::proto_arc;
use crate::protocol::proto_arc::rename_tx_channel;
use crate::protocol::proto_arc::rename_tx_channel::SingleChannelRenameRequest;
use crate::protocol::proto_arc::Reply;
use crate::protocol::req_resp::HEADER_LENGTH;
use crate::state_storage;
use crate::state_storage::{Names, SavedChannelsSettings};
use crate::text;
use crate::wire;

verus! {

/// `v` less the length of the packet header, or zero if that is negative.
pub open spec fn less_header(v: u16) -> nat {
    if v < HEADER_LENGTH {
        0
    } else {
        (v - HEADER_LENGTH) as nat
    }
}

/// A request that names no channel or no text asks for nothing.
pub open spec fn asks_for_nothing(request: SingleChannelRenameRequest) -> bool {
    less_header(request.channel_id) == 0 || less_header(request.new_name_offset) == 0
}

/// The place of the new name can be computed for every request that asks for something.
pub open spec fn tx_renames_served(content: Seq<u8>) -> bool {
    forall|i: int|
        0 <= i < rename_tx_channel::items(content).len() ==> {
            let request = #[trigger] rename_tx_channel::items(content)[i];
            asks_for_nothing(request) || less_header(request.new_name_offset) >= HEADER_LENGTH
        }
}

/// The channel that one request renames, and its new name. None where the request asks for nothing,
/// holds no readable name, or names a channel that the device does not have.
pub open spec fn tx_rename(
    info: DeviceInfo,
    content: Seq<u8>,
    request: SingleChannelRenameRequest,
) -> Option<(nat, Seq<char>)> {
    if asks_for_nothing(request) {
        None
    } else {
        let index = (less_header(request.channel_id) - 1) as nat;
        match text::text_at(content, less_header(request.new_name_offset) - HEADER_LENGTH) {
            Err(_) => None,
            Ok(name) => if index < info.tx_channels@.len() {
                Some((index, name))
            } else {
                None
            },
        }
    }
}

/// How a transmit channel is renamed: it is withdrawn under the names it had, renamed, and then
/// advertised under the names it has.
pub open spec fn tx_renaming(index: nat, name: Seq<char>) -> Seq<Step> {
    seq![
        Step::WithdrawTx { index },
        Step::RenameTx { index, name },
        Step::AdvertiseTx { index },
    ]
}

/// The renamings that the first `n` requests lead to.
pub open spec fn tx_renames(info: DeviceInfo, content: Seq<u8>, n: nat) -> Seq<Step>
    decreases n,
{
    if n == 0 {
        Seq::empty()
    } else {
        let before = tx_renames(info, content, (n - 1) as nat);
        match tx_rename(info, content, rename_tx_channel::items(content)[n - 1]) {
            None => before,
            Some((index, name)) => before + tx_renaming(index, name),
        }
    }
}

/// The answer to a request to rename transmit channels: all renamings, and then a response that
/// tells whether there was one.
pub open spec fn tx_rename_steps(info: DeviceInfo, content: Seq<u8>) -> Seq<Step> {
    let renames = tx_renames(info, content, rename_tx_channel::items(content).len());
    renames.push(
        if renames.len() > 0 {
            Step::Respond { code: 0, payload: Seq::empty() }
        } else {
            Step::Respond { code: 1, payload: seq![0u8, 0u8] }
        },
    )
}

/// Whether the place of the new name can be computed for every request that asks for something.
pub fn are_tx_renames_served(content: &[u8]) -> (ok: bool)
    ensures
        ok == tx_renames_served(content@),
{
    let requests = rename_tx_channel::deserialize_items(content);
    let mut i: usize = 0;
    while i < requests.len()
        invariant
            requests@ == rename_tx_channel::items(content@),
            i <= requests@.len(),
            forall|k: int|
                0 <= k < i ==> {
                    let request = #[trigger] rename_tx_channel::items(content@)[k];
                    asks_for_nothing(request) || less_header(request.new_name_offset)
                        >= HEADER_LENGTH
                },
        decreases requests@.len() - i,
    {
        let request = requests[i];
        let channel_id: u16 = request.channel_id.saturating_sub(HEADER_LENGTH as u16);
        let name_offset: u16 = request.new_name_offset.saturating_sub(HEADER_LENGTH as u16);
        if channel_id != 0 && name_offset != 0 && (name_offset as usize) < HEADER_LENGTH {
            assert(!({
                let request = rename_tx_channel::items(content@)[i as int];
                asks_for_nothing(request) || less_header(request.new_name_offset) >= HEADER_LENGTH
            }));
            return false;
        }
        i = i + 1;
    }
    true
}

/// Adds the renaming that one request leads to. Returns whether there is one.
fn add_tx_rename(
    steps: &mut Vec<Action>,
    info: &DeviceInfo,
    content: &[u8],
    request: SingleChannelRenameRequest,
) -> (renamed: bool)
    requires
        asks_for_nothing(request) || less_header(request.new_name_offset) >= HEADER_LENGTH,
    ensures
        match tx_rename(*info, content@, request) {
            None => !renamed && actions::steps(final(steps)@) == actions::steps(old(steps)@),
            Some((index, name)) => renamed && actions::steps(final(steps)@) == actions::steps(
                old(steps)@,
            ) + tx_renaming(index, name),
        },
{
    let channel_id: u16 = request.channel_id.saturating_sub(HEADER_LENGTH as u16);
    let name_offset: u16 = request.new_name_offset.saturating_sub(HEADER_LENGTH as u16);
    if channel_id == 0 || name_offset == 0 {
        return false;
    }
    match text::read_0term_str_from_buffer(content, name_offset as usize - HEADER_LENGTH) {
        Ok(new_name) => {
            let index: usize = (channel_id - 1) as usize;
            if index < info.tx_channels.len() {
                actions::add_step(steps, Action::WithdrawTx { index });
                actions::add_step(steps, Action::RenameTx { index, name: new_name });
                actions::add_step(steps, Action::AdvertiseTx { index });
                assert(actions::steps(steps@) =~= actions::steps(old(steps)@) + tx_renaming(
                    index as nat,
                    new_name@,
                ));
                true
            } else {
                false
            }
        },
        Err(_) => false,
    }
}

/// Answers a request to rename transmit channels.
pub fn rename_tx(info: &DeviceInfo, content: &[u8]) -> (out: Vec<Action>)
    requires
        tx_renames_served(content@),
    ensures
        actions::steps(out@) == tx_rename_steps(*info, content@),
{
    let requests = rename_tx_channel::deserialize_items(content);
    let mut out = actions::no_steps();
    let mut renamed_anything: bool = false;
    let mut i: usize = 0;
    while i < requests.len()
        invariant
            tx_renames_served(content@),
            requests@ == rename_tx_channel::items(content@),
            i <= requests@.len(),
            actions::steps(out@) == tx_renames(*info, content@, i as nat),
            renamed_anything == (tx_renames(*info, content@, i as nat).len() > 0),
        decreases requests@.len() - i,
    {
        assert(rename_tx_channel::items(content@)[i as int] == requests@[i as int]);
        if add_tx_rename(&mut out, info, content, requests[i]) {
            renamed_anything = true;
        }
        i = i + 1;
    }
    let reply = if renamed_anything {
        Reply { code: 0, payload: Vec::new() }
    } else {
        Reply { code: 1, payload: wire::zero_bytes(2) }
    };
    proof {
        assert(wire::zeros(2) =~= seq![0u8, 0u8]);
    }
    actions::add_step(&mut out, Action::Respond(reply));
    out
}

/// Carries out a renaming as far as it is not sent: gives the channel its new name, and keeps it.
/// Returns the names under which the channel is to be withdrawn first, and the services that are to
/// be advertised afterwards.
pub fn rename_and_readvertise(
    saved: &mut SavedChannelsSettings,
    info: &mut DeviceInfo,
    limits: &FlowLimits,
    index: usize,
    name: String,
) -> (r: (Vec<String>, Vec<ServiceDescription>))
    requires
        old(saved).well_formed(*old(info)),
        index < old(info).tx_channels@.len(),
    ensures
        mdns_server::texts(r.0@) == mdns_server::channel_service_names(*old(info), index as int),
        mdns_server::services(r.1@) == mdns_server::channel_services(
            *final(info),
            *limits,
            index as int,
        ),
        final(saved).well_formed(*final(info)),
        state_storage::settings(final(saved).tx_channels.channels@) == state_storage::resaved(
            state_storage::settings(old(saved).tx_channels.channels@),
            index as int,
            name@,
        ),
        final(saved).rx_channels == old(saved).rx_channels,
        state_storage::names(final(info).tx_channels@) == state_storage::renamed(
            state_storage::names(old(info).tx_channels@),
            index as int,
            name@,
        ),
        *final(info) == (DeviceInfo { tx_channels: final(info).tx_channels, ..*old(info) }),
{
    let withdrawn = mdns_server::remove_tx_channel(info, index);
    saved.rename_tx_channel(info, index, name);
    assert(state_storage::names(info.tx_channels@).len() == info.tx_channels@.len());
    let advertised = mdns_server::add_tx_channel(info, limits, index);
    (withdrawn, advertised)
}

/// Once a transmit channel is renamed, it is advertised under its new name and the one it was made
/// with, and under no other.
pub proof fn renamed_channel_is_advertised_under_its_new_name(
    before: DeviceInfo,
    after: DeviceInfo,
    index: int,
    name: Seq<char>,
)
    requires
        0 <= index < before.tx_channels@.len(),
        state_storage::names(after.tx_channels@) == state_storage::renamed(
            state_storage::names(before.tx_channels@),
            index,
            name,
        ),
        after.friendly_hostname == before.friendly_hostname,
    ensures
        ({
            let made_with = before.tx_channels@[index].factory_name@;
            mdns_server::channel_service_names(after, index) == if name == made_with {
                seq![mdns_server::channel_service_name(before, made_with)]
            } else {
                seq![
                    mdns_server::channel_service_name(before, made_with),
                    mdns_server::channel_service_name(before, name),
                ]
            }
        }),
{
    let old_names = state_storage::names(before.tx_channels@);
    let new_names = state_storage::names(after.tx_channels@);
    assert(new_names.len() == after.tx_channels@.len());
    assert(old_names[index].factory == before.tx_channels@[index].factory_name@);
    assert(new_names[index].factory == after.tx_channels@[index].factory_name@);
    assert(new_names[index].friendly == after.tx_channels@[index].friendly_name@);
}

/// A request to rename a receive channel holds all its fields, and the place of the name and the
/// index of the channel can be computed.
pub open spec fn rx_rename_served(content: Seq<u8>) -> bool {
    &&& content.len() >= 6
    &&& wire::u16_of(content[4], content[5]) >= HEADER_LENGTH
    &&& text::text_at(content, wire::u16_of(content[4], content[5]) - HEADER_LENGTH) is Ok
        ==> wire::u16_of(content[2], content[3]) >= 1
}

/// The answer to a request to rename a receive channel. Where the name can be read and the device
/// has the channel, the channel is renamed, and the network is told so after the response.
pub open spec fn rx_rename_steps(info: DeviceInfo, content: Seq<u8>) -> Seq<Step> {
    let index = wire::u16_of(content[2], content[3]) - 1;
    let refused = seq![Step::Respond { code: 0, payload: Seq::empty() }];
    match text::text_at(content, wire::u16_of(content[4], content[5]) - HEADER_LENGTH) {
        Err(_) => refused,
        Ok(name) => if index < info.rx_channels@.len() {
            seq![
                Step::RenameRx { index: index as nat, name },
                Step::Respond { code: 1, payload: Seq::empty() },
                Step::NotifyChannelChange { indices: seq![index as usize] },
            ]
        } else {
            refused
        },
    }
}

/// Whether a request to rename a receive channel can be answered.
pub fn is_rx_rename_served(content: &[u8]) -> (ok: bool)
    ensures
        ok == rx_rename_served(content@),
{
    if content.len() < 6 {
        return false;
    }
    let name_offset: usize = wire::make_u16(content[4], content[5]) as usize;
    if name_offset < HEADER_LENGTH {
        return false;
    }
    match text::read_0term_str_from_buffer(content, name_offset - HEADER_LENGTH) {
        Ok(_) => wire::make_u16(content[2], content[3]) >= 1,
        Err(_) => true,
    }
}

/// Answers a request to rename a receive channel.
pub fn rename_rx(info: &DeviceInfo, content: &[u8]) -> (out: Vec<Action>)
    requires
        rx_rename_served(content@),
    ensures
        actions::steps(out@) == rx_rename_steps(*info, content@),
{
    let channel_id: u16 = wire::make_u16(content[2], content[3]);
    let name_offset: u16 = wire::make_u16(content[4], content[5]);
    let mut out = actions::no_steps();
    let mut channel_indices: Vec<usize> = Vec::new();
    let code: u16 = match text::read_0term_str_from_buffer(
        content,
        name_offset as usize - HEADER_LENGTH,
    ) {
        Ok(new_name) => {
            let index: usize = (channel_id - 1) as usize;
            if index < info.rx_channels.len() {
                channel_indices.push(index);
                actions::add_step(&mut out, Action::RenameRx { index, name: new_name });
                1
            } else {
                0
            }
        },
        Err(_) => 0,
    };
    actions::add_step(&mut out, Action::Respond(Reply { code, payload: Vec::new() }));
    if code == 1 {
        actions::add_step(&mut out, Action::NotifyChannelChange { indices: channel_indices });
    }
    assert(actions::steps(out@) =~= rx_rename_steps(*info, content@));
    out
}

/// Once a transmit channel is renamed, a page that holds it shows its new name, unless the name
/// holds a zero character.
pub proof fn renamed_tx_channel_is_listed<'a>(
    before: Seq<Names>,
    items: TransmitFriendlyNames<'a>,
    index: nat,
    name: Seq<char>,
    start: nat,
    space: nat,
)
    requires
        index < before.len(),
        state_storage::names(items.info.tx_channels@) == state_storage::renamed(
            before,
            index as int,
            name,
        ),
        space <= 255,
        start <= index < start + proto_arc::page_end(items, start, space).written,
    ensures
        channel_lists::found(
            proto_arc::page_payload(items, start, space),
            items.name_offset(
                index == start,
                proto_arc::data_offset(items, start, space, (index - start) as nat),
            ),
            name,
        ),
{
    channel_lists::transmit_friendly_name_is_read_back(
        items,
        start,
        space,
        (index - start) as nat,
    );
    let channels = items.info.tx_channels@;
    assert(state_storage::names(channels).len() == channels.len());
    assert(state_storage::names(channels)[index as int].friendly
        == channels[index as int].friendly_name@);
}

/// Once a receive channel is renamed, a page that holds it shows its new name, unless the name
/// holds a zero character.
pub proof fn renamed_rx_channel_is_listed<'a>(
    before: Seq<Names>,
    items: ReceiveChannels<'a>,
    index: nat,
    name: Seq<char>,
    start: nat,
    space: nat,
)
    requires
        index < before.len(),
        state_storage::names(items.info.rx_channels@) == state_storage::renamed(
            before,
            index as int,
            name,
        ),
        space <= 255,
        start <= index < start + proto_arc::page_end(items, start, space).written,
    ensures
        channel_lists::found(
            proto_arc::page_payload(items, start, space),
            items.friendly_name_offset(
                index as int,
                index == start,
                proto_arc::data_offset(items, start, space, (index - start) as nat),
            ),
            name,
        ),
{
    channel_lists::receive_channel_names_are_read_back(
        items,
        start,
        space,
        (index - start) as nat,
    );
    let channels = items.info.rx_channels@;
    assert(state_storage::names(channels).len() == channels.len());
    assert(state_storage::names(channels)[index as int].friendly
        == channels[index as int].friendly_name@);
}

} // verus!
