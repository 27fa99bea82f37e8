//! Which request is answered how.
use vstd::prelude::*;

use crate::arc_server::actions;
use crate::arc_server::actions::{Action, Step};
use crate::arc_server::channel_lists::{ReceiveChannels, TransmitChannels, TransmitFriendlyNames};
use crate::arc_server::device_facts;
use crate::arc_server::flow_lists;
use crate::arc_server::renames;
use crate::arc_server::rx_flows;
use crate::arc_server::subscriptions;
use crate::arc_server::tx_flows;
use crate::device_info::{ChannelStatus, DeviceInfo, FlowLimits, SubscriberState, TxFlowInfo};
use crate::protocol::proto_arc;
use crate::protocol::proto_arc::channels_and_flows_count;
use crate::protocol::proto_arc::get_device_names;
use crate::protocol::proto_arc::get_receive_channels;
use crate::protocol::proto_arc::get_transmit_channels;
use crate::protocol::proto_arc::get_transmit_channels_friendly_names;
use crate::protocol::proto_arc::rename_tx_channel;
use crate::protocol::proto_arc::ItemSource;
use crate::protocol::proto_arc::GET_DEVICE_NAME_OPCODE;
use crate::protocol::req_resp::CODE_OK;
use crate::text;
use crate::wire;

verus! {

/// Gives a receive channel a new name.
pub const RENAME_RX_OPCODE: u16 = 0x3001;

/// Asks for the list of transmitted flows.
pub const QUERY_TX_FLOWS_OPCODE: u16 = 0x2200;

/// Asks for a multicast flow, which this device does not set up on request.
pub const CREATE_MULTICAST_TX_FLOW_OPCODE: u16 = 0x2201;

/// Asks for the list of received flows.
pub const QUERY_RX_FLOWS_OPCODE: u16 = 0x3200;

/// Subscribes receive channels to channels of other devices, or ends subscriptions.
pub const SUBSCRIBE_OPCODE: u16 = 0x3010;

/// Ends the subscription of a receive channel.
pub const UNSUBSCRIBE_OPCODE: u16 = 0x3014;

/// A page of channels has room for at most this many.
pub const MAX_CHANNELS_IN_PAGE: usize = 32;

/// What the answers depend on.
pub struct ServerState<'a> {
    pub info: &'a DeviceInfo,
    pub limits: FlowLimits,
    /// What the receiving side reports, while it runs.
    pub subscriber: &'a Option<SubscriberState>,
    pub tx_flows: &'a Vec<Option<TxFlowInfo>>,
}

/// For how many channels a page has room, on a device with `len` of them.
pub open spec fn page_space(len: nat) -> nat {
    if len < MAX_CHANNELS_IN_PAGE {
        len
    } else {
        MAX_CHANNELS_IN_PAGE as nat
    }
}

/// The answer that consists of a single response.
pub open spec fn only_respond(code: u16, payload: Seq<u8>) -> Seq<Step> {
    seq![Step::Respond { code, payload }]
}

/// The requested page of a list can be written.
pub open spec fn page_served<I: ItemSource>(items: I, content: Seq<u8>, space: nat) -> bool {
    proto_arc::start_index(content) matches Some(start) ==> proto_arc::page_encodable(
        items,
        start,
        space,
    )
}

/// The answer to a request for a page of a list.
pub open spec fn page_steps<I: ItemSource>(items: I, content: Seq<u8>, space: nat) -> Seq<Step> {
    match proto_arc::start_index(content) {
        None => Seq::empty(),
        Some(start) => only_respond(
            proto_arc::page_code(proto_arc::page_end(items, start, space).more),
            proto_arc::page_payload(items, start, space),
        ),
    }
}

/// The requested page of receive channels can be written.
pub open spec fn receive_page_served<'a>(state: ServerState<'a>, content: Seq<u8>) -> bool {
    match state.subscriber {
        None => true,
        Some(subscriber) => page_served(
            ReceiveChannels { info: state.info, subscriptions: &subscriber.channels },
            content,
            page_space(state.info.rx_channels@.len()),
        ),
    }
}

/// The answer to a request for a page of receive channels. While the receiving side does not run,
/// the page is empty.
pub open spec fn receive_page_steps<'a>(state: ServerState<'a>, content: Seq<u8>) -> Seq<Step> {
    match state.subscriber {
        None => if proto_arc::start_index(content) is Some {
            only_respond(CODE_OK, seq![0u8, 0u8])
        } else {
            Seq::empty()
        },
        Some(subscriber) => page_steps(
            ReceiveChannels { info: state.info, subscriptions: &subscriber.channels },
            content,
            page_space(state.info.rx_channels@.len()),
        ),
    }
}

/// A request for a list of flows gives the number of the first slot, counted from one.
pub open spec fn first_slot(content: Seq<u8>) -> int {
    wire::u16_of(content[2], content[3]) - 1
}

/// The request gives the number of a slot, and the flows from there on can be described.
pub open spec fn tx_flows_served<'a>(state: ServerState<'a>, content: Seq<u8>) -> bool {
    &&& content.len() >= 4
    &&& first_slot(content) >= 0
    &&& tx_flows::tx_flows_encodable(state.tx_flows@, first_slot(content))
}

/// The answer to a request for the list of transmitted flows.
pub open spec fn tx_flows_steps<'a>(state: ServerState<'a>, content: Seq<u8>) -> Seq<Step> {
    only_respond(
        flow_lists::flows_code(state.tx_flows@, first_slot(content)),
        tx_flows::tx_flows_payload(*state.info, state.tx_flows@, first_slot(content)),
    )
}

/// The request gives the number of a slot, and the flows from there on can be described; or the
/// receiving side does not run.
pub open spec fn rx_flows_served<'a>(state: ServerState<'a>, content: Seq<u8>) -> bool {
    state.subscriber matches Some(subscriber) ==> {
        &&& content.len() >= 4
        &&& first_slot(content) >= 0
        &&& rx_flows::rx_flows_encodable(*state.info, subscriber.flows@, first_slot(content))
    }
}

/// The answer to a request for the list of received flows. While the receiving side does not run,
/// the list is empty.
pub open spec fn rx_flows_steps<'a>(state: ServerState<'a>, content: Seq<u8>) -> Seq<Step> {
    match state.subscriber {
        None => only_respond(CODE_OK, wire::zeros(6)),
        Some(subscriber) => only_respond(
            flow_lists::flows_code(subscriber.flows@, first_slot(content)),
            rx_flows::rx_flows_payload(*state.info, subscriber.flows@, first_slot(content)),
        ),
    }
}

/// The request can be answered: it holds what its answer is computed from, and every number of the
/// answer fits its field.
pub open spec fn served<'a>(
    state: ServerState<'a>,
    opcode1: u16,
    opcode2: u16,
    content: Seq<u8>,
) -> bool {
    if opcode2 != 0 {
        true
    } else if opcode1 == channels_and_flows_count::OPCODE {
        device_facts::counts_served(*state.info, state.limits)
    } else if opcode1 == get_device_names::OPCODE {
        device_facts::names_served(*state.info)
    } else if opcode1 == get_receive_channels::OPCODE {
        receive_page_served(state, content)
    } else if opcode1 == get_transmit_channels::OPCODE {
        page_served(
            TransmitChannels { info: state.info },
            content,
            page_space(state.info.tx_channels@.len()),
        )
    } else if opcode1 == get_transmit_channels_friendly_names::OPCODE {
        page_served(
            TransmitFriendlyNames { info: state.info },
            content,
            page_space(state.info.tx_channels@.len()),
        )
    } else if opcode1 == rename_tx_channel::OPCODE {
        renames::tx_renames_served(content)
    } else if opcode1 == RENAME_RX_OPCODE {
        renames::rx_rename_served(content)
    } else if opcode1 == QUERY_TX_FLOWS_OPCODE {
        tx_flows_served(state, content)
    } else if opcode1 == QUERY_RX_FLOWS_OPCODE {
        rx_flows_served(state, content)
    } else if opcode1 == SUBSCRIBE_OPCODE {
        state.subscriber is Some ==> subscriptions::subscribe_served(content)
    } else if opcode1 == UNSUBSCRIBE_OPCODE {
        state.subscriber is Some ==> subscriptions::unsubscribe_served(content)
    } else {
        true
    }
}

/// The answer to a request, step by step. A request with an unknown opcode gets none.
pub open spec fn reaction<'a>(
    state: ServerState<'a>,
    opcode1: u16,
    opcode2: u16,
    content: Seq<u8>,
) -> Seq<Step> {
    if opcode2 != 0 {
        Seq::empty()
    } else if opcode1 == channels_and_flows_count::OPCODE {
        only_respond(CODE_OK, device_facts::counts_payload(*state.info, state.limits))
    } else if opcode1 == GET_DEVICE_NAME_OPCODE {
        only_respond(CODE_OK, text::zero_terminated(state.info.friendly_hostname@))
    } else if opcode1 == get_device_names::OPCODE {
        only_respond(CODE_OK, device_facts::names_payload(*state.info))
    } else if opcode1 == get_receive_channels::OPCODE {
        receive_page_steps(state, content)
    } else if opcode1 == get_transmit_channels::OPCODE {
        page_steps(
            TransmitChannels { info: state.info },
            content,
            page_space(state.info.tx_channels@.len()),
        )
    } else if opcode1 == get_transmit_channels_friendly_names::OPCODE {
        page_steps(
            TransmitFriendlyNames { info: state.info },
            content,
            page_space(state.info.tx_channels@.len()),
        )
    } else if opcode1 == rename_tx_channel::OPCODE {
        renames::tx_rename_steps(*state.info, content)
    } else if opcode1 == RENAME_RX_OPCODE {
        renames::rx_rename_steps(*state.info, content)
    } else if opcode1 == QUERY_TX_FLOWS_OPCODE {
        tx_flows_steps(state, content)
    } else if opcode1 == 0x2320 {
        only_respond(0x30, Seq::empty())
    } else if opcode1 == QUERY_RX_FLOWS_OPCODE {
        rx_flows_steps(state, content)
    } else if opcode1 == 0x1100 {
        only_respond(CODE_OK, wire::zeros(110))
    } else if opcode1 == 0x1102 {
        only_respond(CODE_OK, wire::zeros(94))
    } else if opcode1 == 0x3300 {
        only_respond(CODE_OK, seq![0x38u8, 0x00, 0x38, 0xfd, 0x38, 0xfe, 0x38, 0xff])
    } else if opcode1 == SUBSCRIBE_OPCODE && state.subscriber is Some {
        subscriptions::subscribe_steps(content)
    } else if opcode1 == UNSUBSCRIBE_OPCODE && state.subscriber is Some {
        subscriptions::unsubscribe_steps(content)
    } else {
        Seq::empty()
    }
}

/// For how many channels a page has room, on a device with `len` of them.
fn compute_page_space(len: usize) -> (space: u8)
    ensures
        space == page_space(len as nat),
{
    if len < MAX_CHANNELS_IN_PAGE {
        len as u8
    } else {
        MAX_CHANNELS_IN_PAGE as u8
    }
}

/// Whether the requested page of a list can be written.
fn is_page_served<I: ItemSource>(items: &I, content: &[u8], space: u8) -> (ok: bool)
    ensures
        ok == page_served(*items, content@, space as nat),
{
    match proto_arc::extract_start_index(content) {
        None => true,
        Some(start) => proto_arc::is_page_encodable(items, start, space),
    }
}

/// Answers a request for a page of a list.
fn answer_page<I: ItemSource>(items: &I, content: &[u8], space: u8) -> (out: Vec<Action>)
    requires
        page_served(*items, content@, space as nat),
    ensures
        actions::steps(out@) == page_steps(*items, content@, space as nat),
{
    match proto_arc::paginate_respond(content, space, items) {
        None => actions::no_steps(),
        Some(reply) => actions::only_respond(reply.code, reply.payload),
    }
}

/// Whether the requested page of receive channels can be written.
fn is_receive_page_served<'a>(state: &ServerState<'a>, content: &[u8]) -> (ok: bool)
    ensures
        ok == receive_page_served(*state, content@),
{
    match state.subscriber {
        None => true,
        Some(subscriber) => {
            let items = ReceiveChannels { info: state.info, subscriptions: &subscriber.channels };
            is_page_served(&items, content, compute_page_space(state.info.rx_channels.len()))
        },
    }
}

/// Answers a request for a page of receive channels.
fn answer_receive_page<'a>(state: &ServerState<'a>, content: &[u8]) -> (out: Vec<Action>)
    requires
        receive_page_served(*state, content@),
    ensures
        actions::steps(out@) == receive_page_steps(*state, content@),
{
    match state.subscriber {
        None => {
            let subscriptions: Vec<Option<ChannelStatus>> = Vec::new();
            let items = ReceiveChannels { info: state.info, subscriptions: &subscriptions };
            let out = answer_page(&items, content, 0);
            proof {
                if let Some(start) = proto_arc::start_index(content@) {
                    assert(proto_arc::page_payload(items, start, 0) =~= seq![0u8, 0u8]);
                }
            }
            out
        },
        Some(subscriber) => {
            let items = ReceiveChannels { info: state.info, subscriptions: &subscriber.channels };
            answer_page(&items, content, compute_page_space(state.info.rx_channels.len()))
        },
    }
}

/// Whether the request gives the number of a slot from which transmitted flows can be described.
fn are_tx_flows_served<'a>(state: &ServerState<'a>, content: &[u8]) -> (ok: bool)
    ensures
        ok == tx_flows_served(*state, content@),
{
    match proto_arc::extract_start_index(content) {
        None => false,
        Some(start) => tx_flows::are_tx_flows_encodable(state.tx_flows, start),
    }
}

/// Answers a request for the list of transmitted flows.
fn answer_tx_flows<'a>(state: &ServerState<'a>, content: &[u8]) -> (out: Vec<Action>)
    requires
        tx_flows_served(*state, content@),
    ensures
        actions::steps(out@) == tx_flows_steps(*state, content@),
{
    let start_index: usize = wire::make_u16(content[2], content[3]) as usize - 1;
    let reply = tx_flows::query_tx_flows(state.info, state.tx_flows, start_index);
    actions::only_respond(reply.code, reply.payload)
}

/// Whether the request gives the number of a slot from which received flows can be described.
fn are_rx_flows_served<'a>(state: &ServerState<'a>, content: &[u8]) -> (ok: bool)
    ensures
        ok == rx_flows_served(*state, content@),
{
    match state.subscriber {
        None => true,
        Some(subscriber) => match proto_arc::extract_start_index(content) {
            None => false,
            Some(start) => rx_flows::are_rx_flows_encodable(state.info, &subscriber.flows, start),
        },
    }
}

/// Answers a request for the list of received flows.
fn answer_rx_flows<'a>(state: &ServerState<'a>, content: &[u8]) -> (out: Vec<Action>)
    requires
        rx_flows_served(*state, content@),
    ensures
        actions::steps(out@) == rx_flows_steps(*state, content@),
{
    match state.subscriber {
        None => actions::only_respond(CODE_OK, wire::zero_bytes(6)),
        Some(subscriber) => {
            let start_index: usize = wire::make_u16(content[2], content[3]) as usize - 1;
            let reply = rx_flows::query_rx_flows(state.info, &subscriber.flows, start_index);
            actions::only_respond(reply.code, reply.payload)
        },
    }
}

/// Whether the request can be answered.
pub fn can_serve<'a>(state: &ServerState<'a>, opcode1: u16, opcode2: u16, content: &[u8]) -> (ok:
    bool)
    ensures
        ok == served(*state, opcode1, opcode2, content@),
{
    if opcode2 != 0 {
        return true;
    }
    match opcode1 {
        channels_and_flows_count::OPCODE => device_facts::are_counts_served(
            state.info,
            &state.limits,
        ),
        get_device_names::OPCODE => device_facts::are_names_served(state.info),
        get_receive_channels::OPCODE => is_receive_page_served(state, content),
        get_transmit_channels::OPCODE => is_page_served(
            &TransmitChannels { info: state.info },
            content,
            compute_page_space(state.info.tx_channels.len()),
        ),
        get_transmit_channels_friendly_names::OPCODE => is_page_served(
            &TransmitFriendlyNames { info: state.info },
            content,
            compute_page_space(state.info.tx_channels.len()),
        ),
        rename_tx_channel::OPCODE => renames::are_tx_renames_served(content),
        RENAME_RX_OPCODE => renames::is_rx_rename_served(content),
        QUERY_TX_FLOWS_OPCODE => are_tx_flows_served(state, content),
        QUERY_RX_FLOWS_OPCODE => are_rx_flows_served(state, content),
        SUBSCRIBE_OPCODE => state.subscriber.is_none() || subscriptions::is_subscribe_served(
            content,
        ),
        UNSUBSCRIBE_OPCODE => state.subscriber.is_none() || subscriptions::is_unsubscribe_served(
            content,
        ),
        _ => true,
    }
}

/// Answers a request.
pub fn handle_request<'a>(
    state: &ServerState<'a>,
    opcode1: u16,
    opcode2: u16,
    content: &[u8],
) -> (out: Vec<Action>)
    requires
        served(*state, opcode1, opcode2, content@),
    ensures
        actions::steps(out@) == reaction(*state, opcode1, opcode2, content@),
{
    if opcode2 != 0 {
        return actions::no_steps();
    }
    match opcode1 {
        channels_and_flows_count::OPCODE => actions::only_respond(
            CODE_OK,
            device_facts::channels_and_flows_count(state.info, &state.limits),
        ),
        GET_DEVICE_NAME_OPCODE => actions::only_respond(
            CODE_OK,
            device_facts::device_name(state.info),
        ),
        get_device_names::OPCODE => actions::only_respond(CODE_OK, device_facts::names(state.info)),
        get_receive_channels::OPCODE => answer_receive_page(state, content),
        get_transmit_channels::OPCODE => answer_page(
            &TransmitChannels { info: state.info },
            content,
            compute_page_space(state.info.tx_channels.len()),
        ),
        get_transmit_channels_friendly_names::OPCODE => answer_page(
            &TransmitFriendlyNames { info: state.info },
            content,
            compute_page_space(state.info.tx_channels.len()),
        ),
        rename_tx_channel::OPCODE => renames::rename_tx(state.info, content),
        RENAME_RX_OPCODE => renames::rename_rx(state.info, content),
        QUERY_TX_FLOWS_OPCODE => answer_tx_flows(state, content),
        0x2320 => {
            let out = actions::only_respond(0x30, Vec::new());
            assert(actions::steps(out@) =~= only_respond(0x30, Seq::empty()));
            out
        },
        CREATE_MULTICAST_TX_FLOW_OPCODE => actions::no_steps(),
        QUERY_RX_FLOWS_OPCODE => answer_rx_flows(state, content),
        0x1100 => actions::only_respond(CODE_OK, wire::zero_bytes(110)),
        0x1102 => actions::only_respond(CODE_OK, wire::zero_bytes(94)),
        0x3300 => {
            let payload: Vec<u8> = vec![0x38, 0x00, 0x38, 0xfd, 0x38, 0xfe, 0x38, 0xff];
            assert(payload@ =~= seq![0x38u8, 0x00, 0x38, 0xfd, 0x38, 0xfe, 0x38, 0xff]);
            actions::only_respond(CODE_OK, payload)
        },
        SUBSCRIBE_OPCODE => if state.subscriber.is_some() {
            subscriptions::subscribe(content)
        } else {
            actions::no_steps()
        },
        UNSUBSCRIBE_OPCODE => if state.subscriber.is_some() {
            subscriptions::unsubscribe(content)
        } else {
            actions::no_steps()
        },
        _ => actions::no_steps(),
    }
}

/// How many of the steps send a response.
pub open spec fn responses(steps: Seq<Step>) -> nat
    decreases steps.len(),
{
    if steps.len() == 0 {
        0
    } else {
        responses(steps.drop_last()) + if steps.last() is Respond {
            1nat
        } else {
            0
        }
    }
}

proof fn lemma_no_response(steps: Seq<Step>)
    requires
        forall|i: int| 0 <= i < steps.len() ==> !(steps[i] is Respond),
    ensures
        responses(steps) == 0,
    decreases steps.len(),
{
    if steps.len() > 0 {
        lemma_no_response(steps.drop_last());
    }
}

/// The step belongs to the renaming of a transmit channel that the device has.
spec fn renames_existing(info: DeviceInfo, step: Step) -> bool {
    match step {
        Step::WithdrawTx { index } => index < info.tx_channels@.len(),
        Step::RenameTx { index, name } => index < info.tx_channels@.len(),
        Step::AdvertiseTx { index } => index < info.tx_channels@.len(),
        _ => false,
    }
}

proof fn lemma_rename_steps(info: DeviceInfo, content: Seq<u8>, n: nat)
    ensures
        forall|i: int|
            0 <= i < renames::tx_renames(info, content, n).len() ==> renames_existing(
                info,
                #[trigger] renames::tx_renames(info, content, n)[i],
            ),
    decreases n,
{
    if n > 0 {
        lemma_rename_steps(info, content, (n - 1) as nat);
        assert forall|i: int| 0 <= i < renames::tx_renames(info, content, n).len() implies
            renames_existing(info, #[trigger] renames::tx_renames(info, content, n)[i]) by {
            let before = renames::tx_renames(info, content, (n - 1) as nat);
            if i < before.len() {
                assert(renames::tx_renames(info, content, n)[i] == before[i]);
            }
        }
    }
}

proof fn lemma_subscription_steps(content: Seq<u8>, n: nat)
    ensures
        forall|i: int|
            0 <= i < subscriptions::subscriptions(content, n).len() ==> {
                ||| #[trigger] subscriptions::subscriptions(content, n)[i] is Subscribe
                ||| subscriptions::subscriptions(content, n)[i] is Unsubscribe
            },
    decreases n,
{
    if n > 0 {
        lemma_subscription_steps(content, (n - 1) as nat);
        assert forall|i: int| 0 <= i < subscriptions::subscriptions(content, n).len() implies ({
            ||| #[trigger] subscriptions::subscriptions(content, n)[i] is Subscribe
            ||| subscriptions::subscriptions(content, n)[i] is Unsubscribe
        }) by {
            let before = subscriptions::subscriptions(content, (n - 1) as nat);
            if i < before.len() {
                assert(subscriptions::subscriptions(content, n)[i] == before[i]);
            }
        }
    }
}

/// The request is one that gets a response: its opcode is known; where it asks for a page, it says
/// for which; and where it changes subscriptions, the receiving side runs.
pub open spec fn is_answered<'a>(
    state: ServerState<'a>,
    opcode1: u16,
    opcode2: u16,
    content: Seq<u8>,
) -> bool {
    opcode2 == 0 && if opcode1 == get_receive_channels::OPCODE || opcode1
        == get_transmit_channels::OPCODE || opcode1
        == get_transmit_channels_friendly_names::OPCODE {
        proto_arc::start_index(content) is Some
    } else if opcode1 == SUBSCRIBE_OPCODE || opcode1 == UNSUBSCRIBE_OPCODE {
        state.subscriber is Some
    } else {
        ||| opcode1 == channels_and_flows_count::OPCODE
        ||| opcode1 == GET_DEVICE_NAME_OPCODE
        ||| opcode1 == get_device_names::OPCODE
        ||| opcode1 == rename_tx_channel::OPCODE
        ||| opcode1 == RENAME_RX_OPCODE
        ||| opcode1 == QUERY_TX_FLOWS_OPCODE
        ||| opcode1 == QUERY_RX_FLOWS_OPCODE
        ||| opcode1 == 0x2320
        ||| opcode1 == 0x1100
        ||| opcode1 == 0x1102
        ||| opcode1 == 0x3300
    }
}

/// A request gets one response if it is one that gets a response, and none otherwise.
pub proof fn one_response_or_none<'a>(
    state: ServerState<'a>,
    opcode1: u16,
    opcode2: u16,
    content: Seq<u8>,
)
    ensures
        responses(reaction(state, opcode1, opcode2, content)) == if is_answered(
            state,
            opcode1,
            opcode2,
            content,
        ) {
            1nat
        } else {
            0
        },
{
    reveal_with_fuel(responses, 4);
    let n = rename_tx_channel::items(content).len();
    let renamed = renames::tx_renames(*state.info, content, n);
    lemma_rename_steps(*state.info, content, n);
    lemma_no_response(renamed);
    assert(renames::tx_rename_steps(*state.info, content).drop_last() =~= renamed);
    let subscribed = subscriptions::subscriptions(content, content[1] as nat);
    lemma_subscription_steps(content, content[1] as nat);
    lemma_no_response(subscribed);
    assert(subscriptions::subscribe_steps(content).drop_last() =~= subscribed);
}

/// Only channels that the device has are withdrawn, renamed and advertised.
pub proof fn renamed_channels_exist<'a>(
    state: ServerState<'a>,
    opcode1: u16,
    opcode2: u16,
    content: Seq<u8>,
    i: int,
)
    requires
        0 <= i < reaction(state, opcode1, opcode2, content).len(),
        served(state, opcode1, opcode2, content),
    ensures
        match reaction(state, opcode1, opcode2, content)[i] {
            Step::WithdrawTx { index } => index < state.info.tx_channels@.len(),
            Step::RenameTx { index, name } => index < state.info.tx_channels@.len(),
            Step::AdvertiseTx { index } => index < state.info.tx_channels@.len(),
            Step::RenameRx { index, name } => index < state.info.rx_channels@.len(),
            _ => true,
        },
{
    let n = rename_tx_channel::items(content).len();
    lemma_rename_steps(*state.info, content, n);
    let renamed = renames::tx_renames(*state.info, content, n);
    if opcode2 == 0 && opcode1 == rename_tx_channel::OPCODE && i < renamed.len() {
        assert(reaction(state, opcode1, opcode2, content)[i] == renamed[i]);
    }
    lemma_subscription_steps(content, content[1] as nat);
    let subscribed = subscriptions::subscriptions(content, content[1] as nat);
    if opcode2 == 0 && opcode1 == SUBSCRIBE_OPCODE && i < subscribed.len()
        && state.subscriber is Some {
        assert(reaction(state, opcode1, opcode2, content)[i] == subscribed[i]);
    }
}

/// While the receiving side does not run, no request changes a subscription.
pub proof fn no_subscription_without_subscriber<'a>(
    state: ServerState<'a>,
    opcode1: u16,
    opcode2: u16,
    content: Seq<u8>,
    i: int,
)
    requires
        state.subscriber is None,
        0 <= i < reaction(state, opcode1, opcode2, content).len(),
    ensures
        !(reaction(state, opcode1, opcode2, content)[i] is Subscribe),
        !(reaction(state, opcode1, opcode2, content)[i] is Unsubscribe),
{
    let n = rename_tx_channel::items(content).len();
    lemma_rename_steps(*state.info, content, n);
    let renamed = renames::tx_renames(*state.info, content, n);
    if opcode2 == 0 && opcode1 == rename_tx_channel::OPCODE && i < renamed.len() {
        assert(reaction(state, opcode1, opcode2, content)[i] == renamed[i]);
    }
}

} // verus!
