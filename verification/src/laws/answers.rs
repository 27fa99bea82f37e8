//! Which request gets which answer, and which requests can be answered.
use vstd::arithmetic::div_mod::*;
use vstd::prelude::*;

use crate::arc_server::actions::Step;
use crate::arc_server::channel_lists::{ReceiveChannels, TransmitChannels, TransmitFriendlyNames};
use crate::arc_server::device_facts;
use crate::arc_server::dispatch;
use crate::arc_server::dispatch::ServerState;
use crate::arc_server::flow_lists;
use crate::arc_server::renames;
use crate::arc_server::rx_flows;
use crate::arc_server::subscriptions;
use crate::arc_server::tx_flows;
use crate::device_info::{DeviceInfo, RxFlowInfo, TxFlowInfo};
use crate::laws::flow_counts;
use crate::laws::reading;
use crate::laws::requests;
use crate::protocol::proto_arc;
use crate::protocol::proto_arc::ItemSource;

verus! {

/// The only step is to send a response.
pub open spec fn answers(steps: Seq<Step>, code: u16, payload: Seq<u8>) -> bool {
    steps.len() == 1 && requests::responds(steps[0], code, payload)
}

/// For how many channels a page has room: for all of the device, and for 32 at most.
pub open spec fn room(channels: nat) -> nat {
    if channels <= 32 {
        channels
    } else {
        32
    }
}

/// The answer is a page of the list, from the item whose number the request holds on. A request
/// without a number gets no answer.
pub open spec fn answers_page<I: ItemSource>(
    steps: Seq<Step>,
    items: I,
    content: Seq<u8>,
    space: nat,
) -> bool {
    if content.len() < 4 || reading::number16(content, 2) == 0 {
        steps.len() == 0
    } else {
        let start = (reading::number16(content, 2) - 1) as nat;
        answers(
            steps,
            proto_arc::page_code(proto_arc::page_end(items, start, space).more),
            proto_arc::page_payload(items, start, space),
        )
    }
}

/// Requests for facts about the device: 0x1000 asks for the counts, 0x1002 for the name that the
/// user gave it, 0x1003 for all names.
pub proof fn facts_are_told<'a>(state: ServerState<'a>, content: Seq<u8>, payload: Seq<u8>)
    requires
        reading::spells(payload, 0, state.info.friendly_hostname@),
        payload.len() == vstd::utf8::encode_utf8(state.info.friendly_hostname@).len() + 1,
    ensures
        answers(
            dispatch::reaction(state, 0x1000, 0, content),
            1,
            device_facts::counts_payload(*state.info, state.limits),
        ),
        answers(dispatch::reaction(state, 0x1002, 0, content), 1, payload),
        answers(
            dispatch::reaction(state, 0x1003, 0, content),
            1,
            device_facts::names_payload(*state.info),
        ),
{
    let raw = vstd::utf8::encode_utf8(state.info.friendly_hostname@);
    assert(payload =~= raw.push(0)) by {
        assert forall|i: int| 0 <= i < raw.len() implies payload[i] == raw[i] by {
            assert(payload.subrange(0, raw.len() as int)[i] == payload[i]);
        }
    }
}

/// Requests for pages of channels: 0x2000 asks for transmit channels, 0x2010 for the names that the
/// user gave them, 0x3000 for receive channels. While the receiving side does not run, the page of
/// receive channels is empty.
pub proof fn pages_are_sent<'a>(state: ServerState<'a>, content: Seq<u8>)
    ensures
        answers_page(
            dispatch::reaction(state, 0x2000, 0, content),
            TransmitChannels { info: state.info },
            content,
            room(state.info.tx_channels@.len()),
        ),
        answers_page(
            dispatch::reaction(state, 0x2010, 0, content),
            TransmitFriendlyNames { info: state.info },
            content,
            room(state.info.tx_channels@.len()),
        ),
        match *state.subscriber {
            Some(subscriber) => answers_page(
                dispatch::reaction(state, 0x3000, 0, content),
                ReceiveChannels { info: state.info, subscriptions: &subscriber.channels },
                content,
                room(state.info.rx_channels@.len()),
            ),
            None => {
                let steps = dispatch::reaction(state, 0x3000, 0, content);
                if content.len() < 4 || reading::number16(content, 2) == 0 {
                    steps.len() == 0
                } else {
                    answers(steps, 1, seq![0u8, 0u8])
                }
            },
        },
{
}

/// Requests for lists of flows: 0x2200 asks for transmitted flows, 0x3200 for received ones, from
/// the slot whose number, counted from one, the request holds. While the receiving side does not
/// run, the list of received flows is six zero bytes.
pub proof fn flows_are_listed<'a>(state: ServerState<'a>, content: Seq<u8>)
    ensures
        ({
            let start = reading::number16(content, 2) - 1;
            &&& answers(
                dispatch::reaction(state, 0x2200, 0, content),
                flow_lists::flows_code(state.tx_flows@, start),
                tx_flows::tx_flows_payload(*state.info, state.tx_flows@, start),
            )
            &&& match *state.subscriber {
                Some(subscriber) => answers(
                    dispatch::reaction(state, 0x3200, 0, content),
                    flow_lists::flows_code(subscriber.flows@, start),
                    rx_flows::rx_flows_payload(*state.info, subscriber.flows@, start),
                ),
                None => answers(
                    dispatch::reaction(state, 0x3200, 0, content),
                    1,
                    seq![0u8, 0, 0, 0, 0, 0],
                ),
            }
        }),
{
    assert(crate::wire::zeros(6) =~= seq![0u8, 0, 0, 0, 0, 0]);
}

/// Requests that change something: 0x2013 renames transmit channels, 0x3001 a receive channel,
/// 0x3010 subscribes, 0x3014 ends a subscription. While the receiving side does not run, the latter
/// two get no answer.
pub proof fn changes_are_made<'a>(state: ServerState<'a>, content: Seq<u8>)
    ensures
        dispatch::reaction(state, 0x2013, 0, content) == renames::tx_rename_steps(
            *state.info,
            content,
        ),
        dispatch::reaction(state, 0x3001, 0, content) == renames::rx_rename_steps(
            *state.info,
            content,
        ),
        *state.subscriber is Some ==> dispatch::reaction(state, 0x3010, 0, content)
            == subscriptions::subscribe_steps(content) && dispatch::reaction(
            state,
            0x3014,
            0,
            content,
        ) == subscriptions::unsubscribe_steps(content),
        *state.subscriber is None ==> dispatch::reaction(state, 0x3010, 0, content).len() == 0
            && dispatch::reaction(state, 0x3014, 0, content).len() == 0,
{
}

/// Requests whose answer never changes.
pub proof fn fixed_answers<'a>(state: ServerState<'a>, content: Seq<u8>)
    ensures
        answers(dispatch::reaction(state, 0x2320, 0, content), 0x30, Seq::empty()),
        answers(
            dispatch::reaction(state, 0x3300, 0, content),
            1,
            seq![0x38u8, 0x00, 0x38, 0xfd, 0x38, 0xfe, 0x38, 0xff],
        ),
        ({
            let steps = dispatch::reaction(state, 0x1100, 0, content);
            steps.len() == 1 && (steps[0] matches Step::Respond { code, payload } && code == 1
                && payload.len() == 110 && reading::zero_from(payload, 0, 110))
        }),
        ({
            let steps = dispatch::reaction(state, 0x1102, 0, content);
            steps.len() == 1 && (steps[0] matches Step::Respond { code, payload } && code == 1
                && payload.len() == 94 && reading::zero_from(payload, 0, 94))
        }),
{
}

/// Every other request, and every request whose second opcode is not zero, leads to nothing.
pub proof fn other_requests_lead_to_nothing<'a>(
    state: ServerState<'a>,
    opcode1: u16,
    opcode2: u16,
    content: Seq<u8>,
)
    requires
        opcode2 != 0 || !(opcode1 == 0x1000 || opcode1 == 0x1002 || opcode1 == 0x1003 || opcode1
            == 0x2000 || opcode1 == 0x2010 || opcode1 == 0x3000 || opcode1 == 0x2200 || opcode1
            == 0x3200 || opcode1 == 0x2013 || opcode1 == 0x3001 || opcode1 == 0x3010 || opcode1
            == 0x3014 || opcode1 == 0x2320 || opcode1 == 0x3300 || opcode1 == 0x1100 || opcode1
            == 0x1102),
    ensures
        dispatch::reaction(state, opcode1, opcode2, content).len() == 0,
        dispatch::served(state, opcode1, opcode2, content),
{
}

/// A list of transmitted flows can be told exactly where the number of every flow that it lists, the
/// number of its places and the numbers of its channels fit two bytes.
#[verifier::rlimit(40)]
#[verifier::spinoff_prover]
pub proof fn tx_flows_are_told_where_they_fit(flows: Seq<Option<TxFlowInfo>>, start: int)
    requires
        0 <= start,
    ensures
        tx_flows::tx_flows_encodable(flows, start) <==> forall|slot: int|
            start <= slot < start + flow_counts::listed_slots(flows, start) ==> (
            #[trigger] flows[slot] matches Some(flow) ==> {
                &&& slot + 1 < 0x10000
                &&& flow.local_channel_indices@.len() < 0x10000
                &&& forall|i: int|
                    0 <= i < flow.local_channel_indices@.len() ==> (
                    #[trigger] flow.local_channel_indices@[i] matches Some(channel) ==> channel + 1
                        < 0x10000)
            }),
{
    flow_counts::lemma_listed(flows, start);
    if tx_flows::tx_flows_encodable(flows, start) {
        assert forall|slot: int|
            start <= slot < start + flow_counts::listed_slots(flows, start) implies (
        #[trigger] flows[slot] matches Some(flow) ==> {
            &&& slot + 1 < 0x10000
            &&& flow.local_channel_indices@.len() < 0x10000
            &&& forall|i: int|
                0 <= i < flow.local_channel_indices@.len() ==> (
                #[trigger] flow.local_channel_indices@[i] matches Some(channel) ==> channel + 1
                    < 0x10000)
        }) by {
            assert(flows[slot] matches Some(flow) ==> tx_flows::tx_flow_encodable(slot, flow));
        }
    } else {
        let slot = choose|slot: int|
            start <= slot < start + flow_lists::covered(flows, start) && !(
            #[trigger] flows[slot] matches Some(flow) ==> tx_flows::tx_flow_encodable(slot, flow));
        assert(flows[slot] is Some);
        assert(!tx_flows::tx_flow_encodable(slot, flows[slot]->0));
    }
}

/// A received flow can be told exactly where the device has a sample rate, the latency is below
/// 2^32 nanoseconds, and its samples times 10^9 stay below 2^64.
#[verifier::rlimit(40)]
#[verifier::spinoff_prover]
pub proof fn rx_flow_is_told_where_it_fits(info: DeviceInfo, flow: RxFlowInfo)
    ensures
        rx_flows::rx_flow_encodable(info, flow) <==> {
            &&& info.sample_rate > 0
            &&& flow.latency_samples * 1_000_000_000 < 0x1_0000_0000_0000_0000
            &&& flow.latency_samples * 1_000_000_000 < 0x1_0000_0000 * info.sample_rate
        },
{
    let total = flow.latency_samples * 1_000_000_000;
    let rate = info.sample_rate as int;
    if rate > 0 {
        lemma_fundamental_div_mod(total, rate);
        lemma_mod_bound(total, rate);
        let ns = total / rate;
        assert(ns <= 0xffff_ffff <==> total < 0x1_0000_0000 * rate) by (nonlinear_arith)
            requires
                total == rate * ns + total % rate,
                0 <= total % rate < rate,
        ;
    }
}

/// A list of received flows can be told exactly where every flow that it lists can.
pub proof fn rx_flows_are_told_where_they_fit(
    info: DeviceInfo,
    flows: Seq<Option<RxFlowInfo>>,
    start: int,
)
    requires
        0 <= start,
    ensures
        rx_flows::rx_flows_encodable(info, flows, start) <==> forall|slot: int|
            start <= slot < start + flow_counts::listed_slots(flows, start) ==> (
            #[trigger] flows[slot] matches Some(flow) ==> rx_flows::rx_flow_encodable(info, flow)),
{
    flow_counts::lemma_listed(flows, start);
}

/// A page of channels can be told wherever the numbers of the channels and the size of the packet
/// fit two bytes.
#[verifier::rlimit(40)]
#[verifier::spinoff_prover]
pub proof fn pages_are_told_where_they_fit<'a>(
    info: &'a DeviceInfo,
    subscribed: ReceiveChannels<'a>,
    start: nat,
    space: nat,
)
    requires
        space <= 32,
        subscribed.info == info,
    ensures
        ({
            let items = TransmitChannels { info };
            info.tx_channels@.len() < 0x10000 && proto_arc::page_payload(items, start, space).len()
                + 10 < 0x10000 ==> proto_arc::page_encodable(items, start, space)
        }),
        ({
            let items = TransmitFriendlyNames { info };
            info.tx_channels@.len() < 0x10000 && proto_arc::page_payload(items, start, space).len()
                + 10 < 0x10000 ==> proto_arc::page_encodable(items, start, space)
        }),
        info.rx_channels@.len() < 0x10000 && proto_arc::page_payload(
            subscribed,
            start,
            space,
        ).len() + 10 < 0x10000 ==> proto_arc::page_encodable(subscribed, start, space),
{
    let channels = TransmitChannels { info };
    let names = TransmitFriendlyNames { info };
    if info.tx_channels@.len() < 0x10000 && proto_arc::page_payload(channels, start, space).len()
        + 10 < 0x10000 {
        assert forall|n: nat| n < proto_arc::page_end(channels, start, space).written implies
            channels.encodable(
            (start + n) as int,
            n == 0,
            proto_arc::data_base::<TransmitChannels<'a>>(space),
            #[trigger] proto_arc::data_offset(channels, start, space, n),
        ) by {
            lemma_item_fits(channels, start, space, n);
        }
    }
    if info.tx_channels@.len() < 0x10000 && proto_arc::page_payload(names, start, space).len() + 10
        < 0x10000 {
        assert forall|n: nat| n < proto_arc::page_end(names, start, space).written implies
            names.encodable(
            (start + n) as int,
            n == 0,
            proto_arc::data_base::<TransmitFriendlyNames<'a>>(space),
            #[trigger] proto_arc::data_offset(names, start, space, n),
        ) by {
            lemma_item_fits(names, start, space, n);
        }
    }
    if info.rx_channels@.len() < 0x10000 && proto_arc::page_payload(subscribed, start, space).len()
        + 10 < 0x10000 {
        assert forall|n: nat| n < proto_arc::page_end(subscribed, start, space).written implies
            subscribed.encodable(
            (start + n) as int,
            n == 0,
            proto_arc::data_base::<ReceiveChannels<'a>>(space),
            #[trigger] proto_arc::data_offset(subscribed, start, space, n),
        ) by {
            lemma_item_fits(subscribed, start, space, n);
        }
    }
}

/// The data of an item on a page ends inside the packet.
proof fn lemma_item_fits<I: ItemSource>(items: I, start: nat, space: nat, n: nat)
    requires
        0 < space <= 255,
        n < proto_arc::page_end(items, start, space).written,
    ensures
        start + n < items.count(),
        proto_arc::data_offset(items, start, space, n) + items.data(
            (start + n) as int,
            n == 0,
        ).len() <= proto_arc::page_payload(items, start, space).len() + 10,
{
    proto_arc::lemma_page_end(items, start, space, 0);
    proto_arc::data_stands_at_its_offset(items, start, space, n);
}

/// Each request is held to what its own answer needs.
pub proof fn requests_are_held_to_their_own_needs<'a>(state: ServerState<'a>, content: Seq<u8>)
    ensures
        dispatch::served(state, 0x1000, 0, content) <==> device_facts::counts_served(
            *state.info,
            state.limits,
        ),
        dispatch::served(state, 0x1002, 0, content),
        dispatch::served(state, 0x1003, 0, content) <==> device_facts::names_served(*state.info),
        dispatch::served(state, 0x2013, 0, content) <==> renames::tx_renames_served(content),
        dispatch::served(state, 0x3001, 0, content) <==> renames::rx_rename_served(content),
        dispatch::served(state, 0x3010, 0, content) <==> (*state.subscriber is Some
            ==> subscriptions::subscribe_served(content)),
        dispatch::served(state, 0x3014, 0, content) <==> (*state.subscriber is Some
            ==> subscriptions::unsubscribe_served(content)),
        dispatch::served(state, 0x2200, 0, content) <==> content.len() >= 4 && reading::number16(
            content,
            2,
        ) >= 1 && tx_flows::tx_flows_encodable(state.tx_flows@, reading::number16(content, 2) - 1),
        dispatch::served(state, 0x3200, 0, content) <==> (*state.subscriber matches Some(subscriber)
            ==> content.len() >= 4 && reading::number16(content, 2) >= 1
            && rx_flows::rx_flows_encodable(
            *state.info,
            subscriber.flows@,
            reading::number16(content, 2) - 1,
        )),
        dispatch::served(state, 0x2000, 0, content) <==> (content.len() >= 4 && reading::number16(
            content,
            2,
        ) >= 1 ==> proto_arc::page_encodable(
            (TransmitChannels { info: state.info }),
            (reading::number16(content, 2) - 1) as nat,
            room(state.info.tx_channels@.len()),
        )),
        dispatch::served(state, 0x2010, 0, content) <==> (content.len() >= 4 && reading::number16(
            content,
            2,
        ) >= 1 ==> proto_arc::page_encodable(
            (TransmitFriendlyNames { info: state.info }),
            (reading::number16(content, 2) - 1) as nat,
            room(state.info.tx_channels@.len()),
        )),
        dispatch::served(state, 0x3000, 0, content) <==> (*state.subscriber matches Some(subscriber)
            ==> (content.len() >= 4 && reading::number16(content, 2) >= 1
            ==> proto_arc::page_encodable(
            (ReceiveChannels { info: state.info, subscriptions: &subscriber.channels }),
            (reading::number16(content, 2) - 1) as nat,
            room(state.info.rx_channels@.len()),
        ))),
        dispatch::served(state, 0x2320, 0, content),
        dispatch::served(state, 0x3300, 0, content),
        dispatch::served(state, 0x1100, 0, content),
        dispatch::served(state, 0x1102, 0, content),
{
}

} // verus!
