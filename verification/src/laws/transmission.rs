//! How multicast flows are kept between runs, and how their addresses are checked.
use vstd::prelude::*;

use crate::device_server::tx_multicasts;
use crate::device_server::tx_multicasts::{
    Bundle,
    Event,
    FlowsRecord,
    MulticastDestination,
    Phase,
    SavedFlows,
    SlotRecord,
};

verus! {

/// The channels in each slot are those of the flow in it, place by place.
pub proof fn slots_hold_the_channels_of_their_flows(bundles: Seq<Option<Bundle>>, i: int)
    requires
        0 <= i < bundles.len(),
    ensures
        tx_multicasts::channels(bundles).len() == bundles.len(),
        match bundles[i] {
            Some(bundle) => tx_multicasts::channels(bundles)[i] == Some(
                bundle.local_channel_indices@,
            ),
            None => tx_multicasts::channels(bundles)[i] is None,
        },
{
}

/// The flows that were kept stay in their slots, and the slots behind them, up to the limit, are
/// empty.
pub proof fn kept_flows_stay_in_their_slots(
    kept: Seq<Option<Seq<Option<usize>>>>,
    max_flows: nat,
    i: int,
)
    ensures
        ({
            let slots = tx_multicasts::padded(kept, max_flows);
            &&& slots.len() >= kept.len()
            &&& slots.len() >= max_flows
            &&& slots.len() == kept.len() || slots.len() == max_flows
            &&& 0 <= i < kept.len() ==> slots[i] == kept[i]
            &&& kept.len() <= i < slots.len() ==> slots[i] is None
        }),
{
}

/// A flow is absent, or a place of one is.
pub open spec fn something_absent(slots: Seq<Option<Seq<Option<usize>>>>) -> bool {
    exists|i: int, j: int| #[trigger] absent(slots, i, j)
}

/// Slot `i` is empty, or place `j` of the flow in it is.
pub open spec fn absent(slots: Seq<Option<Seq<Option<usize>>>>, i: int, j: int) -> bool {
    0 <= i < slots.len() && match slots[i] {
        None => true,
        Some(places) => 0 <= j < places.len() && places[j] is None,
    }
}

/// The flows are written as plain lists of their channels exactly where nothing is absent.
/// Otherwise every slot and every place says whether it is used, and a place that is not used gives
/// the channel zero.
#[verifier::rlimit(40)]
#[verifier::spinoff_prover]
pub proof fn flows_are_written_place_by_place(slots: Seq<Option<Seq<Option<usize>>>>)
    ensures
        match tx_multicasts::saved_flows(slots) {
            FlowsRecord::Plain(lists) => {
                &&& !something_absent(slots)
                &&& lists.len() == slots.len()
                &&& forall|i: int|
                    0 <= i < slots.len() ==> (#[trigger] lists[i]).len() == slots[i]->0.len()
                &&& forall|i: int, j: int|
                    0 <= i < slots.len() && 0 <= j < slots[i]->0.len()
                        ==> #[trigger] slots[i]->0[j] == Some(lists[i][j])
            },
            FlowsRecord::Marked(records) => {
                &&& something_absent(slots)
                &&& records.len() == slots.len()
                &&& forall|i: int|
                    0 <= i < slots.len() ==> ((#[trigger] records[i]).used <==> slots[i] is Some)
                        && records[i].places.len() == match slots[i] {
                        Some(places) => places.len(),
                        None => 0,
                    }
                &&& forall|i: int, j: int|
                    0 <= i < slots.len() && slots[i] is Some && 0 <= j < slots[i]->0.len() ==> {
                        let place = #[trigger] records[i].places[j];
                        match slots[i]->0[j] {
                            Some(channel) => place.used && place.channel == channel,
                            None => !place.used && place.channel == 0,
                        }
                    }
            },
        },
{
    if tx_multicasts::nothing_absent(slots) {
        assert forall|i: int, j: int| !#[trigger] absent(slots, i, j) by {
            if absent(slots, i, j) {
                assert(slots[i] is Some && tx_multicasts::all_used(slots[i]->0));
                assert(slots[i]->0[j] is Some);
            }
        }
        let lists = tx_multicasts::saved_flows(slots)->Plain_0;
        assert forall|i: int, j: int|
            0 <= i < slots.len() && 0 <= j < slots[i]->0.len() implies #[trigger] slots[i]->0[j]
            == Some(lists[i][j]) by {
            assert(slots[i] is Some && tx_multicasts::all_used(slots[i]->0));
            assert(lists[i] == tx_multicasts::plain_places(slots[i]->0));
        }
    } else {
        let i = choose|i: int|
            0 <= i < slots.len() && !((#[trigger] slots[i]) is Some && tx_multicasts::all_used(
                slots[i]->0,
            ));
        if slots[i] is Some {
            let places = slots[i]->0;
            let j = choose|j: int| 0 <= j < places.len() && !((#[trigger] places[j]) is Some);
            assert(absent(slots, i, j));
        } else {
            assert(absent(slots, i, 0));
        }
        let records = tx_multicasts::saved_flows(slots)->Marked_0;
        assert forall|i: int| 0 <= i < slots.len() implies #[trigger] records[i]
            == tx_multicasts::saved_slot(slots[i]) by {}
    }
}

/// Plain lists are read as flows with every place used.
pub proof fn plain_lists_are_read_place_by_place(lists: Seq<Seq<usize>>, i: int, j: int)
    requires
        0 <= i < lists.len(),
        0 <= j < lists[i].len(),
    ensures
        ({
            let slots = tx_multicasts::read_flows(FlowsRecord::Plain(lists));
            &&& slots.len() == lists.len()
            &&& slots[i] is Some
            &&& slots[i]->0.len() == lists[i].len()
            &&& slots[i]->0[j] == Some(lists[i][j])
        }),
{
}

/// Slots and places that say whether they are used are read so.
pub proof fn marked_slots_are_read_place_by_place(records: Seq<SlotRecord>, i: int, j: int)
    requires
        0 <= i < records.len(),
        0 <= j < records[i].places.len(),
    ensures
        ({
            let slots = tx_multicasts::read_flows(FlowsRecord::Marked(records));
            &&& slots.len() == records.len()
            &&& slots[i] is Some <==> records[i].used
            &&& records[i].used ==> {
                &&& slots[i]->0.len() == records[i].places.len()
                &&& slots[i]->0[j] == if records[i].places[j].used {
                    Some(records[i].places[j].channel)
                } else {
                    None
                }
            }
        }),
{
    let slots = tx_multicasts::read_flows(FlowsRecord::Marked(records));
    assert(slots[i] == tx_multicasts::read_slot(records[i]));
}

/// The address that stands for none is 0.0.0.0.
pub proof fn no_address_is_all_zeros(addr: Seq<u8>)
    requires
        addr.len() == 4,
    ensures
        tx_multicasts::is_unspecified(addr) <==> addr == seq![0u8, 0, 0, 0],
{
    if tx_multicasts::is_unspecified(addr) {
        assert(addr =~= seq![0u8, 0, 0, 0]);
    } else {
        assert(seq![0u8, 0, 0, 0][0] == 0);
    }
}

/// How the check of an address goes on, answer by answer. Where it could not be found out whether an
/// address is in use, it counts as in use.
pub proof fn check_goes_on_by_its_answers(
    answer: Option<bool>,
    free: bool,
    present: bool,
    should_work: bool,
    address: MulticastDestination,
)
    ensures
        tx_multicasts::next_phase(Phase::FirstAnswer, Event::InUse(answer)) == match answer {
            Some(false) => Phase::SecondAnswer,
            Some(true) => Phase::Transmitter { free: false },
            None => Phase::Transmitter { free: false },
        },
        tx_multicasts::next_phase(Phase::SecondAnswer, Event::InUse(answer)) == match answer {
            Some(false) => Phase::Transmitter { free: true },
            Some(true) => Phase::Transmitter { free: false },
            None => Phase::Transmitter { free: false },
        },
        ({
            let next = tx_multicasts::next_phase(
                Phase::Transmitter { free },
                Event::TransmitterState { present, should_work },
            );
            &&& !present || !should_work ==> next == Phase::Done
            &&& present && should_work && free ==> next == Phase::Done
            &&& present && should_work && !free ==> next == Phase::Address
        }),
        tx_multicasts::next_phase(Phase::Address, Event::NewDestination(address))
            == Phase::FirstAnswer,
        tx_multicasts::activates(
            (Phase::Transmitter { free }),
            (Event::TransmitterState { present, should_work }),
        ) <==> free && present && should_work,
{
}

/// Each phase waits for its own kind of event. Only a new address changes the address.
pub proof fn each_phase_waits_for_its_event(
    phase: Phase,
    event: Event,
    address: MulticastDestination,
)
    ensures
        tx_multicasts::expects(phase, event) <==> match event {
            Event::InUse(_) => phase is FirstAnswer || phase is SecondAnswer,
            Event::TransmitterState { present, should_work } => phase is Transmitter,
            Event::NewDestination(_) => phase is Address,
        },
        match event {
            Event::NewDestination(new) => tx_multicasts::next_destination(address, event) == new,
            _ => tx_multicasts::next_destination(address, event) == address,
        },
        tx_multicasts::reserved(phase, event, address) == if phase is FirstAnswer && (
        event matches Event::InUse(answer) && answer == Some(false)) {
            Some(address)
        } else {
            None
        },
        tx_multicasts::activates(phase, event) ==> (phase matches Phase::Transmitter { free }
            && free) && event is TransmitterState,
{
}

/// What is told of the form in which flows are written is what its fields hold.
pub proof fn written_form_tells_its_fields(saved: SavedFlows, i: int)
    ensures
        match saved {
            SavedFlows::Plain(bundles) => {
                &&& saved@ is Plain
                &&& saved@->Plain_0.len() == bundles@.len()
                &&& 0 <= i < bundles@.len() ==> saved@->Plain_0[i]
                    == bundles@[i].local_channel_indices@
            },
            SavedFlows::Marked(slots) => {
                &&& saved@ is Marked
                &&& saved@->Marked_0.len() == slots.slots@.len()
                &&& 0 <= i < slots.slots@.len() ==> saved@->Marked_0[i].used == slots.slots@[i].used
                    && saved@->Marked_0[i].places == slots.slots@[i].places@
            },
        },
{
}

} // verus!
