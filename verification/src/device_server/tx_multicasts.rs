//! Multicast flows that the device transmits, and how their addresses are chosen.
use vstd::prelude::*;

use crate::device_info::{DeviceInfo, FlowLimits};

verus! {

/// The channels of a multicast flow, as they are kept between runs.
#[derive(Debug)]
pub struct Bundle {
    pub local_channel_indices: Vec<Option<usize>>,
}

/// The multicast flow in each slot.
#[derive(Debug)]
pub struct Bundles {
    pub bundles: Vec<Option<Bundle>>,
}

/// Where a multicast flow is sent to.
#[derive(Debug, Clone, Copy, PartialEq, Eq)]
pub struct MulticastDestination {
    pub addr: [u8; 4],
    pub port: u16,
}

/// A flow that the transmitter is to set up, silent at first.
#[derive(Debug)]
pub struct NewFlow {
    pub destination: MulticastDestination,
    pub local_channel_indices: Vec<Option<usize>>,
    pub fpp: u16,
    pub bytes_per_sample: u8,
    pub flow_index: usize,
}

/// The channels in each slot.
pub open spec fn channels(bundles: Seq<Option<Bundle>>) -> Seq<Option<Seq<Option<usize>>>> {
    bundles.map_values(
        |b: Option<Bundle>|
            match b {
                Some(bundle) => Some(bundle.local_channel_indices@),
                None => None,
            },
    )
}

/// The slots that were kept, with empty ones behind them up to `max_flows`.
pub open spec fn padded(kept: Seq<Option<Seq<Option<usize>>>>, max_flows: nat) -> Seq<
    Option<Seq<Option<usize>>>,
> {
    Seq::new(
        if kept.len() < max_flows {
            max_flows
        } else {
            kept.len()
        },
        |i: int|
            if i < kept.len() {
                kept[i]
            } else {
                None
            },
    )
}

/// The address that stands for no address.
pub open spec fn is_unspecified(addr: Seq<u8>) -> bool {
    addr[0] == 0 && addr[1] == 0 && addr[2] == 0 && addr[3] == 0
}

/// The multicast flows of the device.
#[derive(Debug)]
pub struct TransmitMulticasts {
    pub bundles: Bundles,
    /// Whether the transmitter is to go on.
    pub should_work: bool,
}

/// Copies a list of channels.
fn copied(list: &Vec<Option<usize>>) -> (out: Vec<Option<usize>>)
    ensures
        out@ == list@,
{
    let mut out: Vec<Option<usize>> = Vec::new();
    let mut i: usize = 0;
    while i < list.len()
        invariant
            i <= list@.len(),
            out@ == list@.take(i as int),
        decreases list@.len() - i,
    {
        out.push(list[i]);
        assert(out@ =~= list@.take(i + 1));
        i = i + 1;
    }
    assert(list@.take(i as int) =~= list@);
    out
}

/// Describes a flow to the transmitter.
fn make_flow(
    info: &DeviceInfo,
    limits: &FlowLimits,
    flow_index: usize,
    channel_indices: &Vec<Option<usize>>,
    destination: MulticastDestination,
) -> (flow: NewFlow)
    ensures
        flow.destination == destination,
        flow.local_channel_indices@ == channel_indices@,
        flow.fpp == limits.fpp_max_advertised,
        flow.bytes_per_sample == info.bits_per_sample / 8,
        flow.flow_index == flow_index,
{
    NewFlow {
        destination,
        local_channel_indices: copied(channel_indices),
        fpp: limits.fpp_max_advertised,
        bytes_per_sample: info.bits_per_sample / 8,
        flow_index,
    }
}

impl TransmitMulticasts {
    /// There is a slot for every flow that the transmitter can have.
    pub open spec fn well_formed(&self, max_flows: nat) -> bool {
        self.bundles.bundles@.len() >= max_flows
    }

    /// The channels in each slot.
    pub open spec fn slots(&self) -> Seq<Option<Seq<Option<usize>>>> {
        channels(self.bundles.bundles@)
    }

    /// Takes up the flows that were kept. A file that could not be read counts as empty.
    pub fn new(kept: Option<Bundles>, max_flows: usize) -> (r: Self)
        ensures
            r.well_formed(max_flows as nat),
            r.should_work,
            r.slots() == padded(
                if kept is Some {
                    channels(kept->0.bundles@)
                } else {
                    Seq::empty()
                },
                max_flows as nat,
            ),
    {
        let mut bundles: Vec<Option<Bundle>> = match kept {
            Some(b) => b.bundles,
            None => Vec::new(),
        };
        let ghost before = bundles@;
        proof {
            if kept is None {
                assert(channels(before) =~= Seq::empty());
            }
            assert(channels(before).len() == before.len());
        }
        while bundles.len() < max_flows
            invariant
                before.len() <= bundles@.len(),
                bundles@.len() <= max_flows || bundles@.len() == before.len(),
                forall|i: int|
                    0 <= i < bundles@.len() ==> #[trigger] bundles@[i] == if i < before.len() {
                        before[i]
                    } else {
                        None
                    },
            decreases max_flows - bundles@.len(),
        {
            bundles.push(None);
        }
        proof {
            assert(channels(bundles@) =~= padded(channels(before), max_flows as nat));
        }
        TransmitMulticasts { bundles: Bundles { bundles }, should_work: true }
    }

    /// Puts a flow into an empty slot. `destination` is the address that the transmitter chose, if
    /// there is a transmitter. Returns the flow that the transmitter is to set up, and whether its
    /// address is then to be checked for conflicts.
    pub fn add_flow(
        &mut self,
        info: &DeviceInfo,
        limits: &FlowLimits,
        flow_index: usize,
        channel_indices: Vec<Option<usize>>,
        destination: Option<MulticastDestination>,
    ) -> (out: (Option<NewFlow>, bool))
        requires
            flow_index < old(self).slots().len(),
            old(self).slots()[flow_index as int] is None,
        ensures
            match destination {
                None => out.0 is None && !out.1,
                Some(dst) => {
                    &&& out.0 matches Some(flow) && {
                        &&& flow.destination == dst
                        &&& flow.local_channel_indices@ == channel_indices@
                        &&& flow.fpp == limits.fpp_max_advertised
                        &&& flow.bytes_per_sample == info.bits_per_sample / 8
                        &&& flow.flow_index == flow_index
                    }
                    &&& out.1 == !is_unspecified(dst.addr@)
                },
            },
            final(self).slots() == old(self).slots().update(
                flow_index as int,
                Some(channel_indices@),
            ),
            final(self).should_work == old(self).should_work,
    {
        let flow = match destination {
            Some(dst) => Some(make_flow(info, limits, flow_index, &channel_indices, dst)),
            None => None,
        };
        let check: bool = match destination {
            Some(dst) => dst.addr[0] != 0 || dst.addr[1] != 0 || dst.addr[2] != 0 || dst.addr[3]
                != 0,
            None => false,
        };
        self.bundles.bundles.set(
            flow_index,
            Some(Bundle { local_channel_indices: channel_indices }),
        );
        assert(self.slots() =~= old(self).slots().update(
            flow_index as int,
            Some(channel_indices@),
        ));
        (flow, check)
    }

    /// Empties a slot.
    pub fn remove_flow(&mut self, flow_index: usize)
        requires
            flow_index < old(self).slots().len(),
        ensures
            final(self).slots() == old(self).slots().update(flow_index as int, None),
            final(self).should_work == old(self).should_work,
    {
        self.bundles.bundles.set(flow_index, None);
        assert(self.slots() =~= old(self).slots().update(flow_index as int, None));
    }

    /// Tells every check that is under way to give up.
    pub fn shutdown(&mut self)
        ensures
            !final(self).should_work,
            final(self).bundles == old(self).bundles,
    {
        self.should_work = false;
    }
}

/// A place in a flow, as it is written to a file: whether it is used, and by which channel.
#[derive(Debug, Clone, Copy, PartialEq, Eq, Structural)]
pub struct SavedPlace {
    pub used: bool,
    /// The index of the channel; zero in a place that is not used.
    pub channel: usize,
}

/// A slot, as it is written to a file: whether a flow is in it, and the places of the flow.
#[derive(Debug)]
pub struct SavedSlot {
    pub used: bool,
    /// Empty in a slot that is not used.
    pub places: Vec<SavedPlace>,
}

/// All slots, as they are written to a file where something is absent. The format of the file has
/// no sign for that, so every slot and every place tells whether it is used.
#[derive(Debug)]
pub struct SavedSlots {
    pub slots: Vec<SavedSlot>,
}

/// A flow without unused places, as it is written to a file.
#[derive(Debug)]
pub struct SavedBundle {
    pub local_channel_indices: Vec<usize>,
}

/// The flows, as they are written to a file.
#[derive(Debug)]
pub enum SavedFlows {
    /// Every slot holds a flow, and every place of every flow is used.
    Plain(Vec<SavedBundle>),
    /// Some slot or some place is not used.
    Marked(SavedSlots),
}

/// What is written of the flows.
pub enum FlowsRecord {
    Plain(Seq<Seq<usize>>),
    Marked(Seq<SlotRecord>),
}

impl View for SavedFlows {
    type V = FlowsRecord;

    open spec fn view(&self) -> FlowsRecord {
        match self {
            SavedFlows::Plain(bundles) => FlowsRecord::Plain(
                bundles@.map_values(|b: SavedBundle| b.local_channel_indices@),
            ),
            SavedFlows::Marked(saved) => FlowsRecord::Marked(records(saved.slots@)),
        }
    }
}

/// What is written of a slot.
pub struct SlotRecord {
    pub used: bool,
    pub places: Seq<SavedPlace>,
}

impl View for SavedSlot {
    type V = SlotRecord;

    open spec fn view(&self) -> SlotRecord {
        SlotRecord { used: self.used, places: self.places@ }
    }
}

/// What is written of slots.
pub open spec fn records(slots: Seq<SavedSlot>) -> Seq<SlotRecord> {
    slots.map_values(|s: SavedSlot| s@)
}

/// What is written of a place in a flow.
pub open spec fn saved_place(place: Option<usize>) -> SavedPlace {
    match place {
        Some(channel) => SavedPlace { used: true, channel },
        None => SavedPlace { used: false, channel: 0 },
    }
}

/// The place that was written.
pub open spec fn read_place(place: SavedPlace) -> Option<usize> {
    if place.used {
        Some(place.channel)
    } else {
        None
    }
}

/// What is written of a slot.
pub open spec fn saved_slot(slot: Option<Seq<Option<usize>>>) -> SlotRecord {
    match slot {
        Some(places) => SlotRecord {
            used: true,
            places: places.map_values(|p: Option<usize>| saved_place(p)),
        },
        None => SlotRecord { used: false, places: Seq::empty() },
    }
}

/// The slot that was written.
pub open spec fn read_slot(record: SlotRecord) -> Option<Seq<Option<usize>>> {
    if record.used {
        Some(record.places.map_values(|p: SavedPlace| read_place(p)))
    } else {
        None
    }
}

/// What is written of slots.
pub open spec fn saved_slots(slots: Seq<Option<Seq<Option<usize>>>>) -> Seq<SlotRecord> {
    slots.map_values(|s: Option<Seq<Option<usize>>>| saved_slot(s))
}

/// The slots that were written.
pub open spec fn read_slots(saved: Seq<SlotRecord>) -> Seq<Option<Seq<Option<usize>>>> {
    saved.map_values(|r: SlotRecord| read_slot(r))
}

/// Every place of the flow is used.
pub open spec fn all_used(places: Seq<Option<usize>>) -> bool {
    forall|i: int| 0 <= i < places.len() ==> #[trigger] places[i] is Some
}

/// Every slot holds a flow, and every place of every flow is used.
pub open spec fn nothing_absent(slots: Seq<Option<Seq<Option<usize>>>>) -> bool {
    forall|i: int|
        0 <= i < slots.len() ==> (#[trigger] slots[i]) is Some && all_used(slots[i]->0)
}

/// The channels of a flow without unused places.
pub open spec fn plain_places(places: Seq<Option<usize>>) -> Seq<usize> {
    places.map_values(|p: Option<usize>| p->0)
}

/// What is written of the flows: the lists of their channels, where nothing is absent.
pub open spec fn saved_flows(slots: Seq<Option<Seq<Option<usize>>>>) -> FlowsRecord {
    if nothing_absent(slots) {
        FlowsRecord::Plain(slots.map_values(|s: Option<Seq<Option<usize>>>| plain_places(s->0)))
    } else {
        FlowsRecord::Marked(saved_slots(slots))
    }
}

/// The slots of the flows that were written.
pub open spec fn read_flows(record: FlowsRecord) -> Seq<Option<Seq<Option<usize>>>> {
    match record {
        FlowsRecord::Plain(bundles) => bundles.map_values(
            |b: Seq<usize>| Some(b.map_values(|c: usize| Some(c))),
        ),
        FlowsRecord::Marked(saved) => read_slots(saved),
    }
}

/// The channels of a flow, unless a place is not used.
fn plain_channels(places: &Vec<Option<usize>>) -> (out: Option<Vec<usize>>)
    ensures
        match out {
            Some(list) => all_used(places@) && list@ == plain_places(places@),
            None => !all_used(places@),
        },
{
    let mut list: Vec<usize> = Vec::new();
    let mut i: usize = 0;
    while i < places.len()
        invariant
            i <= places@.len(),
            list@.len() == i,
            forall|k: int| 0 <= k < i ==> (#[trigger] places@[k]) is Some,
            forall|k: int| 0 <= k < i ==> #[trigger] list@[k] == places@[k]->0,
        decreases places@.len() - i,
    {
        match places[i] {
            Some(channel) => {
                list.push(channel);
            },
            None => {
                assert(!(places@[i as int] is Some));
                return None;
            },
        }
        i = i + 1;
    }
    assert(list@ =~= plain_places(places@));
    Some(list)
}

/// A flow in which every place is used.
fn used_places(channels: &Vec<usize>) -> (out: Vec<Option<usize>>)
    ensures
        out@ == channels@.map_values(|c: usize| Some(c)),
{
    let mut out: Vec<Option<usize>> = Vec::new();
    let mut i: usize = 0;
    while i < channels.len()
        invariant
            i <= channels@.len(),
            out@.len() == i,
            forall|k: int| 0 <= k < i ==> #[trigger] out@[k] == Some(channels@[k]),
        decreases channels@.len() - i,
    {
        out.push(Some(channels[i]));
        i = i + 1;
    }
    assert(out@ =~= channels@.map_values(|c: usize| Some(c)));
    out
}

/// What is written of the places of a flow.
fn save_places(places: &Vec<Option<usize>>) -> (out: Vec<SavedPlace>)
    ensures
        out@ == places@.map_values(|p: Option<usize>| saved_place(p)),
{
    let mut out: Vec<SavedPlace> = Vec::new();
    let mut i: usize = 0;
    while i < places.len()
        invariant
            i <= places@.len(),
            out@.len() == i,
            forall|k: int| 0 <= k < i ==> #[trigger] out@[k] == saved_place(places@[k]),
        decreases places@.len() - i,
    {
        out.push(
            match places[i] {
                Some(channel) => SavedPlace { used: true, channel },
                None => SavedPlace { used: false, channel: 0 },
            },
        );
        i = i + 1;
    }
    assert(out@ =~= places@.map_values(|p: Option<usize>| saved_place(p)));
    out
}

/// The places of a flow that were written.
fn read_places(places: &Vec<SavedPlace>) -> (out: Vec<Option<usize>>)
    ensures
        out@ == places@.map_values(|p: SavedPlace| read_place(p)),
{
    let mut out: Vec<Option<usize>> = Vec::new();
    let mut i: usize = 0;
    while i < places.len()
        invariant
            i <= places@.len(),
            out@.len() == i,
            forall|k: int| 0 <= k < i ==> #[trigger] out@[k] == read_place(places@[k]),
        decreases places@.len() - i,
    {
        out.push(
            if places[i].used {
                Some(places[i].channel)
            } else {
                None
            },
        );
        i = i + 1;
    }
    assert(out@ =~= places@.map_values(|p: SavedPlace| read_place(p)));
    out
}

impl Bundles {
    /// The lists of channels of all flows, unless something is absent.
    fn to_plain(&self) -> (out: Option<Vec<SavedBundle>>)
        ensures
            match out {
                Some(bundles) => {
                    &&& nothing_absent(channels(self.bundles@))
                    &&& SavedFlows::Plain(bundles)@ == saved_flows(channels(self.bundles@))
                },
                None => !nothing_absent(channels(self.bundles@)),
            },
    {
        let ghost slots = channels(self.bundles@);
        let mut bundles: Vec<SavedBundle> = Vec::new();
        let mut i: usize = 0;
        while i < self.bundles.len()
            invariant
                slots == channels(self.bundles@),
                i <= self.bundles@.len(),
                bundles@.len() == i,
                forall|k: int|
                    0 <= k < i ==> (#[trigger] slots[k]) is Some && all_used(slots[k]->0),
                forall|k: int|
                    0 <= k < i ==> (#[trigger] bundles@[k]).local_channel_indices@ == plain_places(
                        slots[k]->0,
                    ),
            decreases self.bundles@.len() - i,
        {
            let list = match &self.bundles[i] {
                Some(bundle) => plain_channels(&bundle.local_channel_indices),
                None => None,
            };
            match list {
                Some(local_channel_indices) => {
                    bundles.push(SavedBundle { local_channel_indices });
                },
                None => {
                    assert(!(slots[i as int] is Some && all_used(slots[i as int]->0)));
                    return None;
                },
            }
            i = i + 1;
        }
        proof {
            assert(bundles@.map_values(|b: SavedBundle| b.local_channel_indices@)
                =~= slots.map_values(|s: Option<Seq<Option<usize>>>| plain_places(s->0)));
        }
        Some(bundles)
    }

    /// The flows that were written as lists of channels.
    fn from_plain(saved: &Vec<SavedBundle>) -> (out: Bundles)
        ensures
            channels(out.bundles@) == read_flows(
                FlowsRecord::Plain(saved@.map_values(|b: SavedBundle| b.local_channel_indices@)),
            ),
    {
        let mut bundles: Vec<Option<Bundle>> = Vec::new();
        let mut i: usize = 0;
        while i < saved.len()
            invariant
                i <= saved@.len(),
                bundles@.len() == i,
                forall|k: int|
                    0 <= k < i ==> (#[trigger] bundles@[k]) is Some
                        && bundles@[k]->0.local_channel_indices@
                        == saved@[k].local_channel_indices@.map_values(|c: usize| Some(c)),
            decreases saved@.len() - i,
        {
            let places = used_places(&saved[i].local_channel_indices);
            bundles.push(Some(Bundle { local_channel_indices: places }));
            i = i + 1;
        }
        proof {
            let lists = saved@.map_values(|b: SavedBundle| b.local_channel_indices@);
            assert(channels(bundles@) =~= read_flows(FlowsRecord::Plain(lists)));
        }
        Bundles { bundles }
    }

    /// The flows in the form in which they are written to a file: the lists of their channels where
    /// nothing is absent, and slots that tell whether they are used otherwise.
    pub fn to_saved(&self) -> (out: SavedFlows)
        ensures
            out@ == saved_flows(channels(self.bundles@)),
    {
        match self.to_plain() {
            Some(bundles) => SavedFlows::Plain(bundles),
            None => SavedFlows::Marked(self.to_marked()),
        }
    }

    /// The flows that were written to a file.
    pub fn from_saved(saved: &SavedFlows) -> (out: Bundles)
        ensures
            channels(out.bundles@) == read_flows(saved@),
    {
        match saved {
            SavedFlows::Plain(bundles) => Self::from_plain(bundles),
            SavedFlows::Marked(slots) => Self::from_marked(slots),
        }
    }

    /// All slots, each of which tells whether it is used.
    fn to_marked(&self) -> (out: SavedSlots)
        ensures
            records(out.slots@) == saved_slots(channels(self.bundles@)),
    {
        let mut slots: Vec<SavedSlot> = Vec::new();
        let mut i: usize = 0;
        while i < self.bundles.len()
            invariant
                i <= self.bundles@.len(),
                slots@.len() == i,
                forall|k: int|
                    0 <= k < i ==> (#[trigger] slots@[k])@ == saved_slot(
                        channels(self.bundles@)[k],
                    ),
            decreases self.bundles@.len() - i,
        {
            let slot = match &self.bundles[i] {
                Some(bundle) => SavedSlot {
                    used: true,
                    places: save_places(&bundle.local_channel_indices),
                },
                None => SavedSlot { used: false, places: Vec::new() },
            };
            assert(slot@ == saved_slot(channels(self.bundles@)[i as int])) by {
                if !slot.used {
                    assert(slot.places@ =~= Seq::<SavedPlace>::empty());
                }
            }
            slots.push(slot);
            i = i + 1;
        }
        assert(records(slots@) =~= saved_slots(channels(self.bundles@)));
        SavedSlots { slots }
    }

    /// The flows that were written as slots that tell whether they are used.
    fn from_marked(saved: &SavedSlots) -> (out: Bundles)
        ensures
            channels(out.bundles@) == read_slots(records(saved.slots@)),
    {
        let mut bundles: Vec<Option<Bundle>> = Vec::new();
        let mut i: usize = 0;
        while i < saved.slots.len()
            invariant
                i <= saved.slots@.len(),
                bundles@.len() == i,
                forall|k: int|
                    0 <= k < i ==> #[trigger] channels(bundles@)[k] == read_slot(saved.slots@[k]@),
            decreases saved.slots@.len() - i,
        {
            let ghost so_far = channels(bundles@);
            let bundle = if saved.slots[i].used {
                Some(Bundle { local_channel_indices: read_places(&saved.slots[i].places) })
            } else {
                None
            };
            bundles.push(bundle);
            assert forall|k: int| 0 <= k < i + 1 implies #[trigger] channels(bundles@)[k]
                == read_slot(saved.slots@[k]@) by {
                if k < i {
                    assert(channels(bundles@)[k] == so_far[k]);
                }
            }
            i = i + 1;
        }
        assert(channels(bundles@) =~= read_slots(records(saved.slots@))) by {
            assert forall|k: int| 0 <= k < bundles@.len() implies channels(bundles@)[k]
                == read_slots(records(saved.slots@))[k] by {
                assert(channels(bundles@)[k] == read_slot(saved.slots@[k]@));
            }
        }
        Bundles { bundles }
    }
}

/// Writing the flows and reading them gives the same slots, empty ones and unused places among
/// them.
pub proof fn saved_flows_are_read_back(slots: Seq<Option<Seq<Option<usize>>>>)
    ensures
        read_flows(saved_flows(slots)) == slots,
{
    if nothing_absent(slots) {
        assert forall|i: int| 0 <= i < slots.len() implies read_flows(saved_flows(slots))[i]
            == slots[i] by {
            let places = slots[i]->0;
            assert(slots[i] is Some && all_used(places));
            assert forall|k: int| 0 <= k < places.len() implies Some(places[k]->0) == places[k] by {
                assert(places[k] is Some);
            }
            assert(plain_places(places).map_values(|c: usize| Some(c)) =~= places);
        }
        assert(read_flows(saved_flows(slots)) =~= slots);
    } else {
        lemma_saved_slots(slots);
    }
}

/// Writing slots that tell whether they are used, and reading them, gives the same slots.
proof fn lemma_saved_slots(slots: Seq<Option<Seq<Option<usize>>>>)
    ensures
        read_slots(saved_slots(slots)) == slots,
{
    assert forall|i: int| 0 <= i < slots.len() implies read_slot(saved_slot(slots[i])) == slots[i]
        by {
        if let Some(places) = slots[i] {
            assert(saved_slot(slots[i]).places.map_values(|p: SavedPlace| read_place(p))
                =~= places);
        }
    }
    assert(read_slots(saved_slots(slots)) =~= slots);
}

/// A restart takes up the flows as they were when they were last written to the file.
pub proof fn flows_survive_restart(slots: Seq<Option<Seq<Option<usize>>>>, max_flows: nat)
    requires
        slots.len() >= max_flows,
    ensures
        padded(read_flows(saved_flows(slots)), max_flows) == slots,
{
    saved_flows_are_read_back(slots);
    assert(padded(slots, max_flows) =~= slots);
}

/// Removing a flow undoes adding it.
pub proof fn removing_undoes_adding(
    slots: Seq<Option<Seq<Option<usize>>>>,
    index: int,
    added: Seq<Option<usize>>,
)
    requires
        0 <= index < slots.len(),
        slots[index] is None,
    ensures
        slots.update(index, Some(added)).update(index, None) == slots,
{
    assert(slots.update(index, Some(added)).update(index, None) =~= slots);
}

/// What a check of the address of a flow waits for.
#[derive(Debug, Clone, Copy, PartialEq, Eq, Structural)]
pub enum Phase {
    /// Whether the address is in use by another device.
    FirstAnswer,
    /// The same, after the address was reserved.
    SecondAnswer,
    /// The state of the transmitter. `free` tells that both answers were favourable.
    Transmitter { free: bool },
    /// Another address.
    Address,
    /// Nothing any more.
    Done,
}

/// What a check of an address is told.
#[derive(Debug, Clone, Copy, PartialEq, Eq)]
pub enum Event {
    /// Whether the address is in use by another device; none where that could not be found out.
    InUse(Option<bool>),
    /// Whether there is a transmitter, and whether it is to go on.
    TransmitterState { present: bool, should_work: bool },
    /// The transmitter chose this address instead.
    NewDestination(MulticastDestination),
}

/// What is to be done next.
#[derive(Debug)]
pub enum Todo {
    /// Ask whether the address is in use.
    Ask(MulticastDestination),
    /// Reserve the address, and ask again whether it is in use.
    ReserveAndAsk(MulticastDestination),
    /// Lock the transmitter and look at its state.
    LookAtTransmitter,
    /// Let the flow in this slot transmit.
    Activate(usize),
    /// Remove the flow from this slot and choose another address, keeping the transmitter locked.
    Replace(usize),
    /// Set up this flow and release the transmitter; then ask whether its address is in use.
    AddAndAsk(NewFlow),
    /// Give up.
    Stop,
}

/// The phase after an event.
pub open spec fn next_phase(phase: Phase, event: Event) -> Phase {
    match (phase, event) {
        (Phase::FirstAnswer, Event::InUse(answer)) => if answer == Some(false) {
            Phase::SecondAnswer
        } else {
            Phase::Transmitter { free: false }
        },
        (Phase::SecondAnswer, Event::InUse(answer)) => Phase::Transmitter {
            free: answer == Some(false),
        },
        (
            Phase::Transmitter { free },
            Event::TransmitterState { present, should_work },
        ) => if present && should_work && !free {
            Phase::Address
        } else {
            Phase::Done
        },
        (Phase::Address, Event::NewDestination(_)) => Phase::FirstAnswer,
        (phase, _) => phase,
    }
}

/// The address of the flow after an event: an answer leaves it as it is.
pub open spec fn next_destination(destination: MulticastDestination, event: Event) ->
    MulticastDestination {
    match event {
        Event::NewDestination(dst) => dst,
        _ => destination,
    }
}

/// The address that is reserved after an event, before the second answer is asked for.
pub open spec fn reserved(
    phase: Phase,
    event: Event,
    destination: MulticastDestination,
) -> Option<MulticastDestination> {
    if phase is FirstAnswer && event == Event::InUse(Some(false)) {
        Some(destination)
    } else {
        None
    }
}

/// The event is one that the phase waits for.
pub open spec fn expects(phase: Phase, event: Event) -> bool {
    match phase {
        Phase::FirstAnswer => event is InUse,
        Phase::SecondAnswer => event is InUse,
        Phase::Transmitter { free } => event is TransmitterState,
        Phase::Address => event is NewDestination,
        Phase::Done => false,
    }
}

/// The flow is let to transmit after this event.
pub open spec fn activates(phase: Phase, event: Event) -> bool {
    &&& phase == (Phase::Transmitter { free: true })
    &&& event == (Event::TransmitterState { present: true, should_work: true })
}

/// The check of the address of a flow, which goes on until an address is free.
#[derive(Debug)]
pub struct Activation {
    pub flow_index: usize,
    pub channel_indices: Vec<Option<usize>>,
    pub destination: MulticastDestination,
    pub phase: Phase,
}

impl Activation {
    /// Starts the check of the address of a flow. The first thing to do is to ask whether it is in
    /// use.
    pub fn start(
        flow_index: usize,
        channel_indices: Vec<Option<usize>>,
        destination: MulticastDestination,
    ) -> (r: (Activation, Todo))
        ensures
            r.0.flow_index == flow_index,
            r.0.channel_indices == channel_indices,
            r.0.destination == destination,
            r.0.phase == Phase::FirstAnswer,
            r.1 == Todo::Ask(destination),
    {
        (
            Activation { flow_index, channel_indices, destination, phase: Phase::FirstAnswer },
            Todo::Ask(destination),
        )
    }

    /// Takes in an event and tells what to do next.
    pub fn next(&mut self, info: &DeviceInfo, limits: &FlowLimits, event: Event) -> (todo: Todo)
        requires
            expects(old(self).phase, event),
        ensures
            final(self).phase == next_phase(old(self).phase, event),
            final(self).flow_index == old(self).flow_index,
            final(self).channel_indices == old(self).channel_indices,
            final(self).destination == next_destination(old(self).destination, event),
            match reserved(old(self).phase, event, old(self).destination) {
                Some(dst) => todo == Todo::ReserveAndAsk(dst),
                None => !(todo is ReserveAndAsk),
            },
            match final(self).phase {
                Phase::SecondAnswer => todo == Todo::ReserveAndAsk(old(self).destination),
                Phase::Transmitter { free } => todo == Todo::LookAtTransmitter,
                Phase::Address => todo == Todo::Replace(old(self).flow_index),
                Phase::FirstAnswer => todo matches Todo::AddAndAsk(flow) && {
                    &&& flow.destination == final(self).destination
                    &&& flow.local_channel_indices@ == old(self).channel_indices@
                    &&& flow.fpp == limits.fpp_max_advertised
                    &&& flow.bytes_per_sample == info.bits_per_sample / 8
                    &&& flow.flow_index == old(self).flow_index
                },
                Phase::Done => todo == if activates(old(self).phase, event) {
                    Todo::Activate(old(self).flow_index)
                } else {
                    Todo::Stop
                },
            },
    {
        match (self.phase, event) {
            (Phase::FirstAnswer, Event::InUse(answer)) => {
                let in_use: bool = match answer {
                    Some(in_use) => in_use,
                    None => true,
                };
                if in_use {
                    self.phase = Phase::Transmitter { free: false };
                    Todo::LookAtTransmitter
                } else {
                    self.phase = Phase::SecondAnswer;
                    Todo::ReserveAndAsk(self.destination)
                }
            },
            (Phase::SecondAnswer, Event::InUse(answer)) => {
                let in_use: bool = match answer {
                    Some(in_use) => in_use,
                    None => true,
                };
                self.phase = Phase::Transmitter { free: !in_use };
                Todo::LookAtTransmitter
            },
            (
                Phase::Transmitter { free },
                Event::TransmitterState { present, should_work },
            ) => if !present || !should_work {
                self.phase = Phase::Done;
                Todo::Stop
            } else if free {
                self.phase = Phase::Done;
                Todo::Activate(self.flow_index)
            } else {
                self.phase = Phase::Address;
                Todo::Replace(self.flow_index)
            },
            (Phase::Address, Event::NewDestination(dst)) => {
                self.destination = dst;
                self.phase = Phase::FirstAnswer;
                Todo::AddAndAsk(
                    make_flow(info, limits, self.flow_index, &self.channel_indices, dst),
                )
            },
            _ => {
                assert(false);
                Todo::Stop
            },
        }
    }
}

/// The phase after a sequence of events, from the start of a check.
pub open spec fn phase_after(events: Seq<Event>) -> Phase
    decreases events.len(),
{
    if events.len() == 0 {
        Phase::FirstAnswer
    } else {
        next_phase(phase_after(events.drop_last()), events.last())
    }
}

/// The address of the flow after a sequence of events, from the start of a check of `first`.
pub open spec fn destination_after(first: MulticastDestination, events: Seq<Event>) ->
    MulticastDestination
    decreases events.len(),
{
    if events.len() == 0 {
        first
    } else {
        next_destination(destination_after(first, events.drop_last()), events.last())
    }
}

/// Each event of the sequence is one that the check waits for.
pub open spec fn is_run(events: Seq<Event>) -> bool
    decreases events.len(),
{
    events.len() == 0 || (is_run(events.drop_last()) && expects(
        phase_after(events.drop_last()),
        events.last(),
    ))
}

/// The second answer is waited for only after the address was reserved that it is about, and no
/// answer changes the address.
pub proof fn second_answer_is_about_the_reserved_address(
    phase: Phase,
    event: Event,
    destination: MulticastDestination,
)
    requires
        expects(phase, event),
    ensures
        next_phase(phase, event) is SecondAnswer <==> reserved(phase, event, destination) is Some,
        reserved(phase, event, destination) matches Some(address) ==> address
            == next_destination(destination, event),
        event is InUse ==> next_destination(destination, event) == destination,
{
}

/// A flow transmits only after its address was found free, reserved, and found free again, with
/// nothing in between; and only if there is then a transmitter that is to go on. The address that
/// it then has is the one that the first answer was about, that was reserved on that answer, and
/// that the second answer was about.
pub proof fn activated_only_after_two_free_answers(
    first: MulticastDestination,
    events: Seq<Event>,
    event: Event,
)
    requires
        is_run(events),
        expects(phase_after(events), event),
        activates(phase_after(events), event),
    ensures
        events.len() >= 2,
        events[events.len() - 1] == Event::InUse(Some(false)),
        events[events.len() - 2] == Event::InUse(Some(false)),
        event == (Event::TransmitterState { present: true, should_work: true }),
        ({
            let address = next_destination(destination_after(first, events), event);
            let before_second = events.drop_last();
            let before_first = before_second.drop_last();
            &&& destination_after(first, before_first) == address
            &&& reserved(phase_after(before_first), before_second.last(), address) == Some(address)
            &&& phase_after(before_second) is SecondAnswer
            &&& destination_after(first, before_second) == address
        }),
{
    reveal_with_fuel(is_run, 3);
    reveal_with_fuel(destination_after, 3);
    let some = events.drop_last();
    assert(phase_after(some) is SecondAnswer);
    let fewer = some.drop_last();
    assert(phase_after(fewer) is FirstAnswer);
    assert(some.last() == events[events.len() - 2]);
}

/// Once the transmitter is gone or is not to go on, a check that looks at it gives up, whatever it
/// found out before.
pub proof fn check_gives_up_after_shutdown(phase: Phase, event: Event)
    requires
        phase is Transmitter,
        event matches Event::TransmitterState { present, should_work } && !(present && should_work),
    ensures
        next_phase(phase, event) is Done,
        !activates(phase, event),
{
}

/// Between the removal of a flow whose address is in use and the set-up of its replacement, the
/// check waits for nothing but the new address.
pub proof fn replacement_is_not_interrupted(event: Event)
    requires
        expects(Phase::Address, event),
    ensures
        event is NewDestination,
        next_phase(Phase::Address, event) == Phase::FirstAnswer,
{
}

} // verus!
