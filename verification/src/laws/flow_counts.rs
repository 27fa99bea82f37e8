//! How many flows a list of flows covers, and where it gives their positions.
use vstd::prelude::*;

use crate::arc_server::flow_lists;
use crate::laws::reading;
use crate::wire;

verus! {

/// How many of the slots from `from` to `to` hold a flow.
pub open spec fn in_use<F>(flows: Seq<Option<F>>, from: int, to: int) -> nat {
    flows.subrange(from, to).filter(|slot: Option<F>| slot is Some).len()
}

/// How many slots a list that starts at slot `start` covers: one for each flow that stands there or
/// behind, twelve at most.
pub open spec fn listed_slots<F>(flows: Seq<Option<F>>, start: int) -> nat {
    if start >= flows.len() {
        0
    } else if in_use(flows, start, flows.len() as int) > 12 {
        12
    } else {
        in_use(flows, start, flows.len() as int)
    }
}

/// One slot more is one flow more where the slot holds one.
pub(crate) proof fn lemma_one_more<F>(flows: Seq<Option<F>>, from: int, to: int)
    requires
        0 <= from <= to < flows.len(),
    ensures
        in_use(flows, from, to + 1) == in_use(flows, from, to) + if flows[to] is Some {
            1nat
        } else {
            0
        },
{
    reveal(Seq::filter);
    assert(flows.subrange(from, to + 1).drop_last() =~= flows.subrange(from, to));
}

/// No slots hold no flow.
pub(crate) proof fn lemma_none<F>(flows: Seq<Option<F>>, from: int)
    requires
        0 <= from <= flows.len(),
    ensures
        in_use(flows, from, from) == 0,
{
    reveal(Seq::filter);
    assert(flows.subrange(from, from) =~= Seq::empty());
}

/// More slots hold no fewer flows.
pub(crate) proof fn lemma_in_use_grows<F>(
    flows: Seq<Option<F>>,
    from: int,
    middle: int,
    to: int,
)
    requires
        0 <= from <= middle <= to <= flows.len(),
    ensures
        in_use(flows, from, middle) <= in_use(flows, from, to),
    decreases to - middle,
{
    if middle < to {
        lemma_in_use_grows(flows, from, middle, to - 1);
        lemma_one_more(flows, from, to - 1);
    }
}

/// The last slot before `to` that holds a flow.
#[verifier::rlimit(40)]
#[verifier::spinoff_prover]
pub(crate) proof fn lemma_last_used<F>(flows: Seq<Option<F>>, from: int, to: int) -> (slot: int)
    requires
        0 <= from <= to <= flows.len(),
        in_use(flows, from, to) > 0,
    ensures
        from <= slot < to,
        flows[slot] is Some,
        in_use(flows, from, slot) + 1 == in_use(flows, from, to),
    decreases to - from,
{
    if from == to {
        lemma_none(flows, from);
        from
    } else {
        lemma_one_more(flows, from, to - 1);
        if flows[to - 1] is Some {
            to - 1
        } else {
            lemma_last_used(flows, from, to - 1)
        }
    }
}

proof fn lemma_used_splits<F>(flows: Seq<Option<F>>, start: int, middle: int)
    requires
        0 <= start <= middle <= flows.len(),
    ensures
        flow_lists::used_from(flows, start) == in_use(flows, start, middle) + flow_lists::used_from(
            flows,
            middle,
        ),
    decreases middle - start,
{
    if start == middle {
        lemma_none(flows, start);
    } else {
        lemma_used_splits(flows, start, middle - 1);
        lemma_one_more(flows, start, middle - 1);
    }
}

/// The two counts of slots in use agree.
pub(crate) proof fn lemma_listed<F>(flows: Seq<Option<F>>, start: int)
    requires
        0 <= start,
    ensures
        flow_lists::covered(flows, start) == listed_slots(flows, start),
        start < flows.len() ==> flow_lists::used_from(flows, start) == in_use(
            flows,
            start,
            flows.len() as int,
        ),
        start + listed_slots(flows, start) <= flows.len() || listed_slots(flows, start) == 0,
{
    flow_lists::lemma_used(flows, start);
    if start < flows.len() {
        lemma_used_splits(flows, start, flows.len() as int);
    }
}

/// What a list of flows tells of itself: how many slots it covers, twice, and a code that says
/// whether flows are left over.
pub proof fn list_tells_whether_flows_are_left_over<F>(flows: Seq<Option<F>>, start: int)
    requires
        0 <= start,
    ensures
        flow_lists::flows_code(flows, start) == if start < flows.len() && in_use(
            flows,
            start,
            flows.len() as int,
        ) > 12 {
            0x8112u16
        } else {
            1
        },
{
    lemma_listed(flows, start);
}

/// The header of a list is read: the size twice, then the positions, then zeros.
#[verifier::rlimit(40)]
#[verifier::spinoff_prover]
pub(crate) proof fn lemma_header_read(n: nat, positions: Seq<u16>)
    requires
        n <= 12,
        positions.len() <= n,
    ensures
        ({
            let header = flow_lists::flows_header(n, positions);
            &&& header.len() == 2 + 2 * n
            &&& header[0] == n
            &&& header[1] == n
            &&& forall|k: int|
                0 <= k < positions.len() ==> #[trigger] reading::number16(header, 2 + 2 * k)
                    == positions[k]
            &&& forall|k: int|
                positions.len() <= k < n ==> #[trigger] reading::number16(header, 2 + 2 * k) == 0
        }),
{
    wire::lemma_be16s_len(positions);
    let header = flow_lists::flows_header(n, positions);
    assert forall|k: int| 0 <= k < positions.len() implies #[trigger] reading::number16(
        header,
        2 + 2 * k,
    ) == positions[k] by {
        reading::lemma_read16s(positions, k);
        assert(header[2 + 2 * k] == wire::be16s(positions)[2 * k]);
        assert(header[2 + 2 * k + 1] == wire::be16s(positions)[2 * k + 1]);
    }
    assert forall|k: int| positions.len() <= k < n implies #[trigger] reading::number16(
        header,
        2 + 2 * k,
    ) == 0 by {
        assert(header[2 + 2 * k] == 0);
        assert(header[2 + 2 * k + 1] == 0);
    }
}

} // verus!
