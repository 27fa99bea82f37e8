//! Requests to rename transmit channels.
use vstd::prelude::*;

use crate::wire;

verus! {

pub const OPCODE: u16 = 0x2013;

/// A new name for one channel.
#[derive(Debug, Clone, Copy, PartialEq, Eq, Structural)]
pub struct SingleChannelRenameRequest {
    pub channel_id: u16,
    pub new_name_offset: u16,
}

impl SingleChannelRenameRequest {
    /// The fields in order, big-endian.
    pub open spec fn encoded(&self) -> Seq<u8> {
        wire::be16(self.channel_id) + wire::be16(self.new_name_offset)
    }
}

/// The number of items in a payload: what its second byte announces, but not more than stand
/// behind it in full.
pub open spec fn item_count(payload: Seq<u8>) -> nat {
    if payload.len() < 2 {
        0
    } else if payload[1] <= (payload.len() - 2) / 4 {
        payload[1] as nat
    } else {
        ((payload.len() - 2) / 4) as nat
    }
}

/// The item in a slot of a payload.
pub open spec fn item_at(payload: Seq<u8>, i: int) -> SingleChannelRenameRequest {
    SingleChannelRenameRequest {
        channel_id: wire::u16_of(payload[2 + 4 * i], payload[3 + 4 * i]),
        new_name_offset: wire::u16_of(payload[4 + 4 * i], payload[5 + 4 * i]),
    }
}

/// The items of a payload.
pub open spec fn items(payload: Seq<u8>) -> Seq<SingleChannelRenameRequest> {
    Seq::new(item_count(payload), |i: int| item_at(payload, i))
}

/// Reads the items of a payload.
pub fn deserialize_items(payload: &[u8]) -> (out: Vec<SingleChannelRenameRequest>)
    ensures
        out@ == items(payload@),
{
    let mut out: Vec<SingleChannelRenameRequest> = Vec::new();
    let size: usize = payload.len();
    if size < 2 {
        assert(out@ =~= items(payload@));
        return out;
    }
    let room: usize = (size - 2) / 4;
    let announced: usize = payload[1] as usize;
    let count: usize = if announced <= room {
        announced
    } else {
        room
    };
    let mut i: usize = 0;
    while i < count
        invariant
            size == payload@.len(),
            i <= count <= 255,
            count == item_count(payload@),
            2 + 4 * count <= payload@.len(),
            out@.len() == i,
            forall|k: int| 0 <= k < i ==> out@[k] == item_at(payload@, k),
        decreases count - i,
    {
        out.push(
            SingleChannelRenameRequest {
                channel_id: wire::make_u16(payload[2 + 4 * i], payload[3 + 4 * i]),
                new_name_offset: wire::make_u16(payload[4 + 4 * i], payload[5 + 4 * i]),
            },
        );
        i = i + 1;
    }
    assert(out@ =~= items(payload@));
    out
}

/// The descriptors of `requests` one after the other.
pub open spec fn encoded_items(requests: Seq<SingleChannelRenameRequest>) -> Seq<u8>
    decreases requests.len(),
{
    if requests.len() == 0 {
        Seq::empty()
    } else {
        encoded_items(requests.drop_last()) + requests.last().encoded()
    }
}

/// A payload that announces `requests` and holds them in front of anything else gives them back.
pub proof fn encoded_items_are_read_back(
    space: u8,
    requests: Seq<SingleChannelRenameRequest>,
    rest: Seq<u8>,
)
    requires
        requests.len() <= 255,
    ensures
        items(seq![space, requests.len() as u8] + encoded_items(requests) + rest) == requests,
{
    let payload = seq![space, requests.len() as u8] + encoded_items(requests) + rest;
    lemma_encoded_items(requests);
    assert forall|i: int| 0 <= i < requests.len() implies item_at(payload, i) == requests[i] by {
        let bytes = requests[i].encoded();
        let all = encoded_items(requests);
        assert(all.subrange(4 * i, 4 * i + 4) == bytes);
        assert(all[4 * i] == all.subrange(4 * i, 4 * i + 4)[0]);
        assert(all[4 * i + 1] == all.subrange(4 * i, 4 * i + 4)[1]);
        assert(all[4 * i + 2] == all.subrange(4 * i, 4 * i + 4)[2]);
        assert(all[4 * i + 3] == all.subrange(4 * i, 4 * i + 4)[3]);
        wire::u16_survives_be16(requests[i].channel_id);
        wire::u16_survives_be16(requests[i].new_name_offset);
    }
    assert(items(payload) =~= requests);
}

proof fn lemma_encoded_items(requests: Seq<SingleChannelRenameRequest>)
    ensures
        encoded_items(requests).len() == 4 * requests.len(),
        forall|i: int|
            0 <= i < requests.len() ==> encoded_items(requests).subrange(4 * i, 4 * i + 4)
                == #[trigger] requests[i].encoded(),
    decreases requests.len(),
{
    if requests.len() > 0 {
        let some = requests.drop_last();
        lemma_encoded_items(some);
        assert forall|i: int| 0 <= i < requests.len() implies encoded_items(requests).subrange(
            4 * i,
            4 * i + 4,
        ) == #[trigger] requests[i].encoded() by {
            if i < some.len() {
                assert(some[i].encoded() == requests[i].encoded());
                assert(encoded_items(requests).subrange(4 * i, 4 * i + 4) =~= encoded_items(
                    some,
                ).subrange(4 * i, 4 * i + 4));
            } else {
                assert(encoded_items(requests).subrange(4 * i, 4 * i + 4)
                    =~= requests.last().encoded());
            }
        }
    }
}

} // verus!
