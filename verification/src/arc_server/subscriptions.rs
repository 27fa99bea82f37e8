//! Requests to subscribe receive channels to channels of other devices.
use vstd::prelude::*;

use crate::arc_server::actions;
use crate::arc_server::actions::{Action, Step};
use crate::protocol::proto_arc::Reply;
use crate::protocol::req_resp::{CODE_OK, HEADER_LENGTH};
use crate::text;
use crate::wire;

verus! {

/// The field of two bytes that stands `field` bytes into item `i` of a subscription request.
pub open spec fn item_field(content: Seq<u8>, i: int, field: int) -> u16 {
    wire::u16_of(content[2 + 6 * i + field], content[2 + 6 * i + field + 1])
}

/// A subscription request holds as many items as it announces, and each names a channel.
pub open spec fn subscribe_served(content: Seq<u8>) -> bool {
    &&& content.len() >= 2
    &&& content.len() >= 2 + 6 * content[1]
    &&& forall|i: int| 0 <= i < content[1] ==> #[trigger] item_field(content, i, 0) >= 1
}

/// The name at an offset that is counted from the start of the packet; none where the offset lies
/// in the header or no text can be read there.
pub open spec fn name_at(content: Seq<u8>, offset: u16) -> Option<Seq<char>> {
    if offset < HEADER_LENGTH {
        None
    } else {
        match text::text_at(content, offset - HEADER_LENGTH) {
            Ok(name) => Some(name),
            Err(_) => None,
        }
    }
}

/// What one item of a subscription request leads to. An item without offsets for both names ends a
/// subscription. One with offsets, but not both names readable, leads to nothing.
pub open spec fn subscription(content: Seq<u8>, i: int) -> Option<Step> {
    let local_channel_index = (item_field(content, i, 0) - 1) as nat;
    let channel_offset = item_field(content, i, 2);
    let hostname_offset = item_field(content, i, 4);
    if channel_offset > 0 && hostname_offset > 0 {
        match (name_at(content, channel_offset), name_at(content, hostname_offset)) {
            (Some(tx_channel_name), Some(tx_hostname)) => Some(
                Step::Subscribe { local_channel_index, tx_channel_name, tx_hostname },
            ),
            _ => None,
        }
    } else {
        Some(Step::Unsubscribe { local_channel_index })
    }
}

/// What the first `n` items of a subscription request lead to.
pub open spec fn subscriptions(content: Seq<u8>, n: nat) -> Seq<Step>
    decreases n,
{
    if n == 0 {
        Seq::empty()
    } else {
        let before = subscriptions(content, (n - 1) as nat);
        match subscription(content, n - 1) {
            None => before,
            Some(step) => before.push(step),
        }
    }
}

/// The empty response of a request that was carried out.
pub open spec fn done() -> Step {
    Step::Respond { code: CODE_OK, payload: Seq::empty() }
}

/// The answer to a subscription request.
pub open spec fn subscribe_steps(content: Seq<u8>) -> Seq<Step> {
    subscriptions(content, content[1] as nat).push(done())
}

/// Whether a subscription request holds as many items as it announces, and each names a channel.
pub fn is_subscribe_served(content: &[u8]) -> (ok: bool)
    ensures
        ok == subscribe_served(content@),
{
    let size: usize = content.len();
    if size < 2 {
        return false;
    }
    let count: usize = content[1] as usize;
    if size < 2 + 6 * count {
        return false;
    }
    let mut i: usize = 0;
    while i < count
        invariant
            size == content@.len(),
            2 + 6 * count <= size,
            count == content@[1],
            i <= count,
            forall|k: int| 0 <= k < i ==> #[trigger] item_field(content@, k, 0) >= 1,
        decreases count - i,
    {
        if wire::make_u16(content[2 + 6 * i], content[3 + 6 * i]) == 0 {
            assert(item_field(content@, i as int, 0) == 0);
            return false;
        }
        assert(item_field(content@, i as int, 0) >= 1);
        i = i + 1;
    }
    true
}

/// Reads the name at an offset that is counted from the start of the packet.
fn read_name(content: &[u8], offset: u16) -> (name: Option<String>)
    ensures
        match name {
            Some(s) => name_at(content@, offset) == Some(s@),
            None => name_at(content@, offset) is None,
        },
{
    if (offset as usize) < HEADER_LENGTH {
        return None;
    }
    match text::read_0term_str_from_buffer(content, offset as usize - HEADER_LENGTH) {
        Ok(s) => Some(s),
        Err(_) => None,
    }
}

/// Answers a subscription request.
pub fn subscribe(content: &[u8]) -> (out: Vec<Action>)
    requires
        subscribe_served(content@),
    ensures
        actions::steps(out@) == subscribe_steps(content@),
{
    let size: usize = content.len();
    let count: usize = content[1] as usize;
    let mut out = actions::no_steps();
    let mut i: usize = 0;
    while i < count
        invariant
            subscribe_served(content@),
            size == content@.len(),
            count == content@[1],
            i <= count,
            actions::steps(out@) == subscriptions(content@, i as nat),
        decreases count - i,
    {
        let at: usize = 2 + 6 * i;
        let local_channel: u16 = wire::make_u16(content[at], content[at + 1]);
        let tx_channel_offset: u16 = wire::make_u16(content[at + 2], content[at + 3]);
        let tx_hostname_offset: u16 = wire::make_u16(content[at + 4], content[at + 5]);
        assert(item_field(content@, i as int, 0) == local_channel);
        assert(item_field(content@, i as int, 2) == tx_channel_offset);
        assert(item_field(content@, i as int, 4) == tx_hostname_offset);
        let local_channel_index: usize = (local_channel - 1) as usize;
        if tx_channel_offset > 0 && tx_hostname_offset > 0 {
            match (read_name(content, tx_channel_offset), read_name(content, tx_hostname_offset)) {
                (Some(tx_channel_name), Some(tx_hostname)) => {
                    actions::add_step(
                        &mut out,
                        Action::Subscribe { local_channel_index, tx_channel_name, tx_hostname },
                    );
                },
                _ => {},
            }
        } else {
            actions::add_step(&mut out, Action::Unsubscribe { local_channel_index });
        }
        i = i + 1;
    }
    actions::add_step(
        &mut out,
        Action::Respond(Reply { code: CODE_OK, payload: Vec::new() }),
    );
    out
}

/// A request to end a subscription holds its fields and names a channel.
pub open spec fn unsubscribe_served(content: Seq<u8>) -> bool {
    content.len() >= 6 && wire::u16_of(content[4], content[5]) >= 1
}

/// The answer to a request to end a subscription.
pub open spec fn unsubscribe_steps(content: Seq<u8>) -> Seq<Step> {
    seq![
        Step::Unsubscribe {
            local_channel_index: (wire::u16_of(content[4], content[5]) - 1) as nat,
        },
        done(),
    ]
}

/// Whether a request to end a subscription holds its fields and names a channel.
pub fn is_unsubscribe_served(content: &[u8]) -> (ok: bool)
    ensures
        ok == unsubscribe_served(content@),
{
    content.len() >= 6 && wire::make_u16(content[4], content[5]) >= 1
}

/// Answers a request to end a subscription.
pub fn unsubscribe(content: &[u8]) -> (out: Vec<Action>)
    requires
        unsubscribe_served(content@),
    ensures
        actions::steps(out@) == unsubscribe_steps(content@),
{
    let local_channel: u16 = wire::make_u16(content[4], content[5]);
    let mut out = actions::no_steps();
    actions::add_step(
        &mut out,
        Action::Unsubscribe { local_channel_index: (local_channel - 1) as usize },
    );
    actions::add_step(
        &mut out,
        Action::Respond(Reply { code: CODE_OK, payload: Vec::new() }),
    );
    assert(actions::steps(out@) =~= unsubscribe_steps(content@));
    out
}

} // verus!
