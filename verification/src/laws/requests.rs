//! What requests that change something lead to, in terms of the bytes of the request.
use vstd::prelude::*;

use crate::arc_server::actions::Step;
use crate::arc_server::renames;
use crate::arc_server::subscriptions;
use crate::device_info::DeviceInfo;
use crate::laws::reading;
use crate::laws::texts;
use crate::protocol::proto_arc::rename_tx_channel;
use crate::text;
use crate::wire;

verus! {

/// The step that sends a response.
pub open spec fn responds(step: Step, code: u16, payload: Seq<u8>) -> bool {
    step == (Step::Respond { code, payload })
}

/// A name stands at an offset that is counted from the start of the packet.
pub open spec fn readable(content: Seq<u8>, offset: int) -> bool {
    offset >= 10 && texts::has_text(content, offset - 10)
}

/// The number that stands `field` bytes into item `i` of a subscription request.
pub open spec fn subscription_field(content: Seq<u8>, i: int, field: int) -> int {
    reading::number16(content, 2 + 6 * i + field)
}

/// Item `i` of a subscription request gives no place for one of the names.
pub open spec fn asks_to_end(content: Seq<u8>, i: int) -> bool {
    subscription_field(content, i, 2) == 0 || subscription_field(content, i, 4) == 0
}

/// Item `i` of a subscription request leads to something: it ends a subscription, or both its names
/// can be read.
pub open spec fn acts(content: Seq<u8>, i: int) -> bool {
    asks_to_end(content, i) || (readable(content, subscription_field(content, i, 2)) && readable(
        content,
        subscription_field(content, i, 4),
    ))
}

/// How many of the first `n` items of a subscription request lead to something.
pub open spec fn acting(content: Seq<u8>, n: int) -> int
    decreases n,
{
    if n <= 0 {
        0
    } else {
        acting(content, n - 1) + if acts(content, n - 1) {
            1int
        } else {
            0
        }
    }
}

/// What item `i` of a subscription request asks for is what the step does: the number of the
/// receive channel, counted from one, is the item's first number, and the names stand at the
/// offsets that are its second and third number.
pub open spec fn does_item(content: Seq<u8>, i: int, step: Step) -> bool {
    match step {
        Step::Unsubscribe { local_channel_index } => {
            &&& asks_to_end(content, i)
            &&& local_channel_index + 1 == subscription_field(content, i, 0)
        },
        Step::Subscribe { local_channel_index, tx_channel_name, tx_hostname } => {
            &&& !asks_to_end(content, i)
            &&& local_channel_index + 1 == subscription_field(content, i, 0)
            &&& texts::reads(content, subscription_field(content, i, 2) - 10, tx_channel_name)
            &&& texts::reads(content, subscription_field(content, i, 4) - 10, tx_hostname)
        },
        _ => false,
    }
}

/// Numbers are read alike.
proof fn lemma_number(content: Seq<u8>, at: int)
    ensures
        wire::u16_of(content[at], content[at + 1]) == reading::number16(content, at),
{
}

/// A name is read at an offset exactly where it stands there.
#[verifier::rlimit(40)]
#[verifier::spinoff_prover]
proof fn lemma_name(content: Seq<u8>, offset: u16)
    ensures
        match subscriptions::name_at(content, offset) {
            None => !readable(content, offset as int),
            Some(name) => readable(content, offset as int) && texts::reads(
                content,
                offset - 10,
                name,
            ),
        },
{
    if offset >= 10 {
        match text::text_at(content, offset - 10) {
            Ok(name) => {
                texts::text_is_read_where_it_is_spelled(content, offset - 10, name);
            },
            Err(_) => {
                let at = offset - 10;
                assert forall|name: Seq<char>| !texts::reads(content, at, name) by {
                    texts::text_is_read_where_it_is_spelled(content, at, name);
                }
            },
        }
    }
}

/// What one item leads to.
proof fn lemma_item(content: Seq<u8>, i: int)
    requires
        subscription_field(content, i, 0) >= 1,
    ensures
        match subscriptions::subscription(content, i) {
            None => !acts(content, i),
            Some(step) => acts(content, i) && does_item(content, i, step),
        },
{
    lemma_number(content, 2 + 6 * i);
    lemma_number(content, 2 + 6 * i + 2);
    lemma_number(content, 2 + 6 * i + 4);
    lemma_name(content, subscriptions::item_field(content, i, 2));
    lemma_name(content, subscriptions::item_field(content, i, 4));
}

proof fn lemma_items(content: Seq<u8>, n: nat)
    requires
        forall|i: int| 0 <= i < n ==> #[trigger] subscription_field(content, i, 0) >= 1,
    ensures
        subscriptions::subscriptions(content, n).len() == acting(content, n as int),
        forall|i: int|
            0 <= i < n && #[trigger] acts(content, i) ==> 0 <= acting(content, i) < acting(
                content,
                n as int,
            ) && does_item(
                content,
                i,
                subscriptions::subscriptions(content, n)[acting(content, i)],
            ),
    decreases n,
{
    if n > 0 {
        let m = (n - 1) as nat;
        lemma_items(content, m);
        assert(subscription_field(content, m as int, 0) >= 1);
        lemma_item(content, m as int);
    }
}

/// A subscription request can be answered exactly where it holds as many items of six bytes as its
/// second byte says, and the first number of each is not zero.
#[verifier::rlimit(40)]
#[verifier::spinoff_prover]
pub proof fn subscription_request_is_complete(content: Seq<u8>)
    ensures
        subscriptions::subscribe_served(content) <==> (content.len() >= 2 && content.len() >= 2 + 6
            * content[1] && forall|i: int|
            0 <= i < content[1] ==> #[trigger] subscription_field(content, i, 0) >= 1),
{
    assert forall|i: int| subscriptions::item_field(content, i, 0) == #[trigger] subscription_field(
        content,
        i,
        0,
    ) by {
        lemma_number(content, 2 + 6 * i);
    }
    if subscriptions::subscribe_served(content) {
        assert forall|i: int| 0 <= i < content[1] implies #[trigger] subscription_field(
            content,
            i,
            0,
        ) >= 1 by {
            assert(subscriptions::item_field(content, i, 0) >= 1);
        }
    } else if content.len() >= 2 && content.len() >= 2 + 6 * content[1] {
        let i = choose|i: int|
            0 <= i < content[1] && #[trigger] subscriptions::item_field(content, i, 0) < 1;
        assert(subscription_field(content, i, 0) < 1);
    }
}

/// A subscription request is carried out item by item, in order, and then answered. Each item that
/// leads to something leads to one step, for the receive channel that the item itself names,
/// wherever in the request the item stands.
#[verifier::rlimit(40)]
#[verifier::spinoff_prover]
pub proof fn subscriptions_follow_their_items(content: Seq<u8>)
    requires
        subscriptions::subscribe_served(content),
    ensures
        ({
            let steps = subscriptions::subscribe_steps(content);
            &&& steps.len() == acting(content, content[1] as int) + 1
            &&& responds(steps.last(), 1, Seq::empty())
            &&& forall|i: int|
                0 <= i < content[1] && #[trigger] acts(content, i) ==> 0 <= acting(content, i)
                    < steps.len() - 1 && does_item(content, i, steps[acting(content, i)])
        }),
{
    subscription_request_is_complete(content);
    let n = content[1] as nat;
    lemma_items(content, n);
    let steps = subscriptions::subscribe_steps(content);
    let some = subscriptions::subscriptions(content, n);
    assert forall|i: int| 0 <= i < content[1] && #[trigger] acts(content, i) implies 0 <= acting(
        content,
        i,
    ) < steps.len() - 1 && does_item(content, i, steps[acting(content, i)]) by {
        assert(steps[acting(content, i)] == some[acting(content, i)]);
    }
}

/// A request to end one subscription can be answered exactly where it names a channel in its third
/// number, and then ends the subscription of that channel.
pub proof fn end_of_subscription_names_its_channel(content: Seq<u8>)
    ensures
        subscriptions::unsubscribe_served(content) <==> content.len() >= 6 && reading::number16(
            content,
            4,
        ) >= 1,
        subscriptions::unsubscribe_served(content) ==> {
            let steps = subscriptions::unsubscribe_steps(content);
            &&& steps.len() == 2
            &&& steps[0] matches Step::Unsubscribe { local_channel_index }
                && local_channel_index + 1 == reading::number16(content, 4)
            &&& responds(steps[1], 1, Seq::empty())
        },
{
    lemma_number(content, 4);
}

/// A request to rename a receive channel can be answered exactly where it is long enough and the
/// offset of the name is not in the packet's header, and, if there is a name, the number of the
/// channel is not zero.
pub proof fn rx_rename_request_is_complete(content: Seq<u8>)
    ensures
        renames::rx_rename_served(content) <==> (content.len() >= 6 && reading::number16(content, 4)
            >= 10 && (readable(content, reading::number16(content, 4)) ==> reading::number16(
            content,
            2,
        ) >= 1)),
{
    lemma_number(content, 2);
    lemma_number(content, 4);
    lemma_name(content, wire::u16_of(content[4], content[5]));
}

/// A request to rename a receive channel renames the channel whose number, counted from one, stands
/// in the request, gives it the name at the offset that stands there, answers, and then tells the
/// network of exactly that channel. Without such a channel or name it answers, and does nothing.
pub proof fn rx_rename_names_its_channel(info: DeviceInfo, content: Seq<u8>)
    requires
        renames::rx_rename_served(content),
    ensures
        ({
            let steps = renames::rx_rename_steps(info, content);
            let number = reading::number16(content, 2);
            let offset = reading::number16(content, 4);
            if readable(content, offset) && number <= info.rx_channels@.len() {
                &&& steps.len() == 3
                &&& steps[0] matches Step::RenameRx { index, name } && index + 1 == number
                    && texts::reads(content, offset - 10, name)
                &&& responds(steps[1], 1, Seq::empty())
                &&& steps[2] matches Step::NotifyChannelChange { indices } && indices.len() == 1
                    && indices[0] + 1 == number
            } else {
                &&& steps.len() == 1
                &&& responds(steps[0], 0, Seq::empty())
            }
        }),
{
    rx_rename_request_is_complete(content);
    lemma_number(content, 2);
    lemma_number(content, 4);
    lemma_name(content, wire::u16_of(content[4], content[5]));
}

/// How many items a request to rename transmit channels holds: as many as its second byte says, if
/// so many items of four bytes stand behind it.
pub open spec fn rename_items(content: Seq<u8>) -> int {
    if content.len() < 2 {
        0
    } else if 2 + 4 * content[1] <= content.len() {
        content[1] as int
    } else {
        (content.len() - 2) / 4
    }
}

/// The first number of item `i`, which is ten more than the number of the channel.
pub open spec fn renamed_channel(content: Seq<u8>, i: int) -> int {
    reading::number16(content, 2 + 4 * i)
}

/// The second number of item `i`, which is twenty more than the place of the name.
pub open spec fn renamed_offset(content: Seq<u8>, i: int) -> int {
    reading::number16(content, 4 + 4 * i)
}

/// Item `i` gives a name to a channel that the device has.
pub open spec fn gives_name(info: DeviceInfo, content: Seq<u8>, i: int) -> bool {
    &&& 10 < renamed_channel(content, i) <= 10 + info.tx_channels@.len()
    &&& renamed_offset(content, i) >= 20
    &&& readable(content, renamed_offset(content, i) - 10)
}

/// How many of the first `n` items give a name to a channel that the device has.
pub open spec fn giving(info: DeviceInfo, content: Seq<u8>, n: int) -> int
    decreases n,
{
    if n <= 0 {
        0
    } else {
        giving(info, content, n - 1) + if gives_name(info, content, n - 1) {
            1int
        } else {
            0
        }
    }
}

/// The three steps from `at` on withdraw, rename and advertise the channel of item `i`.
pub open spec fn does_rename(content: Seq<u8>, i: int, steps: Seq<Step>, at: int) -> bool {
    &&& 0 <= at
    &&& at + 3 <= steps.len()
    &&& steps[at] matches Step::WithdrawTx { index } && index + 11 == renamed_channel(content, i)
    &&& steps[at + 1] matches Step::RenameTx { index, name } && index + 11 == renamed_channel(
        content,
        i,
    ) && texts::reads(content, renamed_offset(content, i) - 20, name)
    &&& steps[at + 2] matches Step::AdvertiseTx { index } && index + 11 == renamed_channel(
        content,
        i,
    )
}

proof fn lemma_rename_count(content: Seq<u8>)
    ensures
        rename_tx_channel::items(content).len() == rename_items(content),
{
}

#[verifier::rlimit(40)]
#[verifier::spinoff_prover]
proof fn lemma_rename_item(info: DeviceInfo, content: Seq<u8>, i: int)
    requires
        0 <= i < rename_items(content),
        renamed_channel(content, i) <= 10 || renamed_offset(content, i) <= 10 || renamed_offset(
            content,
            i,
        ) >= 20,
    ensures
        match renames::tx_rename(info, content, rename_tx_channel::items(content)[i]) {
            None => !gives_name(info, content, i),
            Some((index, name)) => gives_name(info, content, i) && index + 11 == renamed_channel(
                content,
                i,
            ) && texts::reads(content, renamed_offset(content, i) - 20, name),
        },
{
    lemma_rename_count(content);
    lemma_number(content, 2 + 4 * i);
    lemma_number(content, 4 + 4 * i);
    let request = rename_tx_channel::items(content)[i];
    assert(request.channel_id == renamed_channel(content, i));
    assert(request.new_name_offset == renamed_offset(content, i));
    if renamed_offset(content, i) >= 20 {
        lemma_name(content, (request.new_name_offset - 10) as u16);
    }
}

#[verifier::rlimit(40)]
#[verifier::spinoff_prover]
proof fn lemma_renames(info: DeviceInfo, content: Seq<u8>, n: nat)
    requires
        n <= rename_items(content),
        forall|i: int|
            0 <= i < rename_items(content) ==> renamed_channel(content, i) <= 10
                || #[trigger] renamed_offset(content, i) <= 10 || renamed_offset(content, i) >= 20,
    ensures
        renames::tx_renames(info, content, n).len() == 3 * giving(info, content, n as int),
        0 <= giving(info, content, n as int),
        forall|i: int|
            0 <= i < n && #[trigger] gives_name(info, content, i) ==> does_rename(
                content,
                i,
                renames::tx_renames(info, content, n),
                3 * giving(info, content, i),
            ),
    decreases n,
{
    if n > 0 {
        let m = (n - 1) as nat;
        lemma_renames(info, content, m);
        let before = renames::tx_renames(info, content, m);
        let now = renames::tx_renames(info, content, n);
        assert(renamed_channel(content, m as int) <= 10 || renamed_offset(content, m as int) <= 10
            || renamed_offset(content, m as int) >= 20);
        lemma_rename_item(info, content, m as int);
        assert forall|i: int| 0 <= i < n && #[trigger] gives_name(info, content, i) implies
            does_rename(content, i, now, 3 * giving(info, content, i)) by {
            if i < m {
                let at = 3 * giving(info, content, i);
                assert(does_rename(content, i, before, at));
                assert(now[at] == before[at]);
                assert(now[at + 1] == before[at + 1]);
                assert(now[at + 2] == before[at + 2]);
            }
        }
    }
}

/// A request to rename transmit channels can be answered exactly where no item with a channel has
/// an offset that lies above ten and below twenty.
#[verifier::rlimit(40)]
#[verifier::spinoff_prover]
pub proof fn tx_rename_request_is_complete(content: Seq<u8>)
    ensures
        renames::tx_renames_served(content) <==> forall|i: int|
            0 <= i < rename_items(content) ==> renamed_channel(content, i) <= 10
                || #[trigger] renamed_offset(content, i) <= 10 || renamed_offset(content, i) >= 20,
{
    lemma_rename_count(content);
    let items = rename_tx_channel::items(content);
    assert forall|i: int| 0 <= i < items.len() implies (#[trigger] items[i]).channel_id
        == renamed_channel(content, i) && items[i].new_name_offset == renamed_offset(
        content,
        i,
    ) by {
        lemma_number(content, 2 + 4 * i);
        lemma_number(content, 4 + 4 * i);
    }
    if renames::tx_renames_served(content) {
        assert forall|i: int| 0 <= i < rename_items(content) implies renamed_channel(content, i)
            <= 10 || #[trigger] renamed_offset(content, i) <= 10 || renamed_offset(content, i)
            >= 20 by {
            let request = items[i];
            assert(renames::asks_for_nothing(request) || renames::less_header(
                request.new_name_offset,
            ) >= 10);
        }
    } else {
        let i = choose|i: int|
            0 <= i < items.len() && !({
                let request = #[trigger] items[i];
                renames::asks_for_nothing(request) || renames::less_header(request.new_name_offset)
                    >= 10
            });
        assert(renamed_offset(content, i) > 10);
    }
}

/// A request to rename transmit channels is carried out item by item, in order. Each item that
/// gives a name to a channel of the device leads to three steps for the channel that the item names:
/// it is withdrawn, renamed, advertised. The answer tells whether there was one.
#[verifier::rlimit(40)]
#[verifier::spinoff_prover]
pub proof fn tx_renames_follow_their_items(info: DeviceInfo, content: Seq<u8>)
    requires
        renames::tx_renames_served(content),
    ensures
        ({
            let steps = renames::tx_rename_steps(info, content);
            let given = giving(info, content, rename_items(content));
            &&& steps.len() == 3 * given + 1
            &&& given > 0 ==> responds(steps.last(), 0, Seq::empty())
            &&& given == 0 ==> responds(steps.last(), 1, seq![0u8, 0u8])
            &&& forall|i: int|
                0 <= i < rename_items(content) && #[trigger] gives_name(info, content, i)
                    ==> does_rename(content, i, steps, 3 * giving(info, content, i))
        }),
{
    tx_rename_request_is_complete(content);
    lemma_rename_count(content);
    let n = rename_items(content) as nat;
    lemma_renames(info, content, n);
    let steps = renames::tx_rename_steps(info, content);
    let some = renames::tx_renames(info, content, n);
    assert forall|i: int| 0 <= i < n && #[trigger] gives_name(info, content, i) implies does_rename(
        content,
        i,
        steps,
        3 * giving(info, content, i),
    ) by {
        let at = 3 * giving(info, content, i);
        assert(does_rename(content, i, some, at));
        assert(steps[at] == some[at]);
        assert(steps[at + 1] == some[at + 1]);
        assert(steps[at + 2] == some[at + 2]);
    }
}

} // verus!
