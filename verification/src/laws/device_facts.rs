//! What a reader finds in the answers that tell the counts and the names of the device.
use vstd::prelude::*;
use vstd::utf8::*;

use crate::arc_server::device_facts;
use crate::device_info::{DeviceInfo, FlowLimits};
use crate::laws::reading;
use crate::text;

verus! {

/// The counts are read from their places: transmit channels, receive channels, flows of either
/// direction, and all channels together.
#[verifier::rlimit(40)]
#[verifier::spinoff_prover]
pub proof fn counts_are_read_from_their_places(info: DeviceInfo, limits: FlowLimits)
    requires
        device_facts::counts_served(info, limits),
    ensures
        ({
            let payload = device_facts::counts_payload(info, limits);
            &&& payload.len() == 34
            &&& payload[0] == 0
            &&& payload[1] == 0x10
            &&& reading::number16(payload, 2) == info.tx_channels@.len()
            &&& reading::number16(payload, 4) == info.rx_channels@.len()
            &&& reading::number16(payload, 6) == 4
            &&& reading::number16(payload, 8) == 4
            &&& reading::number16(payload, 10) == 8
            &&& reading::number16(payload, 12) == limits.max_tx_flows
            &&& reading::number16(payload, 14) == limits.max_rx_flows
            &&& reading::number16(payload, 16) == info.tx_channels@.len()
                + info.rx_channels@.len()
            &&& reading::number16(payload, 18) == 1
            &&& reading::number16(payload, 20) == 1
            &&& reading::zero_from(payload, 22, 12)
        }),
{
    let p = device_facts::counts_payload(info, limits);
    reading::lemma_read16(p, 2, info.tx_channels@.len() as u16);
    reading::lemma_read16(p, 4, info.rx_channels@.len() as u16);
    reading::lemma_read16(p, 6, 4);
    reading::lemma_read16(p, 8, 4);
    reading::lemma_read16(p, 10, 8);
    reading::lemma_read16(p, 12, limits.max_tx_flows as u16);
    reading::lemma_read16(p, 14, limits.max_rx_flows as u16);
    reading::lemma_read16(p, 16, (info.tx_channels@.len() + info.rx_channels@.len()) as u16);
    reading::lemma_read16(p, 18, 1);
    reading::lemma_read16(p, 20, 1);
}

/// One transmit channel more changes the number of transmit channels and that of all channels by
/// one, and no other byte of the counts; likewise for a receive channel.
pub proof fn one_channel_more_changes_its_own_count(
    fewer: DeviceInfo,
    more: DeviceInfo,
    limits: FlowLimits,
    transmit: bool,
)
    requires
        device_facts::counts_served(more, limits),
        transmit ==> more.tx_channels@.len() == fewer.tx_channels@.len() + 1
            && more.rx_channels@.len() == fewer.rx_channels@.len(),
        !transmit ==> more.rx_channels@.len() == fewer.rx_channels@.len() + 1
            && more.tx_channels@.len() == fewer.tx_channels@.len(),
    ensures
        ({
            let a = device_facts::counts_payload(fewer, limits);
            let b = device_facts::counts_payload(more, limits);
            let own = if transmit {
                2int
            } else {
                4
            };
            &&& a.len() == b.len()
            &&& reading::number16(b, own) == reading::number16(a, own) + 1
            &&& reading::number16(b, 16) == reading::number16(a, 16) + 1
            &&& forall|i: int|
                0 <= i < a.len() && i != own && i != own + 1 && i != 16 && i != 17
                    ==> #[trigger] a[i] == b[i]
        }),
{
    counts_are_read_from_their_places(fewer, limits);
    counts_are_read_from_their_places(more, limits);
    lemma_same_counts(
        device_facts::counts_payload(fewer, limits),
        device_facts::counts_payload(more, limits),
    );
}

/// Counts that are read as the same numbers have the same bytes.
#[verifier::rlimit(40)]
#[verifier::spinoff_prover]
proof fn lemma_same_counts(a: Seq<u8>, b: Seq<u8>)
    requires
        a.len() == 34,
        b.len() == 34,
        a[0] == b[0],
        a[1] == b[1],
        reading::zero_from(a, 22, 12),
        reading::zero_from(b, 22, 12),
        forall|i: int|
            3 <= i < 8 || 9 <= i < 11 ==> #[trigger] reading::number16(a, 2 * i)
                == reading::number16(b, 2 * i),
    ensures
        forall|i: int|
            0 <= i < 34 && i != 2 && i != 3 && i != 4 && i != 5 && i != 16 && i != 17
                ==> #[trigger] a[i] == b[i],
        reading::number16(a, 2) == reading::number16(b, 2) ==> a[2] == b[2] && a[3] == b[3],
        reading::number16(a, 4) == reading::number16(b, 4) ==> a[4] == b[4] && a[5] == b[5],
{
    assert forall|i: int|
        0 <= i < 34 && i != 2 && i != 3 && i != 4 && i != 5 && i != 16 && i != 17 implies
        #[trigger] a[i] == b[i] by {
        if 6 <= i < 22 {
            let k = i / 2;
            assert(reading::number16(a, 2 * k) == reading::number16(b, 2 * k));
        }
    }
}

/// The counts can be told exactly where each fits two bytes.
pub proof fn counts_are_told_where_they_fit(info: DeviceInfo, limits: FlowLimits)
    ensures
        device_facts::counts_served(info, limits) <==> info.tx_channels@.len()
            + info.rx_channels@.len() < 0x10000 && limits.max_tx_flows < 0x10000
            && limits.max_rx_flows < 0x10000,
{
}

/// The names can be told exactly where the offset of the last text, which is 48 and the sizes of
/// the names with their zero bytes, fits two bytes.
pub proof fn names_are_told_where_they_fit(info: DeviceInfo)
    ensures
        device_facts::names_served(info) <==> 51 + encode_utf8(info.friendly_hostname@).len()
            + encode_utf8(info.factory_hostname@).len() + encode_utf8(info.board_name@).len()
            < 0x10000,
{
}

/// The name of the device is its whole payload.
pub proof fn device_name_is_the_name_its_user_gave(info: DeviceInfo)
    ensures
        ({
            let p = text::zero_terminated(info.friendly_hostname@);
            &&& reading::spells(p, 0, info.friendly_hostname@)
            &&& p.len() == encode_utf8(info.friendly_hostname@).len() + 1
        }),
{
    let p = text::zero_terminated(info.friendly_hostname@);
    assert(p.subrange(0, encode_utf8(info.friendly_hostname@).len() as int) =~= encode_utf8(
        info.friendly_hostname@,
    ));
}

/// The texts behind the offsets.
#[verifier::rlimit(40)]
#[verifier::spinoff_prover]
proof fn lemma_names_spelled(info: DeviceInfo)
    ensures
        ({
            let p = device_facts::names_payload(info);
            &&& reading::spells(
                p,
                device_facts::board_name_offset(info) - 10,
                info.board_name@,
            )
            &&& reading::spells(p, device_facts::revision_offset(info) - 10, ":705"@)
            &&& reading::spells(
                p,
                device_facts::friendly_hostname_offset() - 10,
                info.friendly_hostname@,
            )
            &&& reading::spells(
                p,
                device_facts::factory_hostname_offset(info) - 10,
                info.factory_hostname@,
            )
            &&& p.len() == device_facts::revision_offset(info) - 5
        }),
{
    let p = device_facts::names_payload(info);
    let header = device_facts::names_header(info);
    let friendly = text::zero_terminated(info.friendly_hostname@);
    let factory = text::zero_terminated(info.factory_hostname@);
    let board = text::zero_terminated(info.board_name@);
    let revision = text::zero_terminated(":705"@);
    device_facts::lemma_revision();
    assert(header.len() == 38);
    let a = 38 + friendly.len();
    let b = a + factory.len();
    let c = b + board.len();
    assert(p.subrange(38, a as int) =~= friendly);
    assert(p.subrange(a as int, b as int) =~= factory);
    assert(p.subrange(b as int, c as int) =~= board);
    assert(p.subrange(c as int, (c + revision.len()) as int) =~= revision);
    reading::lemma_spells(p, 38, info.friendly_hostname@);
    reading::lemma_spells(p, a as int, info.factory_hostname@);
    reading::lemma_spells(p, b as int, info.board_name@);
    reading::lemma_spells(p, c as int, ":705"@);
}

/// The numbers in front of the texts.
#[verifier::rlimit(40)]
#[verifier::spinoff_prover]
proof fn lemma_names_header(info: DeviceInfo)
    requires
        device_facts::names_served(info),
    ensures
        ({
            let p = device_facts::names_payload(info);
            &&& reading::number16(p, 6) == device_facts::board_name_offset(info)
            &&& reading::number16(p, 8) == device_facts::revision_offset(info)
            &&& reading::number16(p, 12) == device_facts::friendly_hostname_offset()
            &&& reading::number16(p, 14) == device_facts::factory_hostname_offset(info)
            &&& reading::number16(p, 16) == device_facts::friendly_hostname_offset()
            &&& reading::number16(p, 30) == 0x2729
            &&& reading::number16(p, 34) == 0x1102
            &&& reading::zero_from(p, 0, 6)
            &&& reading::number16(p, 10) == 0
            &&& reading::zero_from(p, 18, 12)
            &&& reading::number16(p, 32) == 0
            &&& reading::number16(p, 36) == 0
        }),
{
    let p = device_facts::names_payload(info);
    let h = device_facts::names_header(info);
    assert(h.len() == 38);
    assert(forall|i: int| 0 <= i < 38 ==> #[trigger] p[i] == h[i]);
    reading::lemma_read16(h, 6, device_facts::board_name_offset(info) as u16);
    reading::lemma_read16(h, 8, device_facts::revision_offset(info) as u16);
    reading::lemma_read16(h, 12, device_facts::friendly_hostname_offset() as u16);
    reading::lemma_read16(h, 14, device_facts::factory_hostname_offset(info) as u16);
    reading::lemma_read16(h, 16, device_facts::friendly_hostname_offset() as u16);
    reading::lemma_read16(h, 30, 0x2729);
    reading::lemma_read16(h, 34, 0x1102);
    assert(p[10] == h[10] && p[11] == h[11]);
    assert(p[32] == h[32] && p[33] == h[33] && p[36] == h[36] && p[37] == h[37]);
}

/// The names are found through the offsets that the answer holds: the board, the revision, the name
/// that the user gave the device, the one it was made with, and the former once more. They stand one
/// behind the other.
#[verifier::rlimit(40)]
#[verifier::spinoff_prover]
pub proof fn names_are_found_through_their_offsets(info: DeviceInfo)
    requires
        device_facts::names_served(info),
    ensures
        ({
            let p = device_facts::names_payload(info);
            &&& reading::spells(p, reading::number16(p, 6) - 10, info.board_name@)
            &&& reading::spells(p, reading::number16(p, 8) - 10, ":705"@)
            &&& reading::spells(p, reading::number16(p, 12) - 10, info.friendly_hostname@)
            &&& reading::spells(p, reading::number16(p, 14) - 10, info.factory_hostname@)
            &&& reading::spells(p, reading::number16(p, 16) - 10, info.friendly_hostname@)
            &&& reading::number16(p, 30) == 0x2729
            &&& reading::number16(p, 34) == 0x1102
            &&& reading::zero_from(p, 0, 6)
            &&& reading::number16(p, 10) == 0
            &&& reading::zero_from(p, 18, 12)
            &&& reading::number16(p, 32) == 0
            &&& reading::number16(p, 36) == 0
            &&& reading::number16(p, 12) == 48
            &&& reading::number16(p, 14) == 48 + encode_utf8(info.friendly_hostname@).len() + 1
            &&& reading::number16(p, 6) == reading::number16(p, 14) + encode_utf8(
                info.factory_hostname@,
            ).len() + 1
            &&& reading::number16(p, 8) == reading::number16(p, 6) + encode_utf8(
                info.board_name@,
            ).len() + 1
            &&& p.len() == reading::number16(p, 8) - 5
        }),
{
    lemma_names_spelled(info);
    lemma_names_header(info);
}

} // verus!
