//! The fields of each message are read from their places in its bytes.
use vstd::prelude::*;

use crate::laws::reading;
use crate::protocol::proto_arc::channels_and_flows_count;
use crate::protocol::proto_arc::get_device_names;
use crate::protocol::proto_arc::get_receive_channels;
use crate::protocol::proto_arc::get_transmit_channels;
use crate::protocol::proto_arc::get_transmit_channels_friendly_names;
use crate::protocol::proto_arc::rename_tx_channel;
use crate::wire;

verus! {

/// The flags are read from one byte: four bits, then one, then three.
pub proof fn flags_are_read_from_their_bits(f: channels_and_flows_count::Flags2)
    ensures
        f.encoded() % 16 == f.unknown1_0 % 16,
        (f.encoded() / 16) % 2 == 1 <==> f.supports_tx_channel_rename,
        f.encoded() / 32 == f.unknown2_0 % 8,
{
}

/// The fields of the counts.
#[verifier::rlimit(40)]
#[verifier::spinoff_prover]
pub proof fn counts_fields_are_read(r: channels_and_flows_count::Response)
    ensures
        ({
            let b = r.encoded();
            &&& b.len() == 34
            &&& b[0] == r.unknown1_0
            &&& b[1] == r.flags2.encoded()
            &&& reading::number16(b, 2) == r.tx_channels_count
            &&& reading::number16(b, 4) == r.rx_channels_count
            &&& reading::number16(b, 6) == r.unknown2_4
            &&& reading::number16(b, 8) == r.unknown3_4
            &&& reading::number16(b, 10) == r.unknown4_8
            &&& reading::number16(b, 12) == r.max_tx_flows
            &&& reading::number16(b, 14) == r.max_rx_flows
            &&& reading::number16(b, 16) == r.unknown5_total_channels
            &&& reading::number16(b, 18) == r.unknown6_1
            &&& reading::number16(b, 20) == r.unknown7_1
            &&& forall|i: int|
                0 <= i < 6 ==> #[trigger] reading::number16(b, 22 + 2 * i) == r.unknown8_0@[i]
        }),
{
    let b = r.encoded();
    let rest = wire::be16s(r.unknown8_0@);
    wire::lemma_be16s_len(r.unknown8_0@);
    reading::lemma_read16(b, 2, r.tx_channels_count);
    reading::lemma_read16(b, 4, r.rx_channels_count);
    reading::lemma_read16(b, 6, r.unknown2_4);
    reading::lemma_read16(b, 8, r.unknown3_4);
    reading::lemma_read16(b, 10, r.unknown4_8);
    reading::lemma_read16(b, 12, r.max_tx_flows);
    reading::lemma_read16(b, 14, r.max_rx_flows);
    reading::lemma_read16(b, 16, r.unknown5_total_channels);
    reading::lemma_read16(b, 18, r.unknown6_1);
    reading::lemma_read16(b, 20, r.unknown7_1);
    assert forall|i: int| 0 <= i < 6 implies #[trigger] reading::number16(b, 22 + 2 * i)
        == r.unknown8_0@[i] by {
        reading::lemma_read16s(r.unknown8_0@, i);
        assert(b[22 + 2 * i] == rest[2 * i]);
        assert(b[22 + 2 * i + 1] == rest[2 * i + 1]);
    }
}

/// The fields in front of the names of the device.
#[verifier::rlimit(40)]
#[verifier::spinoff_prover]
pub proof fn names_fields_are_read(r: get_device_names::ResponseHeader)
    ensures
        ({
            let b = r.encoded();
            &&& b.len() == 38
            &&& reading::number16(b, 0) == r.unknown1_0
            &&& reading::number16(b, 2) == r.unknown2_0
            &&& reading::number16(b, 4) == r.unknown3_0
            &&& reading::number16(b, 6) == r.board_name_offset
            &&& reading::number16(b, 8) == r.revision_string_offset
            &&& reading::number16(b, 10) == r.unknown4_0
            &&& reading::number16(b, 12) == r.friendly_hostname_offset1
            &&& reading::number16(b, 14) == r.factory_hostname_offset
            &&& reading::number16(b, 16) == r.friendly_hostname_offset2
            &&& reading::number16(b, 30) == r.start_code
            &&& reading::number16(b, 32) == r.unknown6_0
            &&& reading::number16(b, 34) == r.unknown_opcode_1102
            &&& reading::number16(b, 36) == r.unknown7_0
            &&& forall|i: int|
                0 <= i < 6 ==> #[trigger] reading::number16(b, 18 + 2 * i) == r.unknown5_0@[i]
        }),
{
    let b = r.encoded();
    let middle = wire::be16s(r.unknown5_0@);
    wire::lemma_be16s_len(r.unknown5_0@);
    reading::lemma_read16(b, 0, r.unknown1_0);
    reading::lemma_read16(b, 2, r.unknown2_0);
    reading::lemma_read16(b, 4, r.unknown3_0);
    reading::lemma_read16(b, 6, r.board_name_offset);
    reading::lemma_read16(b, 8, r.revision_string_offset);
    reading::lemma_read16(b, 10, r.unknown4_0);
    reading::lemma_read16(b, 12, r.friendly_hostname_offset1);
    reading::lemma_read16(b, 14, r.factory_hostname_offset);
    reading::lemma_read16(b, 16, r.friendly_hostname_offset2);
    reading::lemma_read16(b, 30, r.start_code);
    reading::lemma_read16(b, 32, r.unknown6_0);
    reading::lemma_read16(b, 34, r.unknown_opcode_1102);
    reading::lemma_read16(b, 36, r.unknown7_0);
    assert forall|i: int| 0 <= i < 6 implies #[trigger] reading::number16(b, 18 + 2 * i)
        == r.unknown5_0@[i] by {
        reading::lemma_read16s(r.unknown5_0@, i);
        assert(b[18 + 2 * i] == middle[2 * i]);
        assert(b[18 + 2 * i + 1] == middle[2 * i + 1]);
    }
}

/// The fields of a transmit channel.
pub proof fn transmit_channel_fields_are_read(d: get_transmit_channels::ChannelDescriptor)
    ensures
        ({
            let b = d.encoded();
            &&& b.len() == 8
            &&& reading::number16(b, 0) == d.channel_id
            &&& reading::number16(b, 2) == d.unknown1_7
            &&& reading::number16(b, 4) == d.common_descriptor_offset
            &&& reading::number16(b, 6) == d.name_offset
        }),
{
    let b = d.encoded();
    reading::lemma_read16(b, 0, d.channel_id);
    reading::lemma_read16(b, 2, d.unknown1_7);
    reading::lemma_read16(b, 4, d.common_descriptor_offset);
    reading::lemma_read16(b, 6, d.name_offset);
}

/// The fields of a transmit channel under the name that its user gave it.
pub proof fn friendly_name_fields_are_read(
    d: get_transmit_channels_friendly_names::ChannelDescriptor,
)
    ensures
        ({
            let b = d.encoded();
            &&& b.len() == 6
            &&& reading::number16(b, 0) == d.channel_id_1
            &&& reading::number16(b, 2) == d.channel_id_2
            &&& reading::number16(b, 4) == d.friendly_name_offset
        }),
{
    let b = d.encoded();
    reading::lemma_read16(b, 0, d.channel_id_1);
    reading::lemma_read16(b, 2, d.channel_id_2);
    reading::lemma_read16(b, 4, d.friendly_name_offset);
}

/// The fields of a receive channel.
#[verifier::rlimit(40)]
#[verifier::spinoff_prover]
pub proof fn receive_channel_fields_are_read(d: get_receive_channels::ChannelDescriptor)
    ensures
        ({
            let b = d.encoded();
            &&& b.len() == 20
            &&& reading::number16(b, 0) == d.channel_id
            &&& reading::number16(b, 2) == d.unknown1_6
            &&& reading::number16(b, 4) == d.common_descriptor_offset
            &&& reading::number16(b, 6) == d.tx_channel_name_offset
            &&& reading::number16(b, 8) == d.tx_hostname_offset
            &&& reading::number16(b, 10) == d.friendly_name_offset
            &&& reading::number32(b, 12) == d.subscription_status
            &&& reading::number32(b, 16) == d.unknown2_0
        }),
{
    let b = d.encoded();
    reading::lemma_read16(b, 0, d.channel_id);
    reading::lemma_read16(b, 2, d.unknown1_6);
    reading::lemma_read16(b, 4, d.common_descriptor_offset);
    reading::lemma_read16(b, 6, d.tx_channel_name_offset);
    reading::lemma_read16(b, 8, d.tx_hostname_offset);
    reading::lemma_read16(b, 10, d.friendly_name_offset);
    reading::lemma_read32(b, 12, d.subscription_status);
    reading::lemma_read32(b, 16, d.unknown2_0);
}

/// The fields of what all channels share.
#[verifier::rlimit(40)]
#[verifier::spinoff_prover]
pub proof fn common_fields_are_read(d: get_receive_channels::CommonDescriptor)
    ensures
        ({
            let b = d.encoded();
            &&& b.len() == 16
            &&& reading::number32(b, 0) == d.sample_rate
            &&& b[4] == d.unknown1_1
            &&& b[5] == d.unknown2_1
            &&& reading::number16(b, 6) == d.bits_per_sample_1
            &&& reading::number16(b, 8) == d.unknown3_400
            &&& reading::number16(b, 10) == d.bits_per_sample_2
            &&& reading::number16(b, 12) == d.bits_per_sample_3
            &&& reading::number16(b, 14) == d.pcm_type
        }),
{
    let b = d.encoded();
    reading::lemma_read32(b, 0, d.sample_rate);
    reading::lemma_read16(b, 6, d.bits_per_sample_1);
    reading::lemma_read16(b, 8, d.unknown3_400);
    reading::lemma_read16(b, 10, d.bits_per_sample_2);
    reading::lemma_read16(b, 12, d.bits_per_sample_3);
    reading::lemma_read16(b, 14, d.pcm_type);
}

/// The fields of a new name for a channel.
pub proof fn rename_fields_are_read(r: rename_tx_channel::SingleChannelRenameRequest)
    ensures
        ({
            let b = r.encoded();
            &&& b.len() == 4
            &&& reading::number16(b, 0) == r.channel_id
            &&& reading::number16(b, 2) == r.new_name_offset
        }),
{
    let b = r.encoded();
    reading::lemma_read16(b, 0, r.channel_id);
    reading::lemma_read16(b, 2, r.new_name_offset);
}

/// The items of a request to rename transmit channels are read from its bytes, four for each, behind
/// two others.
pub proof fn rename_items_are_read(payload: Seq<u8>, i: int)
    requires
        0 <= i < rename_tx_channel::items(payload).len(),
    ensures
        rename_tx_channel::items(payload).len() <= payload[1],
        6 + 4 * i <= payload.len(),
        rename_tx_channel::items(payload)[i].channel_id == reading::number16(payload, 2 + 4 * i),
        rename_tx_channel::items(payload)[i].new_name_offset == reading::number16(
            payload,
            4 + 4 * i,
        ),
{
}

} // verus!
