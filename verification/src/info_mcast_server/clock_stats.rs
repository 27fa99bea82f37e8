//! The master clock, as the files of the clock daemon tell it.
use vstd::prelude::*;
use vstd::slice::slice_subrange;
use vstd::string::*;
use vstd::utf8::*;

use crate::device_info::DeviceInfo;
use crate::hex_text;
use crate::text;

verus! {

/// Whether a byte is white space in ASCII.
pub open spec fn is_space(b: u8) -> bool {
    b == 0x20 || b == 0x09 || b == 0x0a || b == 0x0c || b == 0x0d
}

/// `bytes` without the white space at their start.
pub open spec fn trim_start(bytes: Seq<u8>) -> Seq<u8>
    decreases bytes.len(),
{
    if bytes.len() > 0 && is_space(bytes[0]) {
        trim_start(bytes.drop_first())
    } else {
        bytes
    }
}

/// `bytes` without the white space at their end.
pub open spec fn trim_end(bytes: Seq<u8>) -> Seq<u8>
    decreases bytes.len(),
{
    if bytes.len() > 0 && is_space(bytes.last()) {
        trim_end(bytes.drop_last())
    } else {
        bytes
    }
}

/// `bytes` without the white space around them.
pub open spec fn trimmed(bytes: Seq<u8>) -> Seq<u8> {
    trim_end(trim_start(bytes))
}

/// The names of the files that tell the state of the clock of this device start with this.
pub open spec fn clock_stats_prefix(info: DeviceInfo) -> Seq<char> {
    "clock-stats."@ + hex_text::hex_chars(info.mac_address@) + "0000"@
}

/// The text is too short to hold a clock identity, or its first sixteen bytes can be taken as text.
pub open spec fn clock_stats_served(content: Seq<char>) -> bool {
    let bytes = trimmed(encode_utf8(content));
    bytes.len() < 12 || (bytes.len() >= 16 && (bytes.len() == 16 || !(0x80 <= bytes[16] < 0xc0)))
}

/// The identity of the master clock: the first sixteen hexadecimal digits of the text.
pub open spec fn master_clock(content: Seq<char>) -> Option<Seq<u8>> {
    let bytes = trimmed(encode_utf8(content));
    if bytes.len() >= 12 && hex_text::is_hex(bytes.take(16)) {
        Some(hex_text::hex_bytes(bytes.take(16)))
    } else {
        None
    }
}

/// Removes the white space around `bytes`.
pub(crate) fn trim_ascii<'a>(bytes: &'a [u8]) -> (out: &'a [u8])
    ensures
        out@ == trimmed(bytes@),
{
    let mut from: usize = 0;
    assert(bytes@.skip(0) =~= bytes@);
    while from < bytes.len() && (bytes[from] == 0x20 || bytes[from] == 0x09 || bytes[from] == 0x0a
        || bytes[from] == 0x0c || bytes[from] == 0x0d)
        invariant
            from <= bytes@.len(),
            trim_start(bytes@) == trim_start(bytes@.skip(from as int)),
        decreases bytes@.len() - from,
    {
        assert(bytes@.skip(from as int).drop_first() =~= bytes@.skip(from + 1));
        from = from + 1;
    }
    let ghost rest = bytes@.skip(from as int);
    assert(trim_start(bytes@) == rest);
    let mut to: usize = bytes.len();
    assert(bytes@.subrange(from as int, to as int) =~= rest);
    while from < to && (bytes[to - 1] == 0x20 || bytes[to - 1] == 0x09 || bytes[to - 1] == 0x0a
        || bytes[to - 1] == 0x0c || bytes[to - 1] == 0x0d)
        invariant
            from <= to <= bytes@.len(),
            trim_end(rest) == trim_end(bytes@.subrange(from as int, to as int)),
        decreases to - from,
    {
        assert(bytes@.subrange(from as int, to as int).drop_last() =~= bytes@.subrange(
            from as int,
            to - 1,
        ));
        to = to - 1;
    }
    slice_subrange(bytes, from, to)
}

/// The prefix of the names of the files that tell the state of the clock of this device.
pub fn required_prefix(info: &DeviceInfo) -> (prefix: String)
    ensures
        prefix@ == clock_stats_prefix(*info),
{
    let mac = hex_text::hex_encode(info.mac_address.as_slice());
    text::joined(text::joined("clock-stats.", mac.as_str()).as_str(), "0000")
}

/// Whether a file of that name tells the state of the clock of this device.
pub fn is_clock_stats_file(info: &DeviceInfo, file_name: &str) -> (ok: bool)
    ensures
        ok == encode_utf8(clock_stats_prefix(*info)).is_prefix_of(encode_utf8(file_name@)),
{
    let prefix = required_prefix(info);
    let wanted = prefix.as_str().as_bytes();
    let given = file_name.as_bytes();
    if given.len() < wanted.len() {
        return false;
    }
    let mut i: usize = 0;
    while i < wanted.len()
        invariant
            wanted@ == encode_utf8(clock_stats_prefix(*info)),
            given@ == encode_utf8(file_name@),
            wanted@.len() <= given@.len(),
            i <= wanted@.len(),
            forall|k: int| 0 <= k < i ==> wanted@[k] == given@[k],
        decreases wanted@.len() - i,
    {
        if wanted[i] != given[i] {
            assert(given@.subrange(0, wanted@.len() as int)[i as int] != wanted@[i as int]);
            return false;
        }
        i = i + 1;
    }
    assert(wanted@ =~= given@.subrange(0, wanted@.len() as int));
    true
}

/// Whether the identity of the master clock can be looked for in the text.
pub fn is_clock_stats_served(content: &str) -> (ok: bool)
    ensures
        ok == clock_stats_served(content@),
{
    let bytes = trim_ascii(content.as_bytes());
    let len: usize = bytes.len();
    len < 12 || (len >= 16 && (len == 16 || bytes[16] < 0x80 || bytes[16] >= 0xc0))
}

/// Reads the identity of the master clock from the text of such a file.
pub fn master_clock_id(content: &str) -> (id: Option<Vec<u8>>)
    requires
        clock_stats_served(content@),
    ensures
        match id {
            Some(bytes) => master_clock(content@) == Some(bytes@) && bytes@.len() == 8,
            None => master_clock(content@) is None,
        },
{
    let bytes = trim_ascii(content.as_bytes());
    if bytes.len() < 12 {
        return None;
    }
    let digits = slice_subrange(bytes, 0, 16);
    assert(digits@ =~= bytes@.take(16));
    hex_text::hex_decode(digits)
}

/// A file among those that may tell the state of a clock.
#[derive(Debug)]
pub struct ClockFile {
    pub name: String,
    /// Its text; none where it could not be read.
    pub content: Option<String>,
}

/// The text of a file, if it tells the state of the clock of this device and could be read.
pub open spec fn clock_text(info: DeviceInfo, file: ClockFile) -> Option<Seq<char>> {
    match file.content {
        Some(content) => if encode_utf8(clock_stats_prefix(info)).is_prefix_of(
            encode_utf8(file.name@),
        ) {
            Some(content@)
        } else {
            None
        },
        None => None,
    }
}

/// The identity of the master clock that a file gives.
pub open spec fn identity_in(info: DeviceInfo, file: ClockFile) -> Option<Seq<u8>> {
    match clock_text(info, file) {
        Some(content) => master_clock(content),
        None => None,
    }
}

/// The identity of the master clock: what the first of the files gives that gives one.
pub open spec fn first_identity(info: DeviceInfo, files: Seq<ClockFile>) -> Option<Seq<u8>>
    decreases files.len(),
{
    if files.len() == 0 {
        None
    } else if identity_in(info, files[0]) is Some {
        identity_in(info, files[0])
    } else {
        first_identity(info, files.drop_first())
    }
}

/// The identity of the master clock can be looked for in each file up to the first that gives one.
pub open spec fn search_served(info: DeviceInfo, files: Seq<ClockFile>) -> bool
    decreases files.len(),
{
    files.len() == 0 || {
        &&& clock_text(info, files[0]) matches Some(content) ==> clock_stats_served(content)
        &&& identity_in(info, files[0]) is Some || search_served(info, files.drop_first())
    }
}

/// Whether the identity of the master clock can be looked for in each file up to the first that
/// gives one.
pub fn is_search_served(info: &DeviceInfo, files: &Vec<ClockFile>) -> (ok: bool)
    ensures
        ok == search_served(*info, files@),
{
    let mut i: usize = 0;
    assert(files@.skip(0) =~= files@);
    while i < files.len()
        invariant
            i <= files@.len(),
            search_served(*info, files@) == search_served(*info, files@.skip(i as int)),
        decreases files@.len() - i,
    {
        let file = &files[i];
        assert(files@.skip(i as int)[0] == *file);
        assert(files@.skip(i as int).drop_first() =~= files@.skip(i + 1));
        match &file.content {
            Some(content) => {
                if is_clock_stats_file(info, file.name.as_str()) {
                    if !is_clock_stats_served(content.as_str()) {
                        return false;
                    }
                    if master_clock_id(content.as_str()).is_some() {
                        return true;
                    }
                }
            },
            None => {},
        }
        i = i + 1;
    }
    true
}

/// Looks for the identity of the master clock in the files, in their order, and stops at the first
/// that gives one.
pub fn find_master_clock(info: &DeviceInfo, files: &Vec<ClockFile>) -> (id: Option<Vec<u8>>)
    requires
        search_served(*info, files@),
    ensures
        match id {
            Some(bytes) => first_identity(*info, files@) == Some(bytes@) && bytes@.len() == 8,
            None => first_identity(*info, files@) is None,
        },
{
    let mut i: usize = 0;
    assert(files@.skip(0) =~= files@);
    while i < files.len()
        invariant
            i <= files@.len(),
            search_served(*info, files@.skip(i as int)),
            first_identity(*info, files@) == first_identity(*info, files@.skip(i as int)),
        decreases files@.len() - i,
    {
        let file = &files[i];
        assert(files@.skip(i as int)[0] == *file);
        assert(files@.skip(i as int).drop_first() =~= files@.skip(i + 1));
        match &file.content {
            Some(content) => {
                if is_clock_stats_file(info, file.name.as_str()) {
                    let id = master_clock_id(content.as_str());
                    if id.is_some() {
                        return id;
                    }
                }
            },
            None => {},
        }
        i = i + 1;
    }
    None
}

/// The first file that gives an identity decides, whatever stands behind it; files before it that
/// give none, or are not about this device, make no difference.
pub proof fn first_file_with_an_identity_decides(
    info: DeviceInfo,
    before: Seq<ClockFile>,
    deciding: ClockFile,
    behind: Seq<ClockFile>,
)
    requires
        forall|i: int| 0 <= i < before.len() ==> identity_in(info, #[trigger] before[i]) is None,
        identity_in(info, deciding) is Some,
    ensures
        first_identity(info, before + seq![deciding] + behind) == identity_in(info, deciding),
    decreases before.len(),
{
    let all = before + seq![deciding] + behind;
    if before.len() == 0 {
        assert(all[0] == deciding);
    } else {
        let fewer = before.drop_first();
        assert(all[0] == before[0]);
        assert(all.drop_first() =~= fewer + seq![deciding] + behind);
        assert forall|i: int| 0 <= i < fewer.len() implies identity_in(
            info,
            #[trigger] fewer[i],
        ) is None by {
            assert(fewer[i] == before[i + 1]);
        }
        first_file_with_an_identity_decides(info, fewer, deciding, behind);
    }
}

} // verus!
