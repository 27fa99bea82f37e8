//! What the files of the clock daemon give, and what times of the media clock are.
use vstd::arithmetic::div_mod::*;
use vstd::prelude::*;
use vstd::utf8::*;

use crate::device_info::DeviceInfo;
use crate::device_server::lifecycle;
use crate::device_server::lifecycle::{Lifecycle, StopStep};
use crate::hex_text;
use crate::info_mcast_server::clock_stats;
use crate::info_mcast_server::clock_stats::ClockFile;
use crate::laws::texts;
use crate::media_clock;

verus! {

/// A space, a tab, or the end of a line or a page.
pub open spec fn blank(b: u8) -> bool {
    b == 32 || b == 9 || b == 10 || b == 12 || b == 13
}

/// `inner` is `bytes` from `from` to `to`, and around it there are only blanks.
pub open spec fn is_inner(bytes: Seq<u8>, from: int, to: int, inner: Seq<u8>) -> bool {
    &&& 0 <= from <= to <= bytes.len()
    &&& inner == bytes.subrange(from, to)
    &&& forall|i: int| 0 <= i < from ==> blank(#[trigger] bytes[i])
    &&& forall|i: int| to <= i < bytes.len() ==> blank(#[trigger] bytes[i])
}

#[verifier::rlimit(40)]
#[verifier::spinoff_prover]
proof fn lemma_start(bytes: Seq<u8>) -> (from: int)
    ensures
        0 <= from <= bytes.len(),
        clock_stats::trim_start(bytes) == bytes.skip(from),
        forall|i: int| 0 <= i < from ==> blank(#[trigger] bytes[i]),
        from < bytes.len() ==> !blank(bytes[from]),
    decreases bytes.len(),
{
    if bytes.len() > 0 && blank(bytes[0]) {
        let rest = bytes.drop_first();
        let n = lemma_start(rest);
        assert(rest.skip(n) =~= bytes.skip(n + 1));
        assert forall|i: int| 0 <= i < n + 1 implies blank(#[trigger] bytes[i]) by {
            if i > 0 {
                assert(rest[i - 1] == bytes[i]);
            }
        }
        n + 1
    } else {
        assert(bytes.skip(0) =~= bytes);
        0
    }
}

#[verifier::rlimit(40)]
#[verifier::spinoff_prover]
proof fn lemma_end(bytes: Seq<u8>) -> (to: int)
    ensures
        0 <= to <= bytes.len(),
        clock_stats::trim_end(bytes) == bytes.take(to),
        forall|i: int| to <= i < bytes.len() ==> blank(#[trigger] bytes[i]),
        to > 0 ==> !blank(bytes[to - 1]),
    decreases bytes.len(),
{
    if bytes.len() > 0 && blank(bytes.last()) {
        let rest = bytes.drop_last();
        let n = lemma_end(rest);
        assert(rest.take(n) =~= bytes.take(n));
        assert forall|i: int| n <= i < bytes.len() implies blank(#[trigger] bytes[i]) by {
            if i < rest.len() {
                assert(rest[i] == bytes[i]);
            }
        }
        assert(n > 0 ==> rest[n - 1] == bytes[n - 1]);
        n
    } else {
        assert(bytes.take(bytes.len() as int) =~= bytes);
        bytes.len() as int
    }
}

/// What is left of bytes without the blanks around them: a stretch with only blanks in front of it
/// and behind it, that neither starts nor ends with one.
#[verifier::rlimit(40)]
#[verifier::spinoff_prover]
pub proof fn only_blanks_are_removed(bytes: Seq<u8>)
    ensures
        exists|from: int, to: int|
            is_inner(bytes, from, to, clock_stats::trimmed(bytes)),
        clock_stats::trimmed(bytes).len() > 0 ==> !blank(clock_stats::trimmed(bytes)[0])
            && !blank(clock_stats::trimmed(bytes).last()),
{
    let from = lemma_start(bytes);
    let rest = bytes.skip(from);
    let n = lemma_end(rest);
    let inner = clock_stats::trimmed(bytes);
    assert(inner =~= bytes.subrange(from, from + n));
    assert forall|i: int| from + n <= i < bytes.len() implies blank(#[trigger] bytes[i]) by {
        assert(rest[i - from] == bytes[i]);
    }
    assert(is_inner(bytes, from, from + n, inner));
    if inner.len() > 0 {
        assert(inner[0] == bytes[from]);
        assert(inner.last() == rest[n - 1]);
    }
}

/// The value of a hexadecimal digit of either case, and -1 for any other byte.
pub open spec fn hex_digit(b: u8) -> int {
    if 48 <= b <= 57 {
        b - 48
    } else if 97 <= b <= 102 {
        b - 87
    } else if 65 <= b <= 70 {
        b - 55
    } else {
        -1
    }
}

/// The identity of the master clock is there exactly where the text, without the blanks around it,
/// starts with sixteen hexadecimal digits; each of its eight bytes stands for two of them.
#[verifier::rlimit(40)]
#[verifier::spinoff_prover]
pub proof fn identity_is_read_from_its_digits(content: Seq<char>)
    requires
        clock_stats::clock_stats_served(content),
    ensures
        ({
            let t = clock_stats::trimmed(encode_utf8(content));
            match clock_stats::master_clock(content) {
                Some(id) => {
                    &&& id.len() == 8
                    &&& t.len() >= 16
                    &&& forall|i: int|
                        0 <= i < 8 ==> #[trigger] id[i] == hex_digit(t[2 * i]) * 16 + hex_digit(
                            t[2 * i + 1],
                        )
                    &&& forall|i: int| 0 <= i < 16 ==> hex_digit(#[trigger] t[i]) >= 0
                },
                None => t.len() < 16 || exists|i: int|
                    0 <= i < 16 && hex_digit(#[trigger] t[i]) < 0,
            }
        }),
{
    let t = clock_stats::trimmed(encode_utf8(content));
    if t.len() >= 16 {
        let d = t.take(16);
        assert forall|i: int| 0 <= i < 16 implies match hex_text::digit_value(#[trigger] t[i]) {
            Some(v) => v == hex_digit(t[i]),
            None => hex_digit(t[i]) < 0,
        } && d[i] == t[i] by {}
        match clock_stats::master_clock(content) {
            Some(id) => {
                assert forall|i: int| 0 <= i < 16 implies hex_digit(#[trigger] t[i]) >= 0 by {
                    assert(hex_text::digit_value(d[i]) is Some);
                }
                assert forall|i: int| 0 <= i < 8 implies #[trigger] id[i] == hex_digit(t[2 * i])
                    * 16 + hex_digit(t[2 * i + 1]) by {
                    assert(hex_text::digit_value(d[2 * i]) is Some);
                    assert(hex_text::digit_value(d[2 * i + 1]) is Some);
                    assert(d[2 * i] == t[2 * i]);
                    assert(d[2 * i + 1] == t[2 * i + 1]);
                }
            },
            None => {
                let i = choose|i: int|
                    0 <= i < d.len() && hex_text::digit_value(#[trigger] d[i]) is None;
                assert(hex_digit(t[i]) < 0);
            },
        }
    }
}

/// An identity can be looked for exactly where the text, without the blanks around it, has fewer
/// than twelve bytes, or at least sixteen with no character across the end of the sixteenth.
pub proof fn identity_is_looked_for(content: Seq<char>)
    ensures
        ({
            let t = clock_stats::trimmed(encode_utf8(content));
            clock_stats::clock_stats_served(content) <==> t.len() < 12 || t.len() == 16 || (t.len()
                > 16 && !is_continuation_byte(t[16]))
        }),
{
}

/// Bytes in hexadecimal are read back digit by digit.
pub proof fn hexadecimal_text_is_read_back(bytes: Seq<u8>)
    ensures
        hex_text::hex_chars(bytes).len() == 2 * bytes.len(),
        forall|i: int|
            0 <= i < bytes.len() ==> #[trigger] bytes[i] == 16 * texts::digit_value(
                hex_text::hex_chars(bytes)[2 * i],
            ) + texts::digit_value(hex_text::hex_chars(bytes)[2 * i + 1]),
        forall|i: int|
            0 <= i < 2 * bytes.len() ==> 0 <= texts::digit_value(
                #[trigger] hex_text::hex_chars(bytes)[i],
            ) < 16,
{
    let t = hex_text::hex_chars(bytes);
    assert forall|i: int| 0 <= i < bytes.len() implies #[trigger] bytes[i] == 16
        * texts::digit_value(t[2 * i]) + texts::digit_value(t[2 * i + 1]) by {
        assert((2 * i) / 2 == i && (2 * i) % 2 == 0);
        assert((2 * i + 1) / 2 == i && (2 * i + 1) % 2 == 1);
    }
}

/// The files about the clock of this device are named by its hardware address: twelve hexadecimal
/// digits behind `clock-stats.`, then four zeros.
#[verifier::rlimit(40)]
#[verifier::spinoff_prover]
pub proof fn clock_files_are_named_by_the_address(info: DeviceInfo)
    ensures
        ({
            let name = clock_stats::clock_stats_prefix(info);
            &&& name.len() == 28
            &&& name.take(12) == "clock-stats."@
            &&& forall|i: int|
                0 <= i < 6 ==> #[trigger] info.mac_address@[i] == 16 * texts::digit_value(
                    name[12 + 2 * i],
                ) + texts::digit_value(name[12 + 2 * i + 1])
            &&& forall|i: int|
                12 <= i < 24 ==> 0 <= texts::digit_value(#[trigger] name[i]) < 16
            &&& forall|i: int| 24 <= i < 28 ==> #[trigger] name[i] == '0'
        }),
{
    reveal_strlit("clock-stats.");
    reveal_strlit("0000");
    let name = clock_stats::clock_stats_prefix(info);
    let digits = hex_text::hex_chars(info.mac_address@);
    hexadecimal_text_is_read_back(info.mac_address@);
    assert(name.take(12) =~= "clock-stats."@);
    assert forall|i: int| 0 <= i < 6 implies #[trigger] info.mac_address@[i] == 16
        * texts::digit_value(name[12 + 2 * i]) + texts::digit_value(name[12 + 2 * i + 1]) by {
        assert(name[12 + 2 * i] == digits[2 * i]);
        assert(name[12 + 2 * i + 1] == digits[2 * i + 1]);
    }
    assert forall|i: int| 12 <= i < 24 implies 0 <= texts::digit_value(#[trigger] name[i])
        < 16 by {
        assert(name[i] == digits[i - 12]);
    }
}

/// A file gives an identity exactly where it could be read, its name starts as those of this device
/// do, and its text holds one.
pub proof fn file_gives_what_its_text_holds(info: DeviceInfo, file: ClockFile)
    ensures
        clock_stats::identity_in(info, file) is Some <==> (file.content is Some && encode_utf8(
            clock_stats::clock_stats_prefix(info),
        ).is_prefix_of(encode_utf8(file.name@)) && clock_stats::master_clock(
            file.content->0@,
        ) is Some),
        clock_stats::identity_in(info, file) is Some ==> clock_stats::identity_in(info, file)
            == clock_stats::master_clock(file.content->0@),
{
}

/// The search finds the identity of the first file that gives one, and none exactly where no file
/// does.
#[verifier::rlimit(40)]
#[verifier::spinoff_prover]
pub proof fn search_finds_the_first_identity(info: DeviceInfo, files: Seq<ClockFile>)
    ensures
        match clock_stats::first_identity(info, files) {
            Some(id) => exists|k: int|
                0 <= k < files.len() && #[trigger] clock_stats::identity_in(info, files[k]) == Some(
                    id,
                ) && forall|j: int|
                    0 <= j < k ==> #[trigger] clock_stats::identity_in(info, files[j]) is None,
            None => forall|j: int|
                0 <= j < files.len() ==> #[trigger] clock_stats::identity_in(
                    info,
                    files[j],
                ) is None,
        },
    decreases files.len(),
{
    if files.len() > 0 && clock_stats::identity_in(info, files[0]) is None {
        let rest = files.drop_first();
        search_finds_the_first_identity(info, rest);
        match clock_stats::first_identity(info, rest) {
            Some(id) => {
                let k = choose|k: int|
                    0 <= k < rest.len() && #[trigger] clock_stats::identity_in(info, rest[k])
                        == Some(id) && forall|j: int|
                        0 <= j < k ==> #[trigger] clock_stats::identity_in(info, rest[j]) is None;
                assert(files[k + 1] == rest[k]);
                assert forall|j: int| 0 <= j < k + 1 implies #[trigger] clock_stats::identity_in(
                    info,
                    files[j],
                ) is None by {
                    if j > 0 {
                        assert(files[j] == rest[j - 1]);
                    }
                }
                assert(clock_stats::identity_in(info, files[k + 1]) == Some(id));
            },
            None => {
                assert forall|j: int|
                    0 <= j < files.len() implies #[trigger] clock_stats::identity_in(
                    info,
                    files[j],
                ) is None by {
                    if j > 0 {
                        assert(files[j] == rest[j - 1]);
                    }
                }
            },
        }
    }
}

/// All files before `k` give no identity.
pub open spec fn none_before(info: DeviceInfo, files: Seq<ClockFile>, k: int) -> bool {
    forall|j: int| 0 <= j < k ==> #[trigger] clock_stats::identity_in(info, files[j]) is None
}

/// The text of a file, if it has one for this device, can be searched.
pub open spec fn searchable(info: DeviceInfo, file: ClockFile) -> bool {
    file.content is Some && encode_utf8(clock_stats::clock_stats_prefix(info)).is_prefix_of(
        encode_utf8(file.name@),
    ) ==> clock_stats::clock_stats_served(file.content->0@)
}

/// The search can be made exactly where the text of each file that it comes to can be searched.
#[verifier::rlimit(40)]
#[verifier::spinoff_prover]
pub proof fn search_is_made(info: DeviceInfo, files: Seq<ClockFile>)
    ensures
        clock_stats::search_served(info, files) <==> forall|k: int|
            0 <= k < files.len() && none_before(info, files, k) ==> searchable(
                info,
                #[trigger] files[k],
            ),
    decreases files.len(),
{
    if files.len() > 0 {
        let rest = files.drop_first();
        search_is_made(info, rest);
        let gives_none = clock_stats::identity_in(info, files[0]) is None;
        assert(none_before(info, files, 0));
        assert forall|k: int| 0 <= k < rest.len() && gives_none implies (none_before(
            info,
            files,
            k + 1,
        ) <==> none_before(info, rest, k)) && #[trigger] rest[k] == files[k + 1] by {
            if none_before(info, files, k + 1) {
                assert forall|j: int| 0 <= j < k implies #[trigger] clock_stats::identity_in(
                    info,
                    rest[j],
                ) is None by {
                    assert(files[j + 1] == rest[j]);
                    assert(clock_stats::identity_in(info, files[j + 1]) is None);
                }
            }
            if none_before(info, rest, k) {
                assert forall|j: int| 0 <= j < k + 1 implies #[trigger] clock_stats::identity_in(
                    info,
                    files[j],
                ) is None by {
                    if j > 0 {
                        assert(files[j] == rest[j - 1]);
                    }
                }
            }
        }
        if clock_stats::search_served(info, files) {
            assert forall|k: int|
                0 <= k < files.len() && none_before(info, files, k) implies searchable(
                info,
                #[trigger] files[k],
            ) by {
                if k > 0 {
                    assert(clock_stats::identity_in(info, files[0]) is None);
                    assert(rest[k - 1] == files[k]);
                }
            }
        } else if searchable(info, files[0]) {
            let k = choose|k: int|
                0 <= k < rest.len() && none_before(info, rest, k) && !searchable(
                    info,
                    #[trigger] rest[k],
                );
            assert(rest[k] == files[k + 1]);
            assert(none_before(info, files, k + 1));
            assert(!searchable(info, files[k + 1]));
        }
    }
}

/// A time in units of a time base is the last whole unit that has passed: it takes no more than the
/// nanoseconds, and one unit more takes longer.
pub proof fn whole_units_have_passed(ns: nat, timebase_hz: nat)
    ensures
        media_clock::in_timebase(ns, timebase_hz) * 1_000_000_000 <= ns * timebase_hz,
        ns * timebase_hz < (media_clock::in_timebase(ns, timebase_hz) + 1) * 1_000_000_000,
{
}

/// A time in nanoseconds is the last whole nanosecond that has passed.
#[verifier::rlimit(40)]
#[verifier::spinoff_prover]
pub proof fn whole_nanoseconds_have_passed(timestamp: nat, timebase_hz: nat)
    requires
        timebase_hz > 0,
    ensures
        media_clock::in_nanos(timestamp, timebase_hz) * timebase_hz <= timestamp * 1_000_000_000,
        timestamp * 1_000_000_000 < (media_clock::in_nanos(timestamp, timebase_hz) + 1)
            * timebase_hz,
{
    let total = (timestamp * 1_000_000_000) as int;
    let hz = timebase_hz as int;
    let v = media_clock::in_nanos(timestamp, timebase_hz) as int;
    lemma_fundamental_div_mod(total, hz);
    lemma_mod_bound(total, hz);
    assert(v * hz <= total < (v + 1) * hz) by (nonlinear_arith)
        requires
            total == hz * v + total % hz,
            0 <= total % hz < hz,
    ;
}

/// A difference of times is told as the signed number of 64 bits that differs from it by a multiple
/// of 2^64.
#[verifier::rlimit(40)]
#[verifier::spinoff_prover]
pub proof fn difference_is_told_in_64_bits(a: int, b: int)
    ensures
        -0x8000_0000_0000_0000 <= media_clock::signed_diff(a, b) < 0x8000_0000_0000_0000,
        (a - b - media_clock::signed_diff(a, b)) % 0x1_0000_0000_0000_0000 == 0,
        media_clock::fine_modulus() == 0x1_0000_0000_0000_0000,
        media_clock::clock_modulus() == usize::MAX + 1,
{
    let m: int = 0x1_0000_0000_0000_0000;
    let d = (a - b) % m;
    lemma_mod_bound(a - b, m);
    lemma_fundamental_div_mod(a - b, m);
    let q = (a - b) / m;
    let s = media_clock::signed_diff(a, b);
    assert(a - b - d == m * q);
    if s == d {
        lemma_mod_multiples_basic(q, m);
        assert(a - b - s == q * m) by (nonlinear_arith)
            requires
                a - b - s == m * q,
        ;
    } else {
        lemma_mod_multiples_basic(q + 1, m);
        assert(a - b - s == (q + 1) * m) by (nonlinear_arith)
            requires
                a - b - s == m * q + m,
        ;
    }
}

/// Switching the device off takes a step for each side that runs, the receiving side first, then one
/// for the servers, then one for the clock, and no other.
pub proof fn shutdown_takes_a_step_for_each_part(parts: Lifecycle)
    ensures
        ({
            let steps = lifecycle::shutdown_steps(parts);
            let r = if parts.receiving {
                1int
            } else {
                0
            };
            let t = if parts.transmitting {
                1int
            } else {
                0
            };
            &&& steps.len() == r + t + 2
            &&& parts.receiving ==> steps[0] == StopStep::StopReceiver
            &&& parts.transmitting ==> steps[r] == StopStep::StopTransmitter
            &&& steps[r + t] == StopStep::StopServers
            &&& steps[r + t + 1] == StopStep::StopClock
        }),
{
}

} // verus!
