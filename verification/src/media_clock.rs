//! Times of the media clock, in nanoseconds and in samples.
use vstd::prelude::*;

verus! {

/// High-precision clock (nanoseconds)
pub type FineClock = u64;

/// Signed version of the high-precision clock. For clock deltas.
pub type FineClockDiff = i64;

/// A time in units of some time base, most often samples.
pub type Clock = usize;

pub const NANOS_PER_SECOND: u64 = 1_000_000_000;

/// The number of values of the high-precision clock.
pub open spec fn fine_modulus() -> int {
    0x1_0000_0000_0000_0000
}

/// The number of values of a time in units of a time base.
pub open spec fn clock_modulus() -> int {
    usize::MAX + 1
}

/// A difference of times of the high-precision clock, taken as the one next to zero.
pub open spec fn signed_diff(a: int, b: int) -> int {
    let d = (a - b) % fine_modulus();
    if d <= i64::MAX {
        d
    } else {
        d - fine_modulus()
    }
}

/// A system time as a value of the high-precision clock, which wraps around.
pub fn timestamp_to_clock_value(seconds: i64, nanos: u32) -> (v: FineClock)
    ensures
        v == (seconds * 1_000_000_000 + nanos) % fine_modulus(),
{
    let base: u64 = #[verifier::truncate]
    (seconds as u64);
    let product: u64 = base.wrapping_mul(NANOS_PER_SECOND);
    let v: u64 = product.wrapping_add(nanos as u64);
    proof {
        assert(seconds >= 0 ==> base == seconds);
        assert(seconds < 0 ==> (seconds as u64) as int == seconds + 0x1_0000_0000_0000_0000)
            by (bit_vector);
        let m = fine_modulus();
        let s = seconds as int;
        assert(base == s || base == s + m);
        assert(product as int == (base * 1_000_000_000) % m);
        assert(v as int == (product + nanos) % m);
        let k: int = if base == s {
            0
        } else {
            1_000_000_000
        };
        assert(base * 1_000_000_000 == s * 1_000_000_000 + k * m);
        lemma_wrap(s * 1_000_000_000, nanos as int, k);
    }
    v
}

/// Multiples of the modulus make no difference.
proof fn lemma_wrap(a: int, b: int, k: int)
    ensures
        ((a + k * fine_modulus()) % fine_modulus() + b) % fine_modulus() == (a + b)
            % fine_modulus(),
{
    let m = fine_modulus();
    vstd::arithmetic::div_mod::lemma_mod_multiples_vanish(k, a, m);
    assert(m * k + a == a + k * m) by (nonlinear_arith);
    vstd::arithmetic::div_mod::lemma_add_mod_noop(a, b, m);
    vstd::arithmetic::div_mod::lemma_add_mod_noop(a % m, b, m);
    vstd::arithmetic::div_mod::lemma_mod_twice(a, m);
}

/// A time in nanoseconds, in units of a time base.
pub open spec fn in_timebase(ns: nat, timebase_hz: nat) -> nat {
    ns * timebase_hz / 1_000_000_000
}

/// A time in units of a time base, in nanoseconds.
pub open spec fn in_nanos(timestamp: nat, timebase_hz: nat) -> nat {
    timestamp * 1_000_000_000 / timebase_hz
}

/// Counts a time in nanoseconds in units of a time base. The result wraps around.
pub fn nanos_to_timebase(ns: FineClock, timebase_hz: u64) -> (v: Clock)
    ensures
        v == in_timebase(ns as nat, timebase_hz as nat) % clock_modulus() as nat,
        in_timebase(ns as nat, timebase_hz as nat) <= usize::MAX ==> v == in_timebase(
            ns as nat,
            timebase_hz as nat,
        ),
{
    assert(ns * timebase_hz <= 0xffff_ffff_ffff_ffff * 0xffff_ffff_ffff_ffff) by (nonlinear_arith)
        requires
            ns <= 0xffff_ffff_ffff_ffff,
            timebase_hz <= 0xffff_ffff_ffff_ffff,
    ;
    assert(ns * timebase_hz >= 0) by (nonlinear_arith)
        requires
            ns >= 0,
            timebase_hz >= 0,
    ;
    let units: u128 = (ns as u128) * (timebase_hz as u128) / 1_000_000_000;
    proof {
        if units <= usize::MAX {
            vstd::arithmetic::div_mod::lemma_small_mod(units as nat, clock_modulus() as nat);
        }
    }
    (units % (usize::MAX as u128 + 1)) as usize
}

/// How long it is from `now_ns` until `timestamp`, in nanoseconds. Negative for the past.
pub fn remaining_until(timestamp: Clock, timebase_hz: u64, now_ns: FineClock) -> (remaining:
    FineClockDiff)
    requires
        timebase_hz > 0,
    ensures
        remaining == signed_diff(
            in_nanos(timestamp as nat, timebase_hz as nat) as int,
            now_ns as int,
        ),
{
    let nanos: u128 = timestamp as u128 * 1_000_000_000 / timebase_hz as u128;
    let to_ns: u64 = (nanos % 0x1_0000_0000_0000_0000) as u64;
    let diff: u64 = to_ns.wrapping_sub(now_ns);
    proof {
        let m = fine_modulus();
        let full = in_nanos(timestamp as nat, timebase_hz as nat) as int;
        assert(nanos == full);
        assert(to_ns == full % m);
        vstd::arithmetic::div_mod::lemma_sub_mod_noop(full, now_ns as int, m);
        vstd::arithmetic::div_mod::lemma_small_mod(now_ns as nat, m as nat);
        assert(diff as int == (to_ns - now_ns) % m);
    }
    if diff <= 0x7fff_ffff_ffff_ffff {
        diff as i64
    } else {
        -((u64::MAX - diff) as i64) - 1
    }
}

/// How many nanoseconds of system time to wait, when the media clock has `remaining` to go and
/// `corr` of them are made up for by the difference of the clocks.
pub fn wait_after_correction(remaining: FineClockDiff, corr: FineClockDiff) -> (wait: u64)
    requires
        i64::MIN <= remaining - corr <= i64::MAX,
    ensures
        wait == if remaining > corr {
            remaining - corr
        } else {
            0
        },
{
    let duration: i64 = remaining - corr;
    if duration > 0 {
        duration as u64
    } else {
        0
    }
}

/// The clock that audio is timed by: the system clock, corrected by an overlay once one is known.
#[derive(Debug)]
pub struct MediaClock<O> {
    pub overlay: Option<O>,
}

impl<O> MediaClock<O> {
    pub fn new() -> (r: Self)
        ensures
            r.overlay is None,
    {
        MediaClock { overlay: None }
    }

    pub fn is_ready(&self) -> (ready: bool)
        ensures
            ready == (self.overlay is Some),
    {
        self.overlay.is_some()
    }

    pub fn get_overlay(&self) -> (overlay: &Option<O>)
        ensures
            *overlay == self.overlay,
    {
        &self.overlay
    }

    pub fn update_overlay(&mut self, overlay: O)
        ensures
            final(self).overlay == Some(overlay),
    {
        self.overlay = Some(overlay);
    }

    /// The time, given what the corrected clock reads; none while there is no overlay.
    pub fn now_ns(&self, reading: FineClock) -> (now: Option<FineClock>)
        ensures
            now == if self.overlay is Some {
                Some(reading)
            } else {
                None
            },
    {
        if self.is_ready() {
            Some(reading)
        } else {
            None
        }
    }

    /// The time in units of a time base, given what the corrected clock reads.
    pub fn now_in_timebase(&self, reading: FineClock, timebase_hz: u64) -> (now: Option<Clock>)
        ensures
            now is Some <==> self.overlay is Some,
            now matches Some(v) ==> v == in_timebase(reading as nat, timebase_hz as nat)
                % clock_modulus() as nat,
    {
        match self.now_ns(reading) {
            Some(ns) => Some(nanos_to_timebase(ns, timebase_hz)),
            None => None,
        }
    }

    /// How long it is until `timestamp`, in nanoseconds of the media clock, given what the
    /// corrected clock reads.
    pub fn remaining(&self, timestamp: Clock, timebase_hz: u64, reading: FineClock) -> (remaining:
        Option<FineClockDiff>)
        requires
            timebase_hz > 0,
        ensures
            remaining is Some <==> self.overlay is Some,
            remaining matches Some(v) ==> v == signed_diff(
                in_nanos(timestamp as nat, timebase_hz as nat) as int,
                reading as int,
            ),
    {
        match self.now_ns(reading) {
            Some(now) => Some(remaining_until(timestamp, timebase_hz, now)),
            None => None,
        }
    }
}

/// Later times have no smaller count.
pub proof fn timebase_keeps_order(a: nat, b: nat, timebase_hz: nat)
    requires
        a <= b,
    ensures
        in_timebase(a, timebase_hz) <= in_timebase(b, timebase_hz),
{
    assert(a * timebase_hz <= b * timebase_hz) by (nonlinear_arith)
        requires
            a <= b,
    ;
}

/// The time counted in units of a time base does not lie in the future, and one unit later does not
/// lie in the past.
pub proof fn present_lies_between_its_count_and_the_next(ns: nat, timebase_hz: nat)
    requires
        timebase_hz > 0,
    ensures
        in_nanos(in_timebase(ns, timebase_hz), timebase_hz) <= ns,
        in_nanos(in_timebase(ns, timebase_hz) + 1, timebase_hz) >= ns,
{
    let p = ns * timebase_hz;
    let t = in_timebase(ns, timebase_hz);
    assert(t * 1_000_000_000 <= p < (t + 1) * 1_000_000_000);
    assert((t * 1_000_000_000) / timebase_hz <= ns) by (nonlinear_arith)
        requires
            t * 1_000_000_000 <= ns * timebase_hz,
            timebase_hz > 0,
    ;
    assert(((t + 1) * 1_000_000_000) / timebase_hz >= ns) by (nonlinear_arith)
        requires
            ns * timebase_hz < (t + 1) * 1_000_000_000,
            timebase_hz > 0,
    ;
}

/// A difference that fits a signed number is told as it is.
pub proof fn near_times_differ_by_their_distance(a: int, b: int)
    requires
        i64::MIN <= a - b <= i64::MAX,
    ensures
        signed_diff(a, b) == a - b,
{
    let m = fine_modulus();
    if a - b >= 0 {
        vstd::arithmetic::div_mod::lemma_small_mod((a - b) as nat, m as nat);
    } else {
        vstd::arithmetic::div_mod::lemma_mod_add_multiples_vanish(a - b, m);
        vstd::arithmetic::div_mod::lemma_small_mod((a - b + m) as nat, m as nat);
    }
}

} // verus!
