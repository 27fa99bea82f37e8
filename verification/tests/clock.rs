use inferno_aoip::media_clock::{
    nanos_to_timebase, remaining_until, timestamp_to_clock_value, wait_after_correction, MediaClock,
};

#[test]
fn system_time_is_counted_in_nanoseconds() {
    assert_eq!(timestamp_to_clock_value(0, 5), 5);
    assert_eq!(timestamp_to_clock_value(2, 500), 2_000_000_500);
    assert_eq!(timestamp_to_clock_value(-1, 0), u64::MAX - 999_999_999);
    assert_eq!(timestamp_to_clock_value(-1, 1_000_000_000), 0);
    let seconds: i64 = 20_000_000_000;
    assert_eq!(
        timestamp_to_clock_value(seconds, 7),
        (seconds as u64).wrapping_mul(1_000_000_000).wrapping_add(7)
    );
    assert_eq!(timestamp_to_clock_value(i64::MIN, 0), 0);
}

#[test]
fn nanoseconds_are_counted_in_samples() {
    assert_eq!(nanos_to_timebase(1_000_000_000, 48000), 48000);
    assert_eq!(nanos_to_timebase(20_833, 48000), 0);
    assert_eq!(nanos_to_timebase(20_834, 48000), 1);
    assert_eq!(
        nanos_to_timebase(u64::MAX, 2_000_000_000),
        ((u64::MAX as u128 * 2) % (usize::MAX as u128 + 1)) as usize
    );
}

#[test]
fn remaining_time_is_signed() {
    assert_eq!(remaining_until(48000, 48000, 0), 1_000_000_000);
    assert_eq!(remaining_until(48000, 48000, 1_500_000_000), -500_000_000);
    assert_eq!(remaining_until(0, 48000, u64::MAX), 1);
    assert_eq!(remaining_until(0, 48000, 1 << 63), i64::MIN);
}

#[test]
fn waiting_is_never_negative() {
    assert_eq!(wait_after_correction(1000, 10), 990);
    assert_eq!(wait_after_correction(1000, -10), 1010);
    assert_eq!(wait_after_correction(5, 5), 0);
    assert_eq!(wait_after_correction(-5, 5), 0);
}

#[test]
fn clock_is_ready_once_it_has_an_overlay() {
    let mut clock: MediaClock<u8> = MediaClock::new();
    assert!(!clock.is_ready());
    assert_eq!(*clock.get_overlay(), None);
    assert_eq!(clock.now_ns(5), None);
    assert_eq!(clock.now_in_timebase(5, 48000), None);
    assert_eq!(clock.remaining(1, 48000, 5), None);
    clock.update_overlay(3);
    clock.update_overlay(4);
    assert!(clock.is_ready());
    assert_eq!(*clock.get_overlay(), Some(4));
    assert_eq!(clock.now_ns(5), Some(5));
    assert_eq!(clock.now_in_timebase(2_000_000_000, 44100), Some(88200));
    assert_eq!(clock.remaining(48000, 48000, 999_999_999), Some(1));
}

#[test]
fn present_sample_is_not_waited_for() {
    for ns in [0u64, 1, 20_833, 20_834, 123_456_789, 999_999_999_999] {
        let now = nanos_to_timebase(ns, 44100);
        assert!(remaining_until(now, 44100, ns) <= 0);
        assert!(remaining_until(now + 1, 44100, ns) >= 0);
    }
}

#[test]
fn later_times_have_no_smaller_count() {
    let times = [0u64, 1, 20_833, 20_834, 41_667, 1_000_000_000, 1_000_020_833, u64::MAX];
    for pair in times.windows(2) {
        assert!(nanos_to_timebase(pair[0], 48000) <= nanos_to_timebase(pair[1], 48000));
    }
}
