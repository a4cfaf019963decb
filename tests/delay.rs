use esp_hal_common::clock::Clocks;
use esp_hal_common::cycle_delay;
use esp_hal_common::delay::{ticks_for, wrap_target, Delay};
use esp_hal_common::systimer::{Alarm, SystemTimer, BIT_MASK};

fn clocks() -> Clocks {
    Clocks { cpu_clock_mhz: 160, xtal_clock_mhz: 40 }
}

#[test]
fn counter_runs_at_xtal_over_two_and_a_half() {
    let d = Delay::new(Alarm::conjure(2), &clocks());
    assert_eq!(d.freq, 16_000_000);
}

#[test]
fn ticks_for_truncates() {
    assert_eq!(ticks_for(1000, 16_000_000), 16000);
    assert_eq!(ticks_for(0, 16_000_000), 0);
    assert_eq!(ticks_for(3, 1_500_000), 4);
    assert_eq!(ticks_for(u32::MAX, 1_000_000), u32::MAX as u64);
}

#[test]
fn delay_1000us_at_16mhz_waits_16000_ticks() {
    let d = Delay::new(Alarm::conjure(2), &clocks());
    let mut timer = SystemTimer::new(1234);
    let t0 = timer.now();
    d.delay(&mut timer, 1000);
    let elapsed = timer.now() - t0;
    assert_eq!(elapsed, 16000);
    assert!(elapsed * 1_000_000 / d.freq >= 1000);
    assert!(!timer.units[2].armed);
    assert!(!timer.units[2].interrupt_pending);
}

#[test]
fn delay_round_trip_measures_the_request() {
    let d = Delay::new(Alarm::conjure(0), &clocks());
    let mut timer = SystemTimer::new(0);
    for us in [0u32, 1, 7, 999, 65_536, 1_000_000] {
        let t0 = timer.now();
        d.delay_us(&mut timer, us);
        let elapsed = timer.now() - t0;
        assert_eq!(elapsed * 1_000_000 / d.freq, us as u64);
    }
}

#[test]
fn delay_ms_is_repeated_1000us_waits() {
    let d = Delay::new(Alarm::conjure(1), &clocks());
    let mut timer = SystemTimer::new(0);
    d.delay_ms(&mut timer, 3);
    assert_eq!(timer.now(), 48000);
    d.delay_ms(&mut timer, 0);
    assert_eq!(timer.now(), 48000);
}

#[test]
fn wrap_target_reduces_modulo_period() {
    assert_eq!(wrap_target(5, 10), 15);
    assert_eq!(wrap_target(BIT_MASK, 0), BIT_MASK);
    assert_eq!(wrap_target(BIT_MASK, 1), 0);
    assert_eq!(wrap_target(BIT_MASK - 5, 10), 4);
}

#[test]
fn delay_across_wrap_arms_the_wrapped_target() {
    let d = Delay::new(Alarm::conjure(0), &clocks());
    let start = BIT_MASK - 10;
    let raw = start + 16000;
    let target = wrap_target(start, 16000);
    assert_eq!(target, 15989);
    assert!(target < raw);
    let mut timer = SystemTimer::new(start);
    d.delay(&mut timer, 1000);
    assert_eq!(timer.now(), 15989);
    assert_eq!(timer.units[0].target, 15989);
}

#[test]
fn free_gives_back_the_unit() {
    let d = Delay::new(Alarm::conjure(1), &clocks());
    assert_eq!(d.free().index, 1);
}

#[test]
fn delay_leaves_other_units_latched_on_the_way() {
    let d = Delay::new(Alarm::conjure(0), &clocks());
    let mut timer = SystemTimer::new(0);
    timer.set_target(1, 100);
    timer.set_target(2, 20000);
    d.delay(&mut timer, 1000);
    assert!(timer.units[1].interrupt_pending);
    assert!(!timer.units[1].armed);
    assert!(timer.units[2].armed);
    assert!(!timer.units[2].interrupt_pending);
}

#[test]
fn cycle_delay_counts_cpu_cycles() {
    let d = cycle_delay::Delay::new(&clocks());
    assert_eq!(d.freq, 160_000_000);
    assert_eq!(d.cycles(1000), 160_000);
    assert_eq!(d.cycles(0), 0);
}
