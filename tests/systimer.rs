use esp_hal_common::systimer::{ticks_until, Comparator, SystemTimer, BIT_MASK};

#[test]
fn new_timer_has_idle_units() {
    let t = SystemTimer::new(3);
    assert_eq!(t.now(), 3);
    assert_eq!(t.units.len(), 3);
    assert!(t.units.iter().all(|u| *u == Comparator::idle()));
}

#[test]
fn advance_wraps_the_counter() {
    let mut t = SystemTimer::new(BIT_MASK - 1);
    t.advance(3);
    assert_eq!(t.now(), 1);
}

#[test]
fn armed_unit_latches_once_when_reached() {
    let mut t = SystemTimer::new(0);
    t.set_target(0, 10);
    t.enable_interrupt(0);
    t.advance(9);
    assert!(!t.interrupt_raised(0));
    t.advance(1);
    assert!(t.interrupt_raised(0));
    assert!(!t.units[0].armed);
    t.clear_interrupt(0);
    t.advance(BIT_MASK);
    assert!(!t.interrupt_raised(0));
}

#[test]
fn masked_unit_latches_without_raising() {
    let mut t = SystemTimer::new(0);
    t.set_target(1, 5);
    t.advance(5);
    assert!(t.units[1].interrupt_pending);
    assert!(!t.interrupt_raised(1));
}

#[test]
fn wait_runs_to_the_target_and_acknowledges() {
    let mut t = SystemTimer::new(BIT_MASK - 2);
    t.set_target(2, 4);
    t.wait(2);
    assert_eq!(t.now(), 4);
    assert!(!t.units[2].armed);
    assert!(!t.units[2].interrupt_pending);
}

#[test]
fn ticks_until_wraps_forward() {
    assert_eq!(ticks_until(3, 10), 7);
    assert_eq!(ticks_until(10, 3), BIT_MASK - 6);
    assert_eq!(ticks_until(5, 5), 0);
}
