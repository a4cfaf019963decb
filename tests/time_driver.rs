use esp_hal_common::embassy::init;
use esp_hal_common::embassy::time_driver::{AlarmCallback, AlarmHandle, AlarmState, EmbassyTimer, UNSET};
use esp_hal_common::systimer::{SystemTimer, BIT_MASK};

fn driver_at(counter: u64) -> EmbassyTimer {
    EmbassyTimer::init(SystemTimer::new(counter))
}

fn cb(func: usize) -> AlarmCallback {
    AlarmCallback { func, ctx: func + 1000 }
}

#[test]
fn alarm_state_new_is_free_and_unset() {
    let s = AlarmState::new();
    assert_eq!(s.timestamp, UNSET);
    assert_eq!(s.callback, None);
    assert!(!s.allocated);
}

#[test]
fn init_takes_the_timer_once() {
    let mut peripherals = Some(SystemTimer::new(42));
    let t = init(&mut peripherals);
    assert!(peripherals.is_none());
    assert_eq!(t.now(), 42);
    assert_eq!(t.alarms.len(), 3);
    for s in t.alarms.iter() {
        assert!(!s.allocated);
        assert_eq!(s.timestamp, UNSET);
    }
    for u in t.systimer.units.iter() {
        assert!(u.interrupt_enabled);
        assert!(!u.interrupt_pending);
    }
}

#[test]
fn allocation_exhausts_after_every_unit() {
    let mut t = driver_at(0);
    assert_eq!(t.allocate_alarm(), Some(AlarmHandle::new(0)));
    assert_eq!(t.allocate_alarm(), Some(AlarmHandle::new(1)));
    assert_eq!(t.allocate_alarm(), Some(AlarmHandle::new(2)));
    assert_eq!(t.allocate_alarm(), None);
    assert_eq!(t.allocate_alarm(), None);
    assert!(t.alarms.iter().all(|s| s.allocated));
}

#[test]
fn allocation_takes_the_first_free_slot() {
    let mut t = driver_at(0);
    t.alarms[0].allocated = true;
    t.alarms[2].allocated = true;
    assert_eq!(t.allocate_alarm(), Some(AlarmHandle::new(1)));
    assert_eq!(t.allocate_alarm(), None);
}

#[test]
fn set_callback_twice_equals_once() {
    let mut once = driver_at(0);
    let h = once.allocate_alarm().unwrap();
    once.set_alarm_callback(h, 5, 6);
    let mut twice = driver_at(0);
    let h2 = twice.allocate_alarm().unwrap();
    twice.set_alarm_callback(h2, 5, 6);
    twice.set_alarm_callback(h2, 5, 6);
    assert_eq!(once.alarms, twice.alarms);
    assert_eq!(once.alarms[0].callback, Some(AlarmCallback { func: 5, ctx: 6 }));
}

#[test]
fn due_alarm_fires_at_once_and_leaves_unit_alone() {
    let mut t = driver_at(500);
    let h = t.allocate_alarm().unwrap();
    t.set_alarm_callback(h, 1, 1001);
    let units_before = t.systimer.units.clone();
    assert_eq!(t.set_alarm(h, 500), Some(cb(1)));
    assert_eq!(t.set_alarm(h, 20), Some(cb(1)));
    assert_eq!(t.systimer.units, units_before);
    assert_eq!(t.alarms[0].timestamp, UNSET);
    assert!(!t.systimer.units[0].armed);
}

#[test]
fn due_alarm_without_callback_fires_nothing() {
    let mut t = driver_at(10);
    let h = t.allocate_alarm().unwrap();
    assert_eq!(t.set_alarm(h, 3), None);
    assert!(!t.systimer.units[0].armed);
}

#[test]
fn future_alarm_fires_exactly_once() {
    let mut t = driver_at(0);
    let h = t.allocate_alarm().unwrap();
    t.set_alarm_callback(h, 1, 1001);
    assert_eq!(t.set_alarm(h, 100), None);
    assert_eq!(t.alarms[0].timestamp, 100);
    assert!(t.systimer.units[0].armed);
    assert_eq!(t.systimer.units[0].target, 100);
    assert!(t.advance(99).is_empty());
    assert_eq!(t.advance(1), vec![cb(1)]);
    assert_eq!(t.alarms[0].timestamp, UNSET);
    assert!(t.advance(1000).is_empty());
    assert!(t.advance(BIT_MASK).is_empty());
}

#[test]
fn three_alarms_fire_in_deadline_order() {
    let mut t = driver_at(0);
    let handles: Vec<AlarmHandle> = (0..3).map(|_| t.allocate_alarm().unwrap()).collect();
    let deadlines = [100u64, 50, 200];
    for (i, h) in handles.iter().enumerate() {
        t.set_alarm_callback(*h, i + 1, i + 1001);
        assert_eq!(t.set_alarm(*h, deadlines[i]), None);
    }
    assert_eq!(t.advance(60), vec![cb(2)]);
    assert_eq!(t.advance(90), vec![cb(1)]);
    assert_eq!(t.now(), 150);
    assert_eq!(t.alarms[2].timestamp, 200);
    assert!(t.systimer.units[2].armed);
    assert_eq!(t.advance(50), vec![cb(3)]);
}

#[test]
fn alarms_reached_in_one_run_fire_in_unit_order() {
    let mut t = driver_at(0);
    let a = t.allocate_alarm().unwrap();
    let b = t.allocate_alarm().unwrap();
    t.set_alarm_callback(a, 1, 1001);
    t.set_alarm_callback(b, 2, 1002);
    t.set_alarm(b, 10);
    t.set_alarm(a, 30);
    assert_eq!(t.advance(40), vec![cb(1), cb(2)]);
}

#[test]
fn rearming_replaces_the_deadline() {
    let mut t = driver_at(0);
    let h = t.allocate_alarm().unwrap();
    t.set_alarm_callback(h, 1, 1001);
    t.set_alarm(h, 100);
    t.set_alarm(h, 300);
    assert_eq!(t.alarms[0].timestamp, 300);
    assert!(t.advance(150).is_empty());
    assert_eq!(t.advance(150), vec![cb(1)]);
}

#[test]
fn alarm_across_counter_wrap_fires_after_wrap() {
    let mut t = driver_at(BIT_MASK - 5);
    let h = t.allocate_alarm().unwrap();
    t.set_alarm_callback(h, 1, 1001);
    assert_eq!(t.set_alarm(h, BIT_MASK), None);
    assert!(t.advance(4).is_empty());
    assert_eq!(t.advance(1), vec![cb(1)]);
    assert_eq!(t.now(), BIT_MASK);
    assert!(t.advance(10).is_empty());
    assert_eq!(t.now(), 9);
}

#[test]
fn deadline_beyond_counter_range_saturates() {
    let mut t = driver_at(7);
    let h = t.allocate_alarm().unwrap();
    t.set_alarm_callback(h, 1, 1001);
    assert_eq!(t.set_alarm(h, UNSET), None);
    assert_eq!(t.alarms[0].timestamp, UNSET);
    assert_eq!(t.systimer.units[0].target, BIT_MASK);
}

#[test]
fn interrupt_entry_acknowledges_and_returns_callback() {
    let mut t = driver_at(0);
    let h = t.allocate_alarm().unwrap();
    t.set_alarm_callback(h, 4, 1004);
    t.set_alarm(h, 9);
    t.systimer.units[0].interrupt_pending = true;
    assert_eq!(t.on_interrupt(0), Some(cb(4)));
    assert!(!t.systimer.units[0].interrupt_pending);
    assert_eq!(t.alarms[0].timestamp, UNSET);
}

#[test]
fn handle_reports_its_id() {
    assert_eq!(AlarmHandle::new(2).id(), 2);
}
