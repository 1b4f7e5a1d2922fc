use pind::hold::{hold_threshold, BindingRuntimeState, HOLD_DELAY_MS};

fn hold_for(first_tick: u64, threshold: u64, n: u64) -> (BindingRuntimeState, Vec<u64>) {
    let mut s = BindingRuntimeState::idle();
    let mut fired_at = Vec::new();
    for t in first_tick..first_tick + n {
        if s.advance(t, threshold, true) {
            fired_at.push(t);
        }
    }
    (s, fired_at)
}

#[test]
fn threshold_is_the_delay_in_ticks_rounded_up() {
    assert_eq!(HOLD_DELAY_MS, 320);
    assert_eq!(hold_threshold(25), 13);
    assert_eq!(hold_threshold(1), 320);
    assert_eq!(hold_threshold(2), 160);
    assert_eq!(hold_threshold(3), 107);
    assert_eq!(hold_threshold(319), 2);
    assert_eq!(hold_threshold(320), 1);
    assert_eq!(hold_threshold(321), 1);
    assert_eq!(hold_threshold(u64::MAX), 1);
}

#[test]
fn idle_state_is_all_zero() {
    let s = BindingRuntimeState::idle();
    assert_eq!(s, BindingRuntimeState { activation_tick: 0, last_fire_tick: 0 });
}

#[test]
fn fresh_press_fires_at_once() {
    let mut s = BindingRuntimeState::idle();
    assert!(s.advance(7, 13, true));
    assert_eq!(s, BindingRuntimeState { activation_tick: 7, last_fire_tick: 7 });
}

#[test]
fn idle_and_not_pressed_stays_idle() {
    let mut s = BindingRuntimeState::idle();
    assert!(!s.advance(7, 13, false));
    assert_eq!(s, BindingRuntimeState { activation_tick: 0, last_fire_tick: 0 });
}

#[test]
fn held_below_threshold_fires_once() {
    let (s, fired_at) = hold_for(3, 13, 13);
    assert_eq!(fired_at, vec![3]);
    assert_eq!(s, BindingRuntimeState { activation_tick: 3, last_fire_tick: 3 });
}

#[test]
fn held_to_threshold_fires_a_second_time() {
    let (s, fired_at) = hold_for(3, 13, 14);
    assert_eq!(fired_at, vec![3, 16]);
    assert_eq!(s, BindingRuntimeState { activation_tick: 3, last_fire_tick: 16 });
}

#[test]
fn fire_count_in_a_long_hold() {
    for n in 13u64..60 {
        let (_, fired_at) = hold_for(1, 13, n);
        assert_eq!(fired_at.len() as u64, 1 + (n - 13));
    }
    for n in 1u64..13 {
        let (_, fired_at) = hold_for(1, 13, n);
        assert_eq!(fired_at.len(), 1);
    }
    let (_, fired_at) = hold_for(100, 4, 10);
    assert_eq!(fired_at, vec![100, 104, 105, 106, 107, 108, 109]);
}

#[test]
fn release_resets_to_idle_and_keeps_last_fire() {
    let mut s = BindingRuntimeState { activation_tick: 3, last_fire_tick: 16 };
    assert!(!s.advance(17, 13, false));
    assert_eq!(s, BindingRuntimeState { activation_tick: 0, last_fire_tick: 16 });
}

#[test]
fn repress_after_release_fires_immediately() {
    let mut s = BindingRuntimeState::idle();
    assert!(s.advance(1, 13, true));
    assert!(!s.advance(2, 13, true));
    assert!(!s.advance(3, 13, false));
    assert!(s.advance(4, 13, true));
    assert_eq!(s, BindingRuntimeState { activation_tick: 4, last_fire_tick: 4 });
    assert!(!s.advance(5, 13, true));
    assert!(!s.advance(16, 13, true));
    assert!(s.advance(17, 13, true));
}

#[test]
fn same_tick_does_not_fire_twice() {
    let mut s = BindingRuntimeState { activation_tick: 1, last_fire_tick: 20 };
    assert!(!s.advance(20, 13, true));
    assert!(s.advance(21, 13, true));
    assert_eq!(s.last_fire_tick, 21);
}
