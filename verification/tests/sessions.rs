use pind::binding::{Binding, BindingTable};
use pind::forward::RawEvent;
use pind::hold::BindingRuntimeState;
use pind::keys::KeySet;
use pind::session::Session;

const CTRL: u16 = 29;
const ENTER: u16 = 28;
const A: u16 = 30;
const B: u16 = 48;

fn set_of(codes: &[u16]) -> KeySet {
    KeySet::from_codes(codes).expect("codes below the limit")
}

fn binding(codes: &[u16], command: &str) -> Binding {
    Binding::new(set_of(codes), command.to_string()).expect("a non-empty combination")
}

fn tick(s: &mut Session, pressed: &[u16]) -> Vec<usize> {
    s.process_tick(&set_of(pressed), &Vec::new()).fired
}

#[test]
fn new_session_starts_at_tick_one_with_idle_bindings() {
    let t = BindingTable::new(vec![binding(&[A], "one"), binding(&[B], "two")]).unwrap();
    let s = Session::new(&t, 25);
    assert_eq!(s.current_tick(), 1);
    assert_eq!(s.hold_ticks(), 13);
    assert_eq!(s.state_of(0), Some(BindingRuntimeState { activation_tick: 0, last_fire_tick: 0 }));
    assert_eq!(s.state_of(1), Some(BindingRuntimeState { activation_tick: 0, last_fire_tick: 0 }));
    assert_eq!(s.state_of(2), None);
}

#[test]
fn ctrl_enter_fires_once_at_the_third_snapshot() {
    let t = BindingTable::new(vec![binding(&[CTRL, ENTER], "echo hi")]).unwrap();
    let mut s = Session::new(&t, 25);
    assert_eq!(tick(&mut s, &[]), Vec::<usize>::new());
    assert_eq!(tick(&mut s, &[CTRL]), Vec::<usize>::new());
    assert_eq!(tick(&mut s, &[CTRL, ENTER]), vec![0]);
    assert_eq!(s.state_of(0), Some(BindingRuntimeState { activation_tick: 3, last_fire_tick: 3 }));
    assert_eq!(s.current_tick(), 4);
}

#[test]
fn held_combination_fires_again_thirteen_ticks_later() {
    let t = BindingTable::new(vec![binding(&[CTRL, ENTER], "echo hi")]).unwrap();
    let mut s = Session::new(&t, 25);
    assert_eq!(tick(&mut s, &[]), Vec::<usize>::new());
    assert_eq!(tick(&mut s, &[CTRL]), Vec::<usize>::new());
    assert_eq!(tick(&mut s, &[CTRL, ENTER]), vec![0]);
    for _ in 1..13 {
        assert_eq!(tick(&mut s, &[CTRL, ENTER]), Vec::<usize>::new());
    }
    assert_eq!(s.current_tick(), 16);
    assert_eq!(tick(&mut s, &[CTRL, ENTER]), vec![0]);
    assert_eq!(s.state_of(0), Some(BindingRuntimeState { activation_tick: 3, last_fire_tick: 16 }));
    assert_eq!(tick(&mut s, &[CTRL]), Vec::<usize>::new());
    assert_eq!(s.state_of(0), Some(BindingRuntimeState { activation_tick: 0, last_fire_tick: 16 }));
}

#[test]
fn release_and_repress_fires_immediately_again() {
    let t = BindingTable::new(vec![binding(&[CTRL, ENTER], "echo hi")]).unwrap();
    let mut s = Session::new(&t, 25);
    assert_eq!(tick(&mut s, &[CTRL, ENTER]), vec![0]);
    assert_eq!(tick(&mut s, &[CTRL, ENTER]), Vec::<usize>::new());
    assert_eq!(tick(&mut s, &[CTRL]), Vec::<usize>::new());
    assert_eq!(tick(&mut s, &[CTRL, ENTER]), vec![0]);
    assert_eq!(s.state_of(0), Some(BindingRuntimeState { activation_tick: 4, last_fire_tick: 4 }));
}

#[test]
fn overlapping_bindings_fire_on_the_same_tick() {
    let t = BindingTable::new(vec![binding(&[A], "one"), binding(&[A, B], "two")]).unwrap();
    let mut s = Session::new(&t, 25);
    assert_eq!(tick(&mut s, &[A, B]), vec![0, 1]);
    assert_eq!(s.state_of(0), Some(BindingRuntimeState { activation_tick: 1, last_fire_tick: 1 }));
    assert_eq!(s.state_of(1), Some(BindingRuntimeState { activation_tick: 1, last_fire_tick: 1 }));
}

#[test]
fn overlapping_bindings_keep_separate_timers() {
    let t = BindingTable::new(vec![binding(&[A], "one"), binding(&[A, B], "two")]).unwrap();
    let mut s = Session::new(&t, 160);
    assert_eq!(s.hold_ticks(), 2);
    assert_eq!(tick(&mut s, &[A]), vec![0]);
    assert_eq!(tick(&mut s, &[A, B]), vec![1]);
    assert_eq!(tick(&mut s, &[A, B]), vec![0]);
    assert_eq!(tick(&mut s, &[A, B]), vec![0, 1]);
    assert_eq!(tick(&mut s, &[A]), vec![0]);
    assert_eq!(s.state_of(1), Some(BindingRuntimeState { activation_tick: 0, last_fire_tick: 4 }));
}

#[test]
fn identical_combinations_both_fire() {
    let t = BindingTable::new(vec![binding(&[A], "one"), binding(&[A], "two")]).unwrap();
    let mut s = Session::new(&t, 25);
    assert_eq!(tick(&mut s, &[A]), vec![0, 1]);
}

#[test]
fn tick_splits_the_batch_and_steps_the_timers() {
    let t = BindingTable::new(vec![binding(&[CTRL, ENTER], "echo hi")]).unwrap();
    let mut s = Session::new(&t, 25);
    let other = RawEvent { time_sec: 5, time_usec: 6, kind: 1, code: A, value: 1 };
    let marker = RawEvent { time_sec: 5, time_usec: 7, kind: 0, code: 0, value: 0 };
    let enter = RawEvent { time_sec: 5, time_usec: 8, kind: 1, code: ENTER, value: 1 };
    let out = s.process_tick(&set_of(&[CTRL, ENTER, A]), &vec![other, marker, enter, marker]);
    assert_eq!(out.forward, vec![other, marker, marker]);
    assert_eq!(out.fired, vec![0]);
    assert_eq!(s.current_tick(), 2);
}
