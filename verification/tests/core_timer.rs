//! The timer core driven from outside: the queue, the waker bridge, the
//! signal store, and the timer futures.

use ticktock::queue::{ReadyQueue, WakeOutcome};
use ticktock::signal::{Phase, SignalStore};
use ticktock::timer::{Sleep, Timer, TimerStream, sleep};
use ticktock::waker::WakeHandle;

#[test]
fn queue_is_fifo() {
    let mut q = ReadyQueue::new(4);
    assert!(q.is_empty());
    assert_eq!(q.capacity(), 4);
    assert!(q.push(3));
    assert!(q.push(1));
    assert!(q.push(2));
    assert_eq!(q.len(), 3);
    assert_eq!(q.pop(), Some(3));
    assert_eq!(q.pop(), Some(1));
    assert_eq!(q.pop(), Some(2));
    assert_eq!(q.pop(), None);
}

#[test]
fn queue_push_reports_overflow() {
    let mut q = ReadyQueue::new(1);
    assert!(q.push(0));
    assert!(!q.push(1));
    assert_eq!(q.len(), 1);
}

#[test]
fn wake_coalesces_and_drops() {
    let mut q = ReadyQueue::new(1);
    let first = WakeHandle::new(7);
    assert_eq!(first.wake(&mut q), WakeOutcome::Queued);
    assert_eq!(first.wake(&mut q), WakeOutcome::AlreadyQueued);
    let second = WakeHandle::new(8);
    assert_eq!(second.wake(&mut q), WakeOutcome::Dropped);
    assert_eq!(q.len(), 1);
    assert!(q.contains(7));
    assert!(!q.contains(8));
}

#[test]
fn counter_follows_every_tick() {
    let mut store = SignalStore::new(2);
    let mut q = ReadyQueue::new(4);
    assert_eq!(store.current_counter(), 0);
    assert!(!store.phase_flag(Phase::Tick));
    assert!(!store.phase_flag(Phase::Tock));
    for c in [5u64, 9, 12] {
        store.record_tick(&mut q, c);
        assert_eq!(store.current_counter(), c);
    }
    assert_eq!(store.current_counter(), 12);
    assert!(!store.phase_flag(Phase::Tick));
    assert!(store.phase_flag(Phase::Tock));
}

#[test]
fn flags_are_mutually_exclusive() {
    let mut store = SignalStore::new(1);
    let mut q = ReadyQueue::new(4);
    store.record_tick(&mut q, 1);
    assert!(store.phase_flag(Phase::Tick));
    assert!(!store.phase_flag(Phase::Tock));
    store.record_tick(&mut q, 2);
    assert!(!store.phase_flag(Phase::Tick));
    assert!(store.phase_flag(Phase::Tock));
}

#[test]
fn timer_names_its_phase_and_slot() {
    assert_eq!(Timer::Tick(3).get_id(), (1, 3));
    assert_eq!(Timer::Tock(5).get_id(), (0, 5));
}

#[test]
fn timer_resolves_after_its_phase_fired() {
    // Tick first, poll second: the flag already reflects the tick.
    let mut store = SignalStore::new(1);
    let mut q = ReadyQueue::new(4);
    store.record_tick(&mut q, 3);
    let r = Timer::Tick(0).poll(&mut store, WakeHandle::new(0));
    assert_eq!(r, Some(3));
}

#[test]
fn timer_poll_before_tick_is_woken_then_resolves() {
    // Poll first, tick second: the registration left behind wins the race.
    let mut store = SignalStore::new(1);
    let mut q = ReadyQueue::new(4);
    let h = WakeHandle::new(9);
    assert_eq!(Timer::Tick(0).poll(&mut store, h), None);
    store.record_tick(&mut q, 1);
    assert!(q.contains(9));
    assert_eq!(q.len(), 1);
    let r = Timer::Tick(0).poll(&mut store, h);
    assert_eq!(r, Some(1));
}

#[test]
fn registered_task_is_queued_exactly_once() {
    let mut store = SignalStore::new(3);
    let mut q = ReadyQueue::new(8);
    store.register(Phase::Tick, 0, WakeHandle::new(4));
    store.register(Phase::Tock, 1, WakeHandle::new(5));
    store.record_tick(&mut q, 7);
    // Only the tick registration fires on an odd counter, once.
    assert_eq!(q.len(), 1);
    assert!(q.contains(4));
    assert!(!q.contains(5));
    // The fired registration was consumed: the next tick wakes nobody.
    store.record_tick(&mut q, 9);
    assert_eq!(q.len(), 1);
}

#[test]
fn full_queue_drops_the_wake() {
    let mut store = SignalStore::new(2);
    let mut q = ReadyQueue::new(1);
    store.register(Phase::Tick, 0, WakeHandle::new(0));
    store.register(Phase::Tick, 1, WakeHandle::new(1));
    store.record_tick(&mut q, 1);
    // Two independent wake sources fired; one entry stands, none were lost
    // silently: the first is queued and pollable.
    assert_eq!(q.len(), 1);
    assert_eq!(q.pop(), Some(0));
    let r = Timer::Tick(0).poll(&mut store, WakeHandle::new(0));
    assert_eq!(r, Some(1));
}

fn drive_sleep(store: &mut SignalStore, q: &mut ReadyQueue, s: &mut Sleep, first: u64) -> (u32, u64) {
    let h = WakeHandle::new(0);
    let mut pendings = 0u32;
    let mut c = first;
    loop {
        match s.poll(store, h) {
            Some(v) => return (pendings, v),
            None => pendings += 1,
        }
        store.record_tick(q, c);
        c += 1;
    }
}

#[test]
fn four_tick_sleep_from_idle_start() {
    let mut store = SignalStore::new(1);
    let mut q = ReadyQueue::new(4);
    let mut s = Sleep::new(0, 4);
    let (pendings, v) = drive_sleep(&mut store, &mut q, &mut s, 1);
    // Ticks 1, 2, 3, 4 pass; the sleep rests through both full periods and
    // resolves at the second tock with its counter.
    assert_eq!(pendings, 4);
    assert_eq!(v, 4);
}

#[test]
fn four_tick_sleep_from_tick_phase() {
    let mut store = SignalStore::new(1);
    let mut q = ReadyQueue::new(4);
    store.record_tick(&mut q, 1);
    let mut s = Sleep::new(0, 4);
    let (pendings, v) = drive_sleep(&mut store, &mut q, &mut s, 2);
    // Starting inside a tick phase the aligning tick is already there, so
    // one suspension fewer; the result is still the second tock's counter.
    assert_eq!(pendings, 3);
    assert_eq!(v, 4);
}

#[test]
fn four_tick_sleep_from_tock_phase() {
    let mut store = SignalStore::new(1);
    let mut q = ReadyQueue::new(4);
    store.record_tick(&mut q, 1);
    store.record_tick(&mut q, 2);
    let mut s = Sleep::new(0, 4);
    let (pendings, v) = drive_sleep(&mut store, &mut q, &mut s, 3);
    assert_eq!(pendings, 4);
    assert_eq!(v, 6);
}

#[test]
fn two_tick_sleep_resolves_at_first_tock() {
    let mut store = SignalStore::new(1);
    let mut q = ReadyQueue::new(4);
    let mut s = Sleep::new(0, 2);
    let (pendings, v) = drive_sleep(&mut store, &mut q, &mut s, 1);
    assert_eq!(pendings, 2);
    assert_eq!(v, 2);
}

#[test]
fn odd_tick_counts_are_floored() {
    // Five ticks make the same two full cycles as four: the odd half cycle
    // is not composed.
    let mut store = SignalStore::new(1);
    let mut q = ReadyQueue::new(4);
    let mut s = sleep(0, 5);
    let (pendings, v) = drive_sleep(&mut store, &mut q, &mut s, 1);
    assert_eq!(pendings, 4);
    assert_eq!(v, 4);
}

#[test]
fn stream_always_yields_latest_counter() {
    let mut store = SignalStore::new(1);
    let mut q = ReadyQueue::new(4);
    let stream = TimerStream::new();
    assert_eq!(stream.poll_next(&store), Some(0));
    store.record_tick(&mut q, 1);
    store.record_tick(&mut q, 2);
    assert_eq!(stream.poll_next(&store), Some(2));
}
