//! Whole-machine scenarios: spawn, run, tick, and what lands in the sink.

use ticktock::executor::{Executor, Metronome, Watch, Work};
use ticktock::signal::Phase;
use ticktock::timer::Sleep;

#[test]
fn ready_task_is_removed_and_never_polled_again() {
    let mut exec = Executor::new(1, 4);
    let id = exec.spawn(Work::Ready);
    assert_eq!(id, 0);
    assert!(exec.is_live(id));
    assert!(!exec.is_idle());
    exec.run();
    assert!(exec.is_idle());
    assert!(!exec.is_live(id));
    assert_eq!(exec.sink().len(), 0);
    // Later ticks and runs leave the completed task gone.
    exec.record_tick(1);
    exec.run();
    assert!(!exec.is_live(id));
    assert_eq!(exec.sink().len(), 0);
}

#[test]
fn sleep_write_task_writes_the_second_counter_once() {
    // One task sleeps two ticks and writes the counter it wakes to.
    let mut exec = Executor::new(1, 4);
    let id = exec.spawn(Work::SleepWrite(Sleep::new(0, 2)));
    exec.run();
    assert_eq!(exec.sink().len(), 0);
    exec.record_tick(1);
    exec.run();
    assert_eq!(exec.sink().len(), 0);
    assert!(exec.is_live(id));
    exec.record_tick(2);
    exec.run();
    // Exactly one sink write, with the value 2.
    assert_eq!(exec.sink().as_slice(), &[(id, 2u64)]);
    assert!(!exec.is_live(id));
    assert!(exec.is_idle());
}

#[test]
fn completed_task_leaves_no_stale_wakes() {
    let mut exec = Executor::new(1, 4);
    let id = exec.spawn(Work::SleepWrite(Sleep::new(0, 2)));
    exec.run();
    exec.record_tick(1);
    exec.run();
    exec.record_tick(2);
    exec.run();
    assert!(!exec.is_live(id));
    // The completed task's registrations were purged: later ticks wake
    // nothing, and the executor stays idle.
    exec.record_tick(3);
    assert!(exec.is_idle());
    exec.run();
    assert_eq!(exec.sink().len(), 1);
}

#[test]
fn watch_task_displays_every_phase_change_it_sees() {
    let mut exec = Executor::new(1, 4);
    let id = exec.spawn(Work::Watch(Watch { slot: 0, awaiting: Phase::Tick }));
    exec.run();
    assert_eq!(exec.sink().len(), 0);
    exec.record_tick(1);
    exec.run();
    exec.record_tick(2);
    exec.run();
    assert_eq!(exec.sink().as_slice(), &[(id, 1u64), (id, 2u64)]);
    assert!(exec.is_live(id));
}

#[test]
fn watch_task_misses_skipped_phases_latest_value_wins() {
    let mut exec = Executor::new(1, 4);
    let id = exec.spawn(Work::Watch(Watch { slot: 0, awaiting: Phase::Tick }));
    exec.run();
    exec.record_tick(1);
    exec.run();
    exec.record_tick(2);
    exec.run();
    // Two interrupts before the next run: the tick flag of counter 3 is
    // already cleared by counter 4, so the watcher skips 3 entirely.
    exec.record_tick(3);
    exec.record_tick(4);
    exec.run();
    assert_eq!(exec.sink().as_slice(), &[(id, 1u64), (id, 2u64)]);
    // The next tick is seen again.
    exec.record_tick(5);
    exec.run();
    assert_eq!(exec.sink().as_slice(), &[(id, 1u64), (id, 2u64), (id, 5u64)]);
}

#[test]
fn metronome_counts_out_its_values_and_completes() {
    let mut exec = Executor::new(1, 4);
    let id = exec.spawn(
        Work::Metronome(Metronome { slot: 0, ticks: 2, next_value: 0, limit: 2, sleep: None }),
    );
    exec.run();
    // The first value goes out before the first pause.
    assert_eq!(exec.sink().as_slice(), &[(id, 0u64)]);
    exec.record_tick(1);
    exec.run();
    exec.record_tick(2);
    exec.run();
    assert_eq!(exec.sink().as_slice(), &[(id, 0u64), (id, 1u64)]);
    assert!(exec.is_live(id));
    exec.record_tick(3);
    exec.run();
    exec.record_tick(4);
    exec.run();
    // Both values are out: the metronome completes after its last pause.
    assert_eq!(exec.sink().as_slice(), &[(id, 0u64), (id, 1u64)]);
    assert!(!exec.is_live(id));
}

#[test]
fn two_tasks_interleave_on_the_same_clock() {
    let mut exec = Executor::new(2, 8);
    let a = exec.spawn(Work::Watch(Watch { slot: 0, awaiting: Phase::Tick }));
    let b = exec.spawn(Work::SleepWrite(Sleep::new(1, 2)));
    exec.run();
    exec.record_tick(1);
    exec.run();
    exec.record_tick(2);
    exec.run();
    // The watcher shows both phase changes; the sleeper writes once, at its
    // tock.  Within one drain the queue order decides who writes first.
    assert_eq!(exec.sink().as_slice(), &[(a, 1u64), (a, 2u64), (b, 2u64)]);
    assert!(exec.is_live(a));
    assert!(!exec.is_live(b));
    assert_eq!(exec.task_count(), 2);
}

#[test]
fn spawn_assigns_monotonic_ids() {
    let mut exec = Executor::new(3, 8);
    assert_eq!(exec.spawn(Work::Ready), 0);
    assert_eq!(exec.spawn(Work::Ready), 1);
    assert_eq!(exec.spawn(Work::Ready), 2);
    assert_eq!(exec.task_count(), 3);
    exec.run();
    assert!(!exec.is_live(0) && !exec.is_live(1) && !exec.is_live(2));
}

#[test]
fn current_counter_tracks_record_tick() {
    let mut exec = Executor::new(1, 4);
    assert_eq!(exec.current_counter(), 0);
    exec.record_tick(1);
    assert_eq!(exec.current_counter(), 1);
    exec.record_tick(4);
    assert_eq!(exec.current_counter(), 4);
}
