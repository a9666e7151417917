//! Awaitable timer values: the one-phase `Timer` future, the multi-cycle
//! `Sleep` built on top of it, and the simpler `TimerStream` alternative.
//!
//! Every poll follows the register-then-check protocol: the caller's wake
//! handle is stored in the signal store first, and the phase flag is read
//! only afterwards.  If the interrupt fires between the two steps the flag
//! read already sees the new phase; if it fires after the check, the fresh
//! registration guarantees a wake.  This exact order is what rules out the
//! lost-wakeup race, and every transition below preserves it.

use vstd::prelude::*;

use crate::queue::distinct;
use crate::signal::{
    Phase, SignalStore, SignalView, lemma_no_wakeup_loss, ticked, wake_all, with_registration,
};
use crate::waker::WakeHandle;

verus! {

/// What one poll of a `Timer` for `phase` returns: the latest counter when
/// the phase flag is up, otherwise "not ready".
pub open spec fn timer_poll_result(v: SignalView, phase: Phase) -> Option<u64> {
    if v.flag(phase) {
        Some(v.counter)
    } else {
        None
    }
}

/// A future that resolves at the next tick or tock.  Created fresh per await
/// point, for a fixed task slot, and never reused after resolving.
#[derive(Clone, Copy, Debug, PartialEq, Eq, Structural)]
pub enum Timer {
    /// Awaits the phase of odd counters, for the given task slot.
    Tick(usize),
    /// Awaits the phase of even counters, for the given task slot.
    Tock(usize),
}

impl Timer {
    /// The phase this future awaits.
    pub open spec fn spec_phase(&self) -> Phase {
        match *self {
            Timer::Tick(_) => Phase::Tick,
            Timer::Tock(_) => Phase::Tock,
        }
    }

    /// The phase this future awaits.
    #[verifier::when_used_as_spec(spec_phase)]
    pub fn phase(&self) -> (p: Phase)
        ensures
            p == self.spec_phase(),
    {
        match *self {
            Timer::Tick(_) => Phase::Tick,
            Timer::Tock(_) => Phase::Tock,
        }
    }

    /// The task slot this future registers under.
    pub open spec fn spec_slot(&self) -> usize {
        match *self {
            Timer::Tick(slot) => slot,
            Timer::Tock(slot) => slot,
        }
    }

    /// The task slot this future registers under.
    #[verifier::when_used_as_spec(spec_slot)]
    pub fn slot(&self) -> (s: usize)
        ensures
            s == self.spec_slot(),
    {
        match *self {
            Timer::Tick(slot) => slot,
            Timer::Tock(slot) => slot,
        }
    }

    /// The awaited phase as its counter parity, and the task slot.
    pub fn get_id(&self) -> (r: (usize, usize))
        ensures
            r.0 == (if self.phase() is Tick {
                1usize
            } else {
                0usize
            }),
            r.1 == self.slot(),
    {
        match *self {
            Timer::Tick(slot) => (1, slot),
            Timer::Tock(slot) => (0, slot),
        }
    }

    /// Registers `h` for this future's phase and slot, then reads the phase
    /// flag.  Registration strictly precedes the check.
    pub fn is_ready(&self, store: &mut SignalStore, h: WakeHandle) -> (r: bool)
        requires
            self.slot() < old(store)@.slots.len(),
        ensures
            final(store)@ == with_registration(old(store)@, self.phase(), self.slot() as int, h),
            r == old(store)@.flag(self.phase()),
    {
        store.register(self.phase(), self.slot(), h);
        let r = store.phase_flag(self.phase());
        proof {
            assert(store@ =~= with_registration(old(store)@, self.phase(), self.slot() as int, h));
        }
        r
    }

    /// One poll: registers `h`, then resolves with the latest counter if the
    /// awaited phase's flag is up, and suspends otherwise.
    pub fn poll(&self, store: &mut SignalStore, h: WakeHandle) -> (r: Option<u64>)
        requires
            self.slot() < old(store)@.slots.len(),
        ensures
            final(store)@ == with_registration(old(store)@, self.phase(), self.slot() as int, h),
            r == timer_poll_result(old(store)@, self.phase()),
    {
        if self.is_ready(store, h) {
            Some(store.current_counter())
        } else {
            None
        }
    }
}

/// A "wait N ticks" future: composes `ticks / 2` full tick-tock cycles out of
/// `Timer` futures and resolves with the counter observed at the final tock.
///
/// An odd tick count is floored: a caller that needs an odd wait composes the
/// extra half cycle itself.
#[derive(Clone, Copy, Debug, PartialEq, Eq, Structural)]
pub struct Sleep {
    /// The task slot the inner timer futures register under.
    pub slot: usize,
    /// Full tick-tock cycles still to complete, including the current one.
    pub cycles_left: u32,
    /// The phase the current cycle is waiting for.
    pub awaiting: Phase,
}

/// The state, signal store, and result after one poll of a sleep.
///
/// A poll first registers for the awaited phase.  If that phase's flag is
/// down the sleep suspends.  If it is up the half cycle completes: after a
/// tick the sleep turns to the tock of the same cycle, after a tock a full
/// cycle is done, and the last one resolves with the counter just observed.
/// Whenever the sleep turns to a new phase it registers for it at once; the
/// new phase's flag is down, the two flags being mutually exclusive, so no
/// check is owed and the sleep suspends registered.
pub open spec fn sleep_step(s: Sleep, v: SignalView, h: WakeHandle) -> (Sleep, SignalView, Option<
    u64,
>) {
    let v1 = with_registration(v, s.awaiting, s.slot as int, h);
    if !v.flag(s.awaiting) {
        (s, v1, None::<u64>)
    } else if s.awaiting is Tick {
        (
            Sleep { awaiting: Phase::Tock, ..s },
            with_registration(v1, Phase::Tock, s.slot as int, h),
            None::<u64>,
        )
    } else if s.cycles_left == 1 {
        (Sleep { cycles_left: 0, ..s }, v1, Some(v.counter))
    } else {
        (
            Sleep { cycles_left: (s.cycles_left - 1) as u32, awaiting: Phase::Tick, ..s },
            with_registration(v1, Phase::Tick, s.slot as int, h),
            None::<u64>,
        )
    }
}

impl Sleep {
    /// A sleep of `ticks / 2` full cycles for the given task slot.
    ///
    /// At least one full cycle is required: the first awaited tick only
    /// aligns the sleep with the phase boundary, so fewer than two ticks
    /// cannot be composed.
    pub fn new(slot: usize, ticks: u32) -> (s: Sleep)
        requires
            ticks >= 2,
        ensures
            s.slot == slot,
            s.cycles_left == ticks / 2,
            s.awaiting is Tick,
    {
        Sleep { slot, cycles_left: ticks / 2, awaiting: Phase::Tick }
    }

    /// One poll, following `sleep_step` exactly.  Resolving is terminal: a
    /// sleep whose cycles are spent is never polled again.
    ///
    /// The store's well-formedness is what makes the immediate
    /// re-registration after a completed half cycle sound: the flag of the
    /// phase just turned to is down, so no resolution is missed by
    /// suspending right away.
    pub fn poll(&mut self, store: &mut SignalStore, h: WakeHandle) -> (r: Option<u64>)
        requires
            old(self).slot < old(store)@.slots.len(),
            old(self).cycles_left >= 1,
            old(store)@.wf(),
        ensures
            *final(self) == sleep_step(*old(self), old(store)@, h).0,
            final(store)@ == sleep_step(*old(self), old(store)@, h).1,
            r == sleep_step(*old(self), old(store)@, h).2,
            r is Some ==> r == Some(old(store)@.counter) && old(store)@.flag(Phase::Tock)
                && final(self).cycles_left == 0,
    {
        let t = match self.awaiting {
            Phase::Tick => Timer::Tick(self.slot),
            Phase::Tock => Timer::Tock(self.slot),
        };
        match t.poll(store, h) {
            None => None,
            Some(c) => {
                match self.awaiting {
                    Phase::Tick => {
                        self.awaiting = Phase::Tock;
                        store.register(Phase::Tock, self.slot, h);
                        proof {
                            assert(store@ =~= sleep_step(*old(self), old(store)@, h).1);
                        }
                        None
                    },
                    Phase::Tock => {
                        if self.cycles_left == 1 {
                            self.cycles_left = 0;
                            Some(c)
                        } else {
                            self.cycles_left = self.cycles_left - 1;
                            self.awaiting = Phase::Tick;
                            store.register(Phase::Tick, self.slot, h);
                            proof {
                                assert(store@ =~= sleep_step(*old(self), old(store)@, h).1);
                            }
                            None
                        }
                    },
                }
            },
        }
    }
}

/// A timer future polled after a tick of its phase resolves to that tick's
/// counter: registering cannot hide a phase that has already fired.
pub proof fn lemma_timer_resolves_after_tick(v: SignalView, counter: u64, phase: Phase)
    requires
        Phase::of(counter) == phase,
    ensures
        timer_poll_result(ticked(v, counter), phase) == Some(counter),
{
}

/// The wakeup race, lost by nobody: a timer future that polled too early and
/// suspended left its registration behind, so the next tick of its phase
/// both queues its task (exactly once, the queue holding no id twice) and
/// leaves the store in a state where the re-poll resolves to that tick's
/// counter.
///
/// The capacity bound leaves out the overloaded queue, where a wake is
/// dropped by design.
pub proof fn lemma_timer_no_lost_wakeup(
    t: Timer,
    v: SignalView,
    q: Seq<usize>,
    cap: nat,
    counter: u64,
    h: WakeHandle,
)
    requires
        t.spec_slot() < v.slots.len(),
        !v.flag(t.spec_phase()),
        Phase::of(counter) == t.spec_phase(),
        distinct(q),
        q.len() + v.slots.len() <= cap,
    ensures
        ({
            let polled = with_registration(v, t.spec_phase(), t.spec_slot() as int, h);
            let woken = wake_all(polled.slots, Phase::of(counter), q, cap);
            woken.contains(h.task) && distinct(woken) && timer_poll_result(
                ticked(polled, counter),
                t.spec_phase(),
            ) == Some(counter)
        }),
{
    let polled = with_registration(v, t.spec_phase(), t.spec_slot() as int, h);
    assert(polled.registered(t.spec_phase(), t.spec_slot() as int) == Some(h));
    lemma_no_wakeup_loss(polled, q, cap, counter, t.spec_slot() as int, h);
}

/// A sleep resolves exactly at a tock that closes its final cycle, and then
/// with the counter observed at that tock.
pub proof fn lemma_sleep_resolves_at_final_tock(s: Sleep, v: SignalView, h: WakeHandle)
    requires
        v.wf(),
        s.cycles_left >= 1,
    ensures
        sleep_step(s, v, h).2 is Some <==> s.awaiting is Tock && v.flag(Phase::Tock)
            && s.cycles_left == 1,
        sleep_step(s, v, h).2 is Some ==> sleep_step(s, v, h).2 == Some(v.counter) && v.counter % 2
            == 0,
{
}

/// One poll closes a full cycle exactly when the awaited tock has fired;
/// nothing else touches the cycle count.  Over a whole sleep, then, exactly
/// `ticks / 2` tocks are consumed.
pub proof fn lemma_sleep_counts_cycles(s: Sleep, v: SignalView, h: WakeHandle)
    requires
        s.cycles_left >= 1,
    ensures
        sleep_step(s, v, h).0.cycles_left == if s.awaiting is Tock && v.flag(Phase::Tock) {
            s.cycles_left - 1
        } else {
            s.cycles_left as int
        },
{
}

/// A four-tick sleep spans exactly two full interrupt periods: polled fresh
/// against any well-formed store, and re-polled after each of the four
/// following ticks, it stays suspended through the first period and through
/// the second tick, and resolves at the second tock `d` with exactly the
/// counter `d` — whatever phase the store started in.
pub proof fn lemma_sleep_four_ticks(
    v0: SignalView,
    slot: usize,
    h: WakeHandle,
    a: u64,
    b: u64,
    c: u64,
    d: u64,
)
    requires
        v0.wf(),
        slot < v0.slots.len(),
        v0.counter < a < b < c < d,
        a % 2 == 1,
        b % 2 == 0,
        c % 2 == 1,
        d % 2 == 0,
    ensures
        ({
            let s0 = Sleep { slot, cycles_left: 2, awaiting: Phase::Tick };
            let (s1, w1, r0) = sleep_step(s0, v0, h);
            let (s2, w2, r1) = sleep_step(s1, ticked(w1, a), h);
            let (s3, w3, r2) = sleep_step(s2, ticked(w2, b), h);
            let (s4, w4, r3) = sleep_step(s3, ticked(w3, c), h);
            let (s5, w5, r4) = sleep_step(s4, ticked(w4, d), h);
            r0 is None && r1 is None && r2 is None && r3 is None && r4 == Some(d)
                && s5.cycles_left == 0
        }),
{
}

/// The "wait N ticks" entry point: the sleep future for a task slot,
/// ready to be polled.  It suspends through `ticks / 2` full interrupt
/// periods and resolves with the counter observed at the final tock.
pub fn sleep(id: usize, ticks: u32) -> (s: Sleep)
    requires
        ticks >= 2,
    ensures
        s.slot == id,
        s.cycles_left == ticks / 2,
        s.awaiting is Tick,
{
    Sleep::new(id, ticks)
}

/// A streaming alternative to the one-shot futures: a stream of counter
/// values that is always ready with the latest one.  Nothing of it outlives
/// a poll, so the store is left unchanged and a caller that wants to block
/// until the next tick uses a `Timer` instead.
#[derive(Clone, Copy, Debug)]
pub struct TimerStream {
    _private: (),
}

impl TimerStream {
    /// A new stream of timer values.  A stream carries no state of its own:
    /// everything it yields is read from the signal store at poll time.
    pub fn new() -> TimerStream {
        TimerStream { _private: () }
    }

    /// The next stream item: always ready, always the latest counter.
    pub fn poll_next(&self, store: &SignalStore) -> (r: Option<u64>)
        ensures
            r == Some(store@.counter),
    {
        Some(store.current_counter())
    }
}

} // verus!
