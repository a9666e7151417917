//! The timer signal store: the latest hardware tick counter, one flag per
//! phase, and a fixed table of registered wake handles.
//!
//! The interrupt handler calls `record_tick` with a strictly increasing
//! counter.  The counter's parity selects the phase: an odd counter asserts
//! the tick flag, an even one the tock flag, and the opposite flag is cleared,
//! so at most one flag is set at any instant.  Recording a tick then wakes
//! every handle registered for the new phase and consumes those
//! registrations; a waiting future re-registers on every poll.
//!
//! A task that misses several interrupts observes only the latest counter:
//! the store keeps the most recent value, not a queue of all ticks.

use vstd::prelude::*;

use crate::queue::ReadyQueue;
use crate::queue::distinct;
use crate::queue::wake_seq;
use crate::waker::WakeHandle;

verus! {

/// One of the two alternating phases of the tick counter.
#[derive(Clone, Copy, Debug, PartialEq, Eq, Structural)]
pub enum Phase {
    /// The phase of odd counter values.
    Tick,
    /// The phase of even counter values.
    Tock,
}

impl Phase {
    /// The phase that a counter value asserts.
    pub open spec fn of(counter: u64) -> Phase {
        if counter % 2 == 1 {
            Phase::Tick
        } else {
            Phase::Tock
        }
    }

    /// The opposite phase.
    pub open spec fn spec_other(self) -> Phase {
        match self {
            Phase::Tick => Phase::Tock,
            Phase::Tock => Phase::Tick,
        }
    }

    /// The opposite phase.
    #[verifier::when_used_as_spec(spec_other)]
    pub fn other(self) -> (p: Phase)
        ensures
            p == self.spec_other(),
    {
        match self {
            Phase::Tick => Phase::Tock,
            Phase::Tock => Phase::Tick,
        }
    }

    /// Computes the phase of a counter value.
    pub fn of_counter(counter: u64) -> (p: Phase)
        ensures
            p == Phase::of(counter),
    {
        if counter % 2 == 1 {
            Phase::Tick
        } else {
            Phase::Tock
        }
    }
}

/// The wake handles registered for one task slot, one per phase.
#[derive(Clone, Copy, Debug, PartialEq, Eq, Structural)]
pub struct WakerSlot {
    /// The handle to wake at the next tick, if any.
    pub tick: Option<WakeHandle>,
    /// The handle to wake at the next tock, if any.
    pub tock: Option<WakeHandle>,
}

impl WakerSlot {
    /// The registration held for the given phase.
    pub open spec fn spec_get(self, phase: Phase) -> Option<WakeHandle> {
        match phase {
            Phase::Tick => self.tick,
            Phase::Tock => self.tock,
        }
    }

    /// This slot with the registration for the given phase replaced.
    pub open spec fn with(self, phase: Phase, h: Option<WakeHandle>) -> WakerSlot {
        match phase {
            Phase::Tick => WakerSlot { tick: h, ..self },
            Phase::Tock => WakerSlot { tock: h, ..self },
        }
    }

    /// A slot with no registrations.
    pub fn empty() -> (s: WakerSlot)
        ensures
            s.tick is None,
            s.tock is None,
    {
        WakerSlot { tick: None, tock: None }
    }

    /// Reads the registration held for the given phase.
    pub fn get(&self, phase: Phase) -> (r: Option<WakeHandle>)
        ensures
            r == self.spec_get(phase),
    {
        match phase {
            Phase::Tick => self.tick,
            Phase::Tock => self.tock,
        }
    }
}

/// The mathematical state of a signal store.
#[verifier::ext_equal]
pub struct SignalView {
    /// The latest recorded counter.
    pub counter: u64,
    /// Whether the latest counter was odd.
    pub tick_flag: bool,
    /// Whether the latest counter was even.
    pub tock_flag: bool,
    /// The registration table, one slot per task slot index.
    pub slots: Seq<WakerSlot>,
}

impl SignalView {
    /// Each flag is asserted only for a counter of its parity; in particular
    /// at most one flag is set at any instant.
    pub open spec fn wf(self) -> bool {
        &&& self.tick_flag ==> self.counter % 2 == 1
        &&& self.tock_flag ==> self.counter % 2 == 0
    }

    /// The flag for the given phase.
    pub open spec fn flag(self, phase: Phase) -> bool {
        match phase {
            Phase::Tick => self.tick_flag,
            Phase::Tock => self.tock_flag,
        }
    }

    /// The registration held for a phase and slot.
    pub open spec fn registered(self, phase: Phase, slot: int) -> Option<WakeHandle> {
        self.slots[slot].spec_get(phase)
    }
}

/// The registration table with `h` registered for `phase` at `slot`.
pub open spec fn register_slots(
    slots: Seq<WakerSlot>,
    phase: Phase,
    slot: int,
    h: WakeHandle,
) -> Seq<WakerSlot> {
    slots.update(slot, slots[slot].with(phase, Some(h)))
}

/// The signal store state with `h` registered for `phase` at `slot`; the
/// counter and the flags are untouched.
pub open spec fn with_registration(v: SignalView, phase: Phase, slot: int, h: WakeHandle) -> SignalView {
    SignalView { slots: register_slots(v.slots, phase, slot, h), ..v }
}

/// The registration table with every registration for `phase` consumed.
pub open spec fn cleared_slots(slots: Seq<WakerSlot>, phase: Phase) -> Seq<WakerSlot> {
    Seq::new(slots.len(), |i: int| slots[i].with(phase, None))
}

/// `slot` with every registration whose handle wakes task `id` removed.
pub open spec fn purge_slot(slot: WakerSlot, id: usize) -> WakerSlot {
    WakerSlot {
        tick: if slot.tick matches Some(h) && h.task == id {
            None
        } else {
            slot.tick
        },
        tock: if slot.tock matches Some(h) && h.task == id {
            None
        } else {
            slot.tock
        },
    }
}

/// The registration table with every registration for task `id` removed.
pub open spec fn purged_slots(slots: Seq<WakerSlot>, id: usize) -> Seq<WakerSlot> {
    Seq::new(slots.len(), |i: int| purge_slot(slots[i], id))
}

/// The ready queue contents after waking, in slot order, every handle that
/// `slots` registers for `phase`.
pub open spec fn wake_all(slots: Seq<WakerSlot>, phase: Phase, q: Seq<usize>, cap: nat) -> Seq<
    usize,
>
    decreases slots.len(),
{
    if slots.len() == 0 {
        q
    } else {
        let q1 = match slots[0].spec_get(phase) {
            Some(h) => wake_seq(q, cap, h.task),
            None => q,
        };
        wake_all(slots.drop_first(), phase, q1, cap)
    }
}

/// The signal store state after `record_tick(counter)`: the counter stored,
/// the flag of its parity asserted and the other cleared, and the fired
/// phase's registrations consumed.
pub open spec fn ticked(v: SignalView, counter: u64) -> SignalView {
    SignalView {
        counter,
        tick_flag: counter % 2 == 1,
        tock_flag: counter % 2 == 0,
        slots: cleared_slots(v.slots, Phase::of(counter)),
    }
}

/// The signal store.  The interrupt path writes it through `record_tick`;
/// task-side code reads the counter and flags and registers wake handles.
pub struct SignalStore {
    counter: u64,
    tick_flag: bool,
    tock_flag: bool,
    slots: Vec<WakerSlot>,
}

impl View for SignalStore {
    type V = SignalView;

    closed spec fn view(&self) -> SignalView {
        SignalView {
            counter: self.counter,
            tick_flag: self.tick_flag,
            tock_flag: self.tock_flag,
            slots: self.slots@,
        }
    }
}

impl SignalStore {
    /// A store with no recorded tick, no asserted flag, and `num_slots` empty
    /// registration slots.  The slot count is fixed for the store's lifetime:
    /// the interrupt path iterates a fixed-size table and never allocates.
    pub fn new(num_slots: usize) -> (s: SignalStore)
        ensures
            s@.wf(),
            s@.counter == 0,
            !s@.tick_flag,
            !s@.tock_flag,
            s@.slots.len() == num_slots,
            forall|i: int|
                0 <= i < num_slots ==> s@.slots[i].tick is None && s@.slots[i].tock is None,
    {
        let mut slots: Vec<WakerSlot> = Vec::new();
        let mut i: usize = 0;
        while i < num_slots
            invariant
                i <= num_slots,
                slots@.len() == i,
                forall|k: int| 0 <= k < i ==> slots@[k].tick is None && slots@[k].tock is None,
            decreases num_slots - i,
        {
            slots.push(WakerSlot { tick: None, tock: None });
            i = i + 1;
        }
        SignalStore { counter: 0, tick_flag: false, tock_flag: false, slots }
    }

    /// How many registration slots the store was built with.
    pub fn num_slots(&self) -> (n: usize)
        ensures
            n == self@.slots.len(),
    {
        self.slots.len()
    }

    /// The latest recorded counter.  Lock-free read, usable from any context.
    pub fn current_counter(&self) -> (c: u64)
        ensures
            c == self@.counter,
    {
        self.counter
    }

    /// Whether the given phase's flag is asserted.  Lock-free read.
    pub fn phase_flag(&self, phase: Phase) -> (r: bool)
        ensures
            r == self@.flag(phase),
    {
        match phase {
            Phase::Tick => self.tick_flag,
            Phase::Tock => self.tock_flag,
        }
    }

    /// Registers `h` to be woken at the next `phase`, replacing any earlier
    /// registration of that phase and slot.
    pub fn register(&mut self, phase: Phase, slot: usize, h: WakeHandle)
        requires
            slot < old(self)@.slots.len(),
        ensures
            final(self)@.counter == old(self)@.counter,
            final(self)@.tick_flag == old(self)@.tick_flag,
            final(self)@.tock_flag == old(self)@.tock_flag,
            final(self)@.slots == register_slots(old(self)@.slots, phase, slot as int, h),
    {
        let s = self.slots[slot];
        match phase {
            Phase::Tick => {
                self.slots[slot] = WakerSlot { tick: Some(h), ..s };
            },
            Phase::Tock => {
                self.slots[slot] = WakerSlot { tock: Some(h), ..s };
            },
        }
    }

    /// Records one hardware tick: stores the counter, asserts the flag of its
    /// parity and clears the other, then wakes every handle registered for
    /// the new phase, consuming those registrations.
    ///
    /// Callable only from the interrupt handler, which delivers a strictly
    /// increasing counter; it neither blocks nor allocates.
    pub fn record_tick(&mut self, rq: &mut ReadyQueue, counter: u64)
        requires
            old(self)@.counter < counter,
            old(rq).wf(),
        ensures
            final(self)@ == ticked(old(self)@, counter),
            final(self)@.wf(),
            final(rq).wf(),
            final(rq).cap() == old(rq).cap(),
            final(rq)@ == wake_all(old(self)@.slots, Phase::of(counter), old(rq)@, old(rq).cap()),
    {
        self.counter = counter;
        let phase = Phase::of_counter(counter);
        match phase {
            Phase::Tick => {
                self.tick_flag = true;
                self.tock_flag = false;
            },
            Phase::Tock => {
                self.tock_flag = true;
                self.tick_flag = false;
            },
        }
        let ghost all = self.slots@;
        let ghost q0 = rq@;
        let n = self.slots.len();
        proof {
            assert(all.skip(0) =~= all);
        }
        let mut i: usize = 0;
        while i < n
            invariant
                i <= n,
                n == self.slots@.len(),
                all.len() == n,
                self@.counter == counter,
                self@.tick_flag == (counter % 2 == 1),
                self@.tock_flag == (counter % 2 == 0),
                phase == Phase::of(counter),
                rq.wf(),
                rq.cap() == old(rq).cap(),
                forall|k: int| 0 <= k < i ==> self.slots@[k] == all[k].with(phase, None),
                forall|k: int| i <= k < n ==> self.slots@[k] == all[k],
                wake_all(all.skip(i as int), phase, rq@, rq.cap()) == wake_all(
                    all,
                    phase,
                    q0,
                    old(rq).cap(),
                ),
            decreases n - i,
        {
            proof {
                assert(all.skip(i as int).drop_first() =~= all.skip(i as int + 1));
                assert(all.skip(i as int)[0] == all[i as int]);
            }
            let s = self.slots[i];
            match s.get(phase) {
                Some(h) => {
                    h.wake(rq);
                },
                None => {},
            }
            self.slots[i] = s.with_none(phase);
            i = i + 1;
        }
        proof {
            assert(all.skip(n as int) =~= Seq::<WakerSlot>::empty());
            assert(self.slots@ =~= cleared_slots(all, phase));
            assert(self@ =~= ticked(old(self)@, counter));
        }
    }
}

impl SignalStore {
    /// Removes every registration held for task `id`.  The executor calls
    /// this when a task completes, so that a timer future dropped mid-wait
    /// leaves no stale wake behind: later wakes for the dead task become
    /// no-ops.
    pub fn purge(&mut self, id: usize)
        ensures
            final(self)@.counter == old(self)@.counter,
            final(self)@.tick_flag == old(self)@.tick_flag,
            final(self)@.tock_flag == old(self)@.tock_flag,
            final(self)@.slots == purged_slots(old(self)@.slots, id),
    {
        let ghost all = self.slots@;
        let n = self.slots.len();
        let mut i: usize = 0;
        while i < n
            invariant
                i <= n,
                n == self.slots@.len(),
                all.len() == n,
                self@.counter == old(self)@.counter,
                self@.tick_flag == old(self)@.tick_flag,
                self@.tock_flag == old(self)@.tock_flag,
                forall|k: int| 0 <= k < i ==> self.slots@[k] == purge_slot(all[k], id),
                forall|k: int| i <= k < n ==> self.slots@[k] == all[k],
            decreases n - i,
        {
            let s = self.slots[i];
            let tick = match s.tick {
                Some(h) if h.task == id => None,
                other => other,
            };
            let tock = match s.tock {
                Some(h) if h.task == id => None,
                other => other,
            };
            self.slots[i] = WakerSlot { tick, tock };
            i = i + 1;
        }
        proof {
            assert(self.slots@ =~= purged_slots(all, id));
        }
    }
}

/// Waking can only add task ids: whatever was queued before `wake_all` is
/// still queued afterwards.
pub proof fn lemma_wake_all_keeps(slots: Seq<WakerSlot>, phase: Phase, q: Seq<usize>, cap: nat, x: usize)
    requires
        q.contains(x),
    ensures
        wake_all(slots, phase, q, cap).contains(x),
    decreases slots.len(),
{
    if slots.len() > 0 {
        let q1 = match slots[0].spec_get(phase) {
            Some(h) => wake_seq(q, cap, h.task),
            None => q,
        };
        assert(q1.contains(x)) by {
            if !q.contains(slots[0].spec_get(phase)->Some_0.task) && q.len() < cap {
                let i = choose|i: int| 0 <= i < q.len() && q[i] == x;
                assert(q.push(slots[0].spec_get(phase)->Some_0.task)[i] == x);
            }
        }
        lemma_wake_all_keeps(slots.drop_first(), phase, q1, cap, x);
    }
}

/// Each wake grows the queue by at most one id and keeps it duplicate-free.
pub proof fn lemma_wake_all_bounded(slots: Seq<WakerSlot>, phase: Phase, q: Seq<usize>, cap: nat)
    requires
        distinct(q),
        q.len() <= cap,
    ensures
        distinct(wake_all(slots, phase, q, cap)),
        wake_all(slots, phase, q, cap).len() <= q.len() + slots.len(),
        wake_all(slots, phase, q, cap).len() <= cap,
    decreases slots.len(),
{
    if slots.len() > 0 {
        let q1 = match slots[0].spec_get(phase) {
            Some(h) => wake_seq(q, cap, h.task),
            None => q,
        };
        assert(distinct(q1) && q1.len() <= q.len() + 1 && q1.len() <= cap) by {
            if slots[0].spec_get(phase) is Some {
                let id = slots[0].spec_get(phase)->Some_0.task;
                if !q.contains(id) && q.len() < cap {
                    assert(forall|i: int, j: int|
                        0 <= i < j < q.push(id).len() ==> q.push(id)[i] != q.push(id)[j]) by {
                        assert(forall|i: int| 0 <= i < q.len() ==> q.push(id)[i] == q[i]);
                    }
                }
            }
        }
        lemma_wake_all_bounded(slots.drop_first(), phase, q1, cap);
    }
}

/// No wakeup loss: a handle registered for the phase that a tick fires stands
/// in the ready queue afterwards, and, the queue holding no id twice, it
/// stands there exactly once.
///
/// The capacity bound leaves out the overloaded queue, where a wake is
/// dropped by design.
pub proof fn lemma_no_wakeup_loss(
    v: SignalView,
    q: Seq<usize>,
    cap: nat,
    counter: u64,
    slot: int,
    h: WakeHandle,
)
    requires
        0 <= slot < v.slots.len(),
        v.registered(Phase::of(counter), slot) == Some(h),
        distinct(q),
        q.len() + v.slots.len() <= cap,
    ensures
        wake_all(v.slots, Phase::of(counter), q, cap).contains(h.task),
        distinct(wake_all(v.slots, Phase::of(counter), q, cap)),
{
    lemma_wake_all_registered(v.slots, Phase::of(counter), q, cap, slot);
    lemma_wake_all_bounded(v.slots, Phase::of(counter), q, cap);
}

/// A handle registered at slot `j` for the firing phase is woken: its task id
/// is in the queue that `wake_all` leaves, provided the queue has room for
/// every slot.
proof fn lemma_wake_all_registered(
    slots: Seq<WakerSlot>,
    phase: Phase,
    q: Seq<usize>,
    cap: nat,
    j: int,
)
    requires
        0 <= j < slots.len(),
        slots[j].spec_get(phase) is Some,
        q.len() + slots.len() <= cap,
    ensures
        wake_all(slots, phase, q, cap).contains(slots[j].spec_get(phase)->Some_0.task),
    decreases slots.len(),
{
    let q1 = match slots[0].spec_get(phase) {
        Some(h) => wake_seq(q, cap, h.task),
        None => q,
    };
    if j == 0 {
        let id = slots[0].spec_get(phase)->Some_0.task;
        assert(q1.contains(id)) by {
            if !q.contains(id) {
                assert(q.push(id)[q.len() as int] == id);
            }
        }
        lemma_wake_all_keeps(slots.drop_first(), phase, q1, cap, id);
    } else {
        lemma_wake_all_registered(slots.drop_first(), phase, q1, cap, j - 1);
        assert(slots.drop_first()[j - 1] == slots[j]);
    }
}

/// From the first interrupt on, exactly one phase flag is asserted at any
/// instant: every recorded tick raises one and clears the other.
pub proof fn lemma_one_flag_after_tick(v: SignalView, counter: u64)
    ensures
        ticked(v, counter).tick_flag != ticked(v, counter).tock_flag,
{
}

/// The signal store state after a whole sequence of recorded ticks, oldest
/// first.
pub open spec fn ticked_all(v: SignalView, counters: Seq<u64>) -> SignalView
    decreases counters.len(),
{
    if counters.len() == 0 {
        v
    } else {
        ticked_all(ticked(v, counters[0]), counters.drop_first())
    }
}

/// After any sequence of recorded ticks with strictly increasing counters,
/// the current counter is the last value supplied.
pub proof fn lemma_counter_is_latest(v: SignalView, counters: Seq<u64>)
    requires
        counters.len() > 0,
        forall|i: int, j: int| 0 <= i < j < counters.len() ==> counters[i] < counters[j],
    ensures
        ticked_all(v, counters).counter == counters.last(),
    decreases counters.len(),
{
    if counters.len() == 1 {
        assert(ticked_all(ticked(v, counters[0]), counters.drop_first()) == ticked(v, counters[0]));
    } else {
        lemma_counter_is_latest(ticked(v, counters[0]), counters.drop_first());
        assert(counters.drop_first().last() == counters.last());
    }
}

impl WakerSlot {
    /// This slot with the registration for the given phase consumed.
    fn with_none(self, phase: Phase) -> (r: WakerSlot)
        ensures
            r == self.with(phase, None::<WakeHandle>),
    {
        match phase {
            Phase::Tick => WakerSlot { tick: None, ..self },
            Phase::Tock => WakerSlot { tock: None, ..self },
        }
    }
}

} // verus!
