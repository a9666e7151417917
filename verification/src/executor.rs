//! The executor: the task table, the ready queue, the signal store, and the
//! sink of displayed values, driven as one machine.
//!
//! `spawn` hands a task a fresh id and queues it for a first poll.  `run`
//! drains the ready queue, polling each queued task once: a poll either
//! completes the task, which is then removed together with its stale wake
//! registrations, or suspends it, registered in the signal store for the
//! phase it awaits.  Polling never fills the queue — only `record_tick`,
//! standing for the hardware interrupt, does — so a drain ends, and a run
//! returns to the idle state with the queue empty.
//!
//! A task displays a value by appending it to the sink, paired with its id;
//! the surrounding program renders the sink however it likes.

use vstd::prelude::*;

use crate::queue::{ReadyQueue, distinct, wake_seq};
use crate::signal::{
    Phase, SignalStore, SignalView, WakerSlot, purged_slots, ticked, wake_all, with_registration,
};
use crate::signal::lemma_wake_all_bounded;
use crate::timer::{Sleep, Timer, sleep_step};
use crate::waker::WakeHandle;

verus! {

/// A task that watches the clock: at every phase change it displays the
/// counter, then waits for the opposite phase, forever.
#[derive(Clone, Copy, Debug, PartialEq, Eq, Structural)]
pub struct Watch {
    /// The task slot its timer futures register under.
    pub slot: usize,
    /// The phase it is currently waiting for.
    pub awaiting: Phase,
}

/// A task that displays `next_value`, sleeps a fixed number of ticks,
/// displays the next value, and so on, until `limit` values are out.
#[derive(Clone, Copy, Debug, PartialEq, Eq, Structural)]
pub struct Metronome {
    /// The task slot its sleeps register under.
    pub slot: usize,
    /// How many ticks each pause lasts; at least one full cycle.
    pub ticks: u32,
    /// The next value to display.
    pub next_value: u64,
    /// One past the last value to display.
    pub limit: u64,
    /// The pause in progress, if any.
    pub sleep: Option<Sleep>,
}

/// One unit of cooperative work, as a resumable state machine with a single
/// re-entrant poll operation.  Suspension is "the poll returned not ready",
/// never a blocked thread.
#[derive(Clone, Copy, Debug, PartialEq, Eq, Structural)]
pub enum Work {
    /// Completes on its first poll, displaying nothing.
    Ready,
    /// Waits out one sleep, displays the counter it resolved to, completes.
    SleepWrite(Sleep),
    /// Displays the counter at every phase change, forever.
    Watch(Watch),
    /// Displays a run of values with a fixed pause between them.
    Metronome(Metronome),
}

impl Work {
    /// The task's slots fit the store it will register in, and its futures
    /// have cycles left to await.
    pub open spec fn wf(self, num_slots: nat) -> bool {
        match self {
            Work::Ready => true,
            Work::SleepWrite(s) => s.slot < num_slots && s.cycles_left >= 1,
            Work::Watch(w) => w.slot < num_slots,
            Work::Metronome(m) => {
                &&& m.slot < num_slots
                &&& m.ticks >= 2
                &&& m.next_value <= m.limit
                &&& (m.sleep matches Some(s) ==> s.slot == m.slot && s.cycles_left >= 1)
            },
        }
    }
}

/// What one poll of a task does: the work state left behind, the signal
/// store left behind, the values displayed, and whether the task completed.
///
/// The polled task's wake handle is the one registered throughout, so a
/// suspended task is always reachable by a later tick.  A metronome whose
/// pause just ended displays its next value and starts the following pause
/// within the same poll, exactly as the seconds display loops: display,
/// sleep, display, sleep.  A fresh pause awaits a tick first, and a sleep
/// entered at a tick cannot resolve, so one poll never ends two pauses.
pub open spec fn work_step(w: Work, id: usize, v: SignalView) -> (Work, SignalView, Seq<
    (usize, u64),
>, bool) {
    let h = WakeHandle { task: id };
    match w {
        Work::Ready => (w, v, Seq::empty(), true),
        Work::SleepWrite(s) => {
            let (s2, v2, r) = sleep_step(s, v, h);
            match r {
                Some(c) => (Work::SleepWrite(s2), v2, seq![(id, c)], true),
                None => (Work::SleepWrite(s2), v2, Seq::empty(), false),
            }
        },
        Work::Watch(wa) => {
            let v1 = with_registration(v, wa.awaiting, wa.slot as int, h);
            if v.flag(wa.awaiting) {
                (
                    Work::Watch(Watch { awaiting: wa.awaiting.other(), ..wa }),
                    with_registration(v1, wa.awaiting.other(), wa.slot as int, h),
                    seq![(id, v.counter)],
                    false,
                )
            } else {
                (w, v1, Seq::empty(), false)
            }
        },
        Work::Metronome(m) => {
            match m.sleep {
                None => metronome_advance(m, id, v),
                Some(s) => {
                    let (s2, v2, r) = sleep_step(s, v, h);
                    match r {
                        Some(_) => metronome_advance(
                            Metronome { sleep: None, ..m },
                            id,
                            v2,
                        ),
                        None => (
                            Work::Metronome(Metronome { sleep: Some(s2), ..m }),
                            v2,
                            Seq::empty(),
                            false,
                        ),
                    }
                },
            }
        },
    }
}

/// A metronome between pauses: done if every value is out, otherwise it
/// displays the next value and enters the following pause, whose first poll
/// registers it for the coming tick.
pub open spec fn metronome_advance(m: Metronome, id: usize, v: SignalView) -> (Work, SignalView, Seq<
    (usize, u64),
>, bool) {
    if m.next_value == m.limit {
        (Work::Metronome(m), v, Seq::empty(), true)
    } else {
        let fresh = Sleep { slot: m.slot, cycles_left: (m.ticks / 2) as u32, awaiting: Phase::Tick };
        let (s2, v2, _r) = sleep_step(fresh, v, WakeHandle { task: id });
        (
            Work::Metronome(
                Metronome { next_value: (m.next_value + 1) as u64, sleep: Some(s2), ..m },
            ),
            v2,
            seq![(id, m.next_value)],
            false,
        )
    }
}

/// The mathematical state of an executor.
#[verifier::ext_equal]
pub struct ExecView {
    /// The task table: one entry per ever-spawned id, completed ones `None`.
    pub tasks: Seq<Option<Work>>,
    /// The ready queue contents, oldest first.
    pub queue: Seq<usize>,
    /// The ready queue capacity.
    pub cap: nat,
    /// The signal store state.
    pub sig: SignalView,
    /// Every value displayed so far, paired with the id that displayed it.
    pub sink: Seq<(usize, u64)>,
}

impl ExecView {
    /// Every registered wake handle names a spawned task.
    pub open spec fn regs_bounded(self) -> bool {
        forall|j: int|
            0 <= j < self.sig.slots.len() ==> ((#[trigger] self.sig.slots[j].tick matches Some(h)
                ==> h.task < self.tasks.len()) && (self.sig.slots[j].tock matches Some(h)
                ==> h.task < self.tasks.len()))
    }

    /// The executor's invariant: a well-formed store, a duplicate-free
    /// bounded queue of spawned ids, well-formed live tasks, and no wake
    /// handle naming an unspawned task.
    pub open spec fn wf(self) -> bool {
        &&& self.sig.wf()
        &&& distinct(self.queue)
        &&& self.queue.len() <= self.cap
        &&& forall|i: int| 0 <= i < self.queue.len() ==> #[trigger] self.queue[i] < self.tasks.len()
        &&& self.regs_bounded()
        &&& forall|i: int|
            0 <= i < self.tasks.len() ==> (#[trigger] self.tasks[i] matches Some(w) ==> w.wf(
                self.sig.slots.len(),
            ))
    }
}

/// One ready id processed: a live task is polled once, and on completion
/// removed together with its registrations; a stale or unknown id is
/// dropped.  The queue itself is not touched — the caller already popped the
/// id — and polling never queues anything.
pub open spec fn exec_step(v: ExecView, id: usize) -> ExecView {
    if id < v.tasks.len() && v.tasks[id as int] is Some {
        let w = v.tasks[id as int]->Some_0;
        let (w2, sig2, out, done) = work_step(w, id, v.sig);
        ExecView {
            tasks: v.tasks.update(id as int, if done { None } else { Some(w2) }),
            sig: if done {
                SignalView { slots: purged_slots(sig2.slots, id), ..sig2 }
            } else {
                sig2
            },
            sink: v.sink + out,
            ..v
        }
    } else {
        v
    }
}

/// The whole drain: ids leave the queue oldest first and are processed one
/// by one until the queue is empty.
pub open spec fn drain(v: ExecView) -> ExecView
    decreases v.queue.len(),
{
    if v.queue.len() == 0 {
        v
    } else {
        let id = v.queue[0];
        let popped = ExecView { queue: v.queue.drop_first(), ..v };
        drain(exec_step(popped, id))
    }
}

/// The executor.  It owns every shared structure: the task table, the ready
/// queue, the signal store and the display sink.
pub struct Executor {
    tasks: Vec<Option<Work>>,
    rq: ReadyQueue,
    store: SignalStore,
    sink: Vec<(usize, u64)>,
}

impl View for Executor {
    type V = ExecView;

    closed spec fn view(&self) -> ExecView {
        ExecView {
            tasks: self.tasks@,
            queue: self.rq@,
            cap: self.rq.cap(),
            sig: self.store@,
            sink: self.sink@,
        }
    }
}

impl Executor {
    /// An executor with no tasks, an empty ready queue of capacity
    /// `queue_capacity`, and a signal store of `num_slots` registration
    /// slots.  Both sizes are fixed here, once: nothing on the interrupt
    /// path ever allocates.
    pub fn new(num_slots: usize, queue_capacity: usize) -> (e: Executor)
        ensures
            e@.wf(),
            e@.tasks.len() == 0,
            e@.queue.len() == 0,
            e@.cap == queue_capacity,
            e@.sig.slots.len() == num_slots,
            e@.sig.counter == 0,
            !e@.sig.tick_flag,
            !e@.sig.tock_flag,
            e@.sink.len() == 0,
    {
        Executor {
            tasks: Vec::new(),
            rq: ReadyQueue::new(queue_capacity),
            store: SignalStore::new(num_slots),
            sink: Vec::new(),
        }
    }

    /// How many ids have ever been spawned; completed tasks keep their slot.
    pub fn task_count(&self) -> (n: usize)
        ensures
            n == self@.tasks.len(),
    {
        self.tasks.len()
    }

    /// Whether the task with this id is still live.
    pub fn is_live(&self, id: usize) -> (r: bool)
        requires
            id < self@.tasks.len(),
        ensures
            r == (self@.tasks[id as int] is Some),
    {
        self.tasks[id].is_some()
    }

    /// Whether the ready queue is empty — the check the idle loop makes,
    /// with interrupts disabled, before halting the processor.
    pub fn is_idle(&self) -> (r: bool)
        ensures
            r == (self@.queue.len() == 0),
    {
        self.rq.is_empty()
    }

    /// The latest counter the signal store holds.
    pub fn current_counter(&self) -> (c: u64)
        ensures
            c == self@.sig.counter,
    {
        self.store.current_counter()
    }

    /// Every value displayed so far, oldest first, each paired with the id
    /// of the task that displayed it.
    pub fn sink(&self) -> (s: &Vec<(usize, u64)>)
        ensures
            s@ == self@.sink,
    {
        &self.sink
    }

    /// Spawns a task: assigns it the next fresh id, stores it in the task
    /// table, and queues it for its first poll.  The caller leaves room in
    /// the ready queue; a kernel that spawns past its queue capacity is
    /// misconfigured.
    pub fn spawn(&mut self, w: Work) -> (id: usize)
        requires
            old(self)@.wf(),
            w.wf(old(self)@.sig.slots.len()),
            old(self)@.queue.len() < old(self)@.cap,
            old(self)@.tasks.len() < usize::MAX,
        ensures
            final(self)@.wf(),
            id == old(self)@.tasks.len(),
            final(self)@.tasks == old(self)@.tasks.push(Some(w)),
            final(self)@.queue == old(self)@.queue.push(id),
            final(self)@.cap == old(self)@.cap,
            final(self)@.sig == old(self)@.sig,
            final(self)@.sink == old(self)@.sink,
    {
        let id = self.tasks.len();
        self.tasks.push(Some(w));
        let pushed = self.rq.push(id);
        proof {
            assert(pushed);
            assert(final(self)@.wf()) by {
                assert(forall|i: int|
                    0 <= i < old(self)@.queue.len() ==> #[trigger] old(self)@.queue[i]
                        < old(self)@.tasks.len());
            }
        }
        id
    }

    /// Records one hardware tick, exactly as the interrupt handler would:
    /// the signal store takes the counter and the new phase, and every
    /// handle registered for that phase is woken into the ready queue.
    pub fn record_tick(&mut self, counter: u64)
        requires
            old(self)@.wf(),
            old(self)@.sig.counter < counter,
        ensures
            final(self)@.wf(),
            final(self)@.sig == ticked(old(self)@.sig, counter),
            final(self)@.queue == wake_all(
                old(self)@.sig.slots,
                Phase::of(counter),
                old(self)@.queue,
                old(self)@.cap,
            ),
            final(self)@.tasks == old(self)@.tasks,
            final(self)@.cap == old(self)@.cap,
            final(self)@.sink == old(self)@.sink,
    {
        proof {
            lemma_wake_all_bounded(
                old(self)@.sig.slots,
                Phase::of(counter),
                old(self)@.queue,
                old(self)@.cap,
            );
            lemma_wake_all_ids(
                old(self)@.sig.slots,
                Phase::of(counter),
                old(self)@.queue,
                old(self)@.cap,
                old(self)@.tasks.len(),
            );
        }
        self.store.record_tick(&mut self.rq, counter);
        proof {
            assert(final(self)@.sig =~= ticked(old(self)@.sig, counter));
            assert(forall|i: int|
                0 <= i < final(self)@.tasks.len() ==> (#[trigger] final(self)@.tasks[i] matches Some(
                    w,
                ) ==> w.wf(final(self)@.sig.slots.len())));
        }
    }
}

/// One poll of a task changes nothing but registrations in the signal
/// store — and every handle it registers is the polled task's own — keeps a
/// live task well formed, and keeps the store well formed.
proof fn lemma_work_step_props(w: Work, id: usize, v: SignalView)
    requires
        v.wf(),
        w.wf(v.slots.len()),
    ensures
        ({
            let (w2, v2, out, done) = work_step(w, id, v);
            &&& v2.wf()
            &&& v2.counter == v.counter
            &&& v2.tick_flag == v.tick_flag
            &&& v2.tock_flag == v.tock_flag
            &&& v2.slots.len() == v.slots.len()
            &&& !done ==> w2.wf(v.slots.len())
            &&& forall|j: int|
                0 <= j < v2.slots.len() ==> ((#[trigger] v2.slots[j].tick matches Some(h)
                    ==> (v.slots[j].tick == Some(h) || h.task == id)) && (v2.slots[j].tock
                    matches Some(h) ==> (v.slots[j].tock == Some(h) || h.task == id)))
        }),
{
}

impl Executor {
    /// Drains the ready queue: pops ids oldest first and polls each id's
    /// task once, removing a task that completes, until the queue is empty.
    /// Polling never queues anything, so each drained id is polled exactly
    /// once per run and the loop terminates; the executor then holds the
    /// idle state in which the processor is halted until the next interrupt.
    pub fn run(&mut self)
        requires
            old(self)@.wf(),
        ensures
            final(self)@.wf(),
            final(self)@ == drain(old(self)@),
            final(self)@.queue.len() == 0,
    {
        loop
            invariant
                self@.wf(),
                drain(self@) == drain(old(self)@),
            ensures
                self@.wf(),
                drain(self@) == drain(old(self)@),
                self@.queue.len() == 0,
            decreases self@.queue.len(),
        {
            let ghost pre = self@;
            match self.rq.pop() {
                None => {
                    break ;
                },
                Some(id) => {
                    let ghost popped = ExecView { queue: pre.queue.drop_first(), ..pre };
                    proof {
                        assert(drain(pre) == drain(exec_step(popped, id)));
                    }
                    if id < self.tasks.len() {
                        match self.tasks[id] {
                            Some(w) => {
                                proof {
                                    lemma_work_step_props(w, id, self@.sig);
                                }
                                let (w2, done) = poll_work(w, id, &mut self.store, &mut self.sink);
                                if done {
                                    self.tasks[id] = None;
                                    self.store.purge(id);
                                } else {
                                    self.tasks[id] = Some(w2);
                                }
                            },
                            None => {},
                        }
                    }
                    proof {
                        assert(self@ =~~= exec_step(popped, id));
                        assert(self@.wf()) by {
                            lemma_exec_step_wf(popped, id);
                        }
                    }
                },
            }
        }
    }
}

/// Processing one ready id preserves the executor's invariant.
proof fn lemma_exec_step_wf(v: ExecView, id: usize)
    requires
        v.wf(),
    ensures
        exec_step(v, id).wf(),
        exec_step(v, id).queue == v.queue,
        exec_step(v, id).cap == v.cap,
        exec_step(v, id).tasks.len() == v.tasks.len(),
{
    if id < v.tasks.len() && v.tasks[id as int] is Some {
        let w = v.tasks[id as int]->Some_0;
        lemma_work_step_props(w, id, v.sig);
        let (w2, sig2, out, done) = work_step(w, id, v.sig);
        if done {
            let purged = SignalView { slots: purged_slots(sig2.slots, id), ..sig2 };
            assert forall|j: int|
                0 <= j < purged.slots.len() implies ((#[trigger] purged.slots[j].tick matches Some(
                h,
            ) ==> h.task < v.tasks.len()) && (purged.slots[j].tock matches Some(h) ==> h.task
                < v.tasks.len())) by {
                assert(purged.slots[j] == crate::signal::purge_slot(sig2.slots[j], id));
            }
        }
    }
}

/// One poll of one task: the executable mirror of `work_step`.  Displayed
/// values land in the sink; the returned pair is the task's next state and
/// whether it completed.
fn poll_work(w: Work, id: usize, store: &mut SignalStore, sink: &mut Vec<(usize, u64)>) -> (r: (
    Work,
    bool,
))
    requires
        old(store)@.wf(),
        w.wf(old(store)@.slots.len()),
    ensures
        r.0 == work_step(w, id, old(store)@).0,
        final(store)@ == work_step(w, id, old(store)@).1,
        final(sink)@ == old(sink)@ + work_step(w, id, old(store)@).2,
        r.1 == work_step(w, id, old(store)@).3,
{
    let h = WakeHandle::new(id);
    let r = match w {
        Work::Ready => (w, true),
        Work::SleepWrite(s) => {
            let mut s2 = s;
            match s2.poll(store, h) {
                Some(c) => {
                    sink.push((id, c));
                    (Work::SleepWrite(s2), true)
                },
                None => (Work::SleepWrite(s2), false),
            }
        },
        Work::Watch(wa) => {
            let t = match wa.awaiting {
                Phase::Tick => Timer::Tick(wa.slot),
                Phase::Tock => Timer::Tock(wa.slot),
            };
            match t.poll(store, h) {
                Some(c) => {
                    sink.push((id, c));
                    let turned = wa.awaiting.other();
                    store.register(turned, wa.slot, h);
                    (Work::Watch(Watch { awaiting: turned, ..wa }), false)
                },
                None => (w, false),
            }
        },
        Work::Metronome(m) => {
            match m.sleep {
                None => metronome_poll(m, id, store, sink),
                Some(s) => {
                    let mut s2 = s;
                    match s2.poll(store, h) {
                        Some(_) => metronome_poll(Metronome { sleep: None, ..m }, id, store, sink),
                        None => (Work::Metronome(Metronome { sleep: Some(s2), ..m }), false),
                    }
                },
            }
        },
    };
    proof {
        assert(store@ =~~= work_step(w, id, old(store)@).1);
        assert(sink@ =~= old(sink)@ + work_step(w, id, old(store)@).2);
    }
    r
}

/// A metronome between pauses: the executable mirror of `metronome_advance`.
fn metronome_poll(m: Metronome, id: usize, store: &mut SignalStore, sink: &mut Vec<(usize, u64)>)
    -> (r: (Work, bool))
    requires
        old(store)@.wf(),
        Work::Metronome(m).wf(old(store)@.slots.len()),
        m.sleep is None,
    ensures
        r.0 == metronome_advance(m, id, old(store)@).0,
        final(store)@ == metronome_advance(m, id, old(store)@).1,
        final(sink)@ == old(sink)@ + metronome_advance(m, id, old(store)@).2,
        r.1 == metronome_advance(m, id, old(store)@).3,
{
    if m.next_value == m.limit {
        (Work::Metronome(m), true)
    } else {
        sink.push((id, m.next_value));
        let mut s = Sleep::new(m.slot, m.ticks);
        let _pending = s.poll(store, WakeHandle::new(id));
        (
            Work::Metronome(Metronome { next_value: m.next_value + 1, sleep: Some(s), ..m }),
            false,
        )
    }
}

/// A completed task stays gone: once its table entry is `None`, no amount of
/// draining brings it back or polls it again — a stale queued id finds no
/// task and is dropped.
pub proof fn lemma_gone_stays_gone(v: ExecView, id: usize)
    requires
        id < v.tasks.len(),
        v.tasks[id as int] is None,
    ensures
        drain(v).tasks.len() == v.tasks.len(),
        drain(v).tasks[id as int] is None,
    decreases v.queue.len(),
{
    if v.queue.len() > 0 {
        let head = v.queue[0];
        let popped = ExecView { queue: v.queue.drop_first(), ..v };
        let stepped = exec_step(popped, head);
        assert(stepped.tasks.len() == v.tasks.len());
        assert(stepped.tasks[id as int] is None);
        assert(stepped.queue == popped.queue);
        lemma_gone_stays_gone(stepped, id);
    }
}

/// A task that is ready on its first poll is removed by the drain that
/// reaches it: a queued `Work::Ready` entry ends the drain completed and
/// out of the task table, never to be polled again.
pub proof fn lemma_ready_task_retires(v: ExecView, id: usize)
    requires
        id < v.tasks.len(),
        v.tasks[id as int] == Some(Work::Ready),
        v.queue.contains(id),
    ensures
        drain(v).tasks.len() == v.tasks.len(),
        drain(v).tasks[id as int] is None,
    decreases v.queue.len(),
{
    let head = v.queue[0];
    let popped = ExecView { queue: v.queue.drop_first(), ..v };
    let stepped = exec_step(popped, head);
    assert(stepped.queue == popped.queue);
    if head == id {
        assert(stepped.tasks[id as int] is None);
        lemma_gone_stays_gone(stepped, id);
    } else {
        assert(stepped.tasks[id as int] == Some(Work::Ready));
        let k = choose|k: int| 0 <= k < v.queue.len() && v.queue[k] == id;
        assert(k > 0);
        assert(popped.queue[k - 1] == id);
        assert(stepped.queue.contains(id));
        lemma_ready_task_retires(stepped, id);
    }
}

/// Waking adds only ids that some registered handle names: with every
/// registration and every queued id below `n`, the drained-to queue stays
/// below `n`.
proof fn lemma_wake_all_ids(slots: Seq<WakerSlot>, phase: Phase, q: Seq<usize>, cap: nat, n: nat)
    requires
        forall|i: int| 0 <= i < q.len() ==> #[trigger] q[i] < n,
        forall|j: int|
            0 <= j < slots.len() ==> (#[trigger] slots[j].spec_get(phase) matches Some(h)
                ==> h.task < n),
    ensures
        forall|i: int|
            0 <= i < wake_all(slots, phase, q, cap).len() ==> #[trigger] wake_all(
                slots,
                phase,
                q,
                cap,
            )[i] < n,
    decreases slots.len(),
{
    if slots.len() > 0 {
        let q1 = match slots[0].spec_get(phase) {
            Some(h) => wake_seq(q, cap, h.task),
            None => q,
        };
        assert forall|i: int| 0 <= i < q1.len() implies #[trigger] q1[i] < n by {
            if i < q.len() {
                assert(q1[i] == q[i]);
            } else {
                assert(q1[i] == slots[0].spec_get(phase)->Some_0.task);
            }
        }
        assert(forall|j: int|
            0 <= j < slots.drop_first().len() ==> (#[trigger] slots.drop_first()[j].spec_get(phase)
                matches Some(h) ==> h.task < n)) by {
            assert(forall|j: int|
                0 <= j < slots.drop_first().len() ==> slots.drop_first()[j] == slots[j + 1]);
        }
        lemma_wake_all_ids(slots.drop_first(), phase, q1, cap, n);
        assert(wake_all(slots, phase, q, cap) == wake_all(slots.drop_first(), phase, q1, cap));
        assert forall|i: int|
            0 <= i < wake_all(slots, phase, q, cap).len() implies #[trigger] wake_all(
            slots,
            phase,
            q,
            cap,
        )[i] < n by {
            assert(wake_all(slots.drop_first(), phase, q1, cap)[i] < n);
        }
    }
}

} // verus!
