//! A cooperative, single-threaded task core for a timer-driven kernel.
//!
//! Hardware timer interrupts arrive as a monotonically increasing tick
//! counter.  The counter's parity splits time into two alternating phases,
//! tick and tock.  Tasks await phase changes through timer futures; a signal
//! store records the latest counter, keeps one flag per phase, and holds the
//! wake handles that the interrupt path uses to mark tasks runnable.  An
//! executor owns the task table and a bounded ready queue, drives tasks to
//! completion, and idles once the queue is drained.
//!
//! Around the core stand the display pieces the tasks feed: the interval
//! timer arithmetic, the text-mode writer over a modeled cell grid, and the
//! ANSI escape interpreters.

pub mod ansi;
pub mod executor;
pub mod pit;
pub mod queue;
pub mod signal;
pub mod text;
pub mod timer;
pub mod vga;
pub mod vga_buffer;
pub mod waker;
