//! The core of a small preemptive kernel for a single-core microcontroller.
//!
//! A fixed set of tasks, each on a stack of its own, shares the processor
//! round robin. A periodic timer interrupt ends each time slice: the trap
//! entry stub stores the registers of the interrupted task in a frame, the
//! dispatcher acknowledges the interrupt and asks the scheduler for the next
//! task, and the exit stub reloads the registers from that task's frame.
//!
//! This crate holds the rules of that kernel, each with its contract, and
//! touches no hardware itself: it works on addresses and plain values, and
//! tells its caller what to write to which register.
//!
//! - [`frame`]: the trap frame and its layout as a block of words.
//! - [`stack`]: the pool of stacks and the region of each slot.
//! - [`sched`]: the task table and the round-robin switch.
//! - [`rotation`]: what holds of every run of switches.
//! - [`tick`]: the writes that set up and acknowledge the timer interrupt.
//! - [`trap`]: the dispatcher, and the protocol of trap entry and exit.
//! - [`timer`], [`uart`]: the delay timer and the serial line.

pub mod frame;
pub mod rotation;
pub mod sched;
pub mod stack;
pub mod tick;
pub mod timer;
pub mod trap;
pub mod uart;
