//! The trap dispatcher, and the protocol between it and the entry and exit
//! stubs.
//!
//! On a trap the entry stub stores the registers of the interrupted context
//! in the frame that the current frame pointer names, and calls the
//! dispatcher with that address. The dispatcher acknowledges the tick and
//! lets the scheduler choose; the exit stub makes the answer the current
//! frame pointer and reloads the registers from there. [`Machine`] is that
//! protocol as a mathematical value, and the laws at the end of this file say
//! what every run of it keeps.

use vstd::prelude::*;
use vstd::arithmetic::div_mod::{
    lemma_add_mod_noop_right,
    lemma_fundamental_div_mod_converse,
    lemma_mod_self_0,
    lemma_small_mod,
};
use crate::frame::FullTrapFrame;
use crate::rotation::{lemma_cursor_moves_away, lemma_switch_keeps_table};
use crate::sched::{SchedState, Scheduler};
use crate::stack::{frame_bytes, lemma_slot_within_pool, lemma_slots_disjoint};
use crate::tick::{acknowledge, RegWrite, TickState};

verus! {

/// What the dispatcher asks of its caller: the write that acknowledges the
/// tick, to be made before the trap returns, and the frame to reload.
#[derive(Debug, Clone, Copy, PartialEq, Eq, Structural)]
pub struct TrapOutcome {
    /// The write that clears the pending interrupt of the tick source.
    pub acknowledge: RegWrite,
    /// Address of the frame from which the exit stub reloads the registers.
    pub next_frame: usize,
}

/// Dispatches one trap: acknowledges the tick, once, and switches to the
/// next task. `trap_frame` is the address of the frame that the entry stub
/// stored.
pub fn start_trap_rust_full<const N: usize>(sched: &mut Scheduler<N>, trap_frame: usize) -> (outcome:
    TrapOutcome)
    requires
        old(sched)@.tasks.len() >= 1,
    ensures
        final(sched)@.wf(),
        final(sched)@ == old(sched)@.switched(trap_frame),
        outcome.acknowledge == RegWrite::IntClr,
        outcome.next_frame == old(sched)@.resumed(trap_frame),
{
    let acknowledge = acknowledge();
    let next_frame = sched.switch(trap_frame);
    TrapOutcome { acknowledge, next_frame }
}

impl SchedState {
    /// Whether the frames stored for any two tasks lie at different
    /// addresses.
    pub open spec fn frames_apart(self) -> bool {
        forall|i: int, j: int|
            0 <= i < self.tasks.len() && 0 <= j < self.tasks.len() && i != j ==> (
            #[trigger] self.tasks[i]).frame != (#[trigger] self.tasks[j]).frame
    }
}

/// The processor, the frames in memory, the tick source and the scheduler,
/// as the entry and exit stubs see them.
pub struct Machine {
    /// The scheduler.
    pub sched: SchedState,
    /// The tick source.
    pub tick: TickState,
    /// The frame stored at each address.
    pub memory: Map<usize, FullTrapFrame>,
    /// The current frame pointer: where the next trap stores the registers.
    pub current: usize,
    /// The registers of the running context.
    pub registers: FullTrapFrame,
}

impl Machine {
    /// What the protocol relies on: the scheduler is sound and has a task,
    /// no two tasks share a frame, memory holds the frame of every task, and
    /// the current frame pointer names the frame of the running task, or,
    /// before the first switch, a frame of the start-up context that is none
    /// of theirs.
    pub open spec fn wf(self) -> bool {
        &&& self.sched.wf()
        &&& self.sched.tasks.len() >= 1
        &&& self.sched.frames_apart()
        &&& forall|i: int|
            0 <= i < self.sched.tasks.len() ==> self.memory.dom().contains(
                (#[trigger] self.sched.tasks[i]).frame,
            )
        &&& if self.sched.first_switch {
            forall|i: int|
                0 <= i < self.sched.tasks.len() ==> (#[trigger] self.sched.tasks[i]).frame
                    != self.current
        } else {
            self.current == self.sched.tasks[self.sched.cursor as int].frame
        }
    }

    /// Whether memory holds, for every task, the frame with which the task
    /// starts, at the address that the task table names.
    pub open spec fn seeded(self) -> bool {
        forall|i: int|
            0 <= i < self.sched.tasks.len() ==> self.memory[(
            #[trigger] self.sched.tasks[i]).frame]@ == FullTrapFrame::seed_words(
                self.sched.tasks[i].entry_point,
                self.sched.tasks[i].stack.end() as usize,
            )
    }

    /// The machine after the running context went on computing and left
    /// `registers` in the register file.
    pub open spec fn ran(self, registers: FullTrapFrame) -> Machine {
        Machine { registers, ..self }
    }

    /// The machine after the tick source raised its interrupt.
    pub open spec fn ticked(self) -> Machine {
        Machine { tick: self.tick.fired(), ..self }
    }

    /// The machine after one trap: the entry stub stores the registers at
    /// the current frame pointer, the dispatcher acknowledges the tick and
    /// switches, and the exit stub reloads the registers from the frame that
    /// the scheduler answered with.
    pub open spec fn trapped(self) -> Machine {
        let memory = self.memory.insert(self.current, self.registers);
        let next = self.sched.resumed(self.current);
        Machine {
            sched: self.sched.switched(self.current),
            tick: self.tick.written(RegWrite::IntClr),
            memory,
            current: next,
            registers: memory[next],
        }
    }

    /// The machine after the first `count` time slices of a run: in slice
    /// `k` the running context computes until it holds `registers[k]`, the
    /// tick comes, and the trap is served.
    pub open spec fn after(self, registers: Seq<FullTrapFrame>, count: nat) -> Machine
        decreases count,
    {
        if count == 0 {
            self
        } else {
            self.after(registers, (count - 1) as nat).ran(
                registers[count - 1],
            ).ticked().trapped()
        }
    }
}

/// Before the first switch the frames of the tasks lie apart: each within
/// the stack of its own task, and no two of them share a byte.
pub proof fn lemma_seeded_frames_apart(state: SchedState, a: int, b: int)
    requires
        state.wf(),
        state.first_switch,
        0 <= a < state.tasks.len(),
        0 <= b < state.tasks.len(),
        a != b,
    ensures
        state.frames_apart(),
        state.tasks[a].stack.contains(state.tasks[a].frame as int),
        state.tasks[a].stack.contains(state.tasks[a].frame + frame_bytes() - 1),
        state.tasks[a].frame + frame_bytes() <= state.tasks[b].frame || state.tasks[b].frame
            + frame_bytes() <= state.tasks[a].frame,
{
    lemma_slot_within_pool(state.stack_base, state.stack_size, state.capacity, a);
    lemma_slot_within_pool(state.stack_base, state.stack_size, state.capacity, b);
    lemma_slots_disjoint(state.stack_base, state.stack_size, state.capacity, a, b);
    assert forall|i: int, j: int|
        0 <= i < state.tasks.len() && 0 <= j < state.tasks.len() && i != j implies (
    #[trigger] state.tasks[i]).frame != (#[trigger] state.tasks[j]).frame by {
        lemma_slot_within_pool(state.stack_base, state.stack_size, state.capacity, i);
        lemma_slot_within_pool(state.stack_base, state.stack_size, state.capacity, j);
        lemma_slots_disjoint(state.stack_base, state.stack_size, state.capacity, i, j);
    }
}

/// A trap keeps what the protocol relies on. It acknowledges the tick
/// exactly once and leaves no interrupt pending, whether or not one was
/// pending before; it leaves the task table as it was; and it stores the
/// registers of the interrupted context where the current frame pointer
/// named.
pub proof fn lemma_trap_keeps_protocol(machine: Machine)
    requires
        machine.wf(),
    ensures
        machine.trapped().wf(),
        !machine.trapped().sched.first_switch,
        machine.trapped().sched.tasks == machine.sched.tasks,
        machine.trapped().sched.cursor == (machine.sched.origin() + 1) % machine.sched.tasks.len(),
        !machine.trapped().tick.pending,
        machine.trapped().tick.clears == machine.tick.clears + 1,
        machine.trapped().memory == machine.memory.insert(machine.current, machine.registers),
        machine.trapped().registers == machine.trapped().memory[machine.trapped().current],
{
    lemma_switch_keeps_table(machine.sched, machine.current);
    assert(machine.trapped().sched.tasks =~= machine.sched.tasks);
}

/// What a run keeps: the protocol's invariant and the task table. Every
/// tick of the run is acknowledged once, so that after `count` time slices
/// the pending interrupt has been cleared `count` times and none is
/// pending.
pub proof fn lemma_run_keeps_protocol(machine: Machine, registers: Seq<FullTrapFrame>, count: nat)
    requires
        machine.wf(),
    ensures
        machine.after(registers, count).wf(),
        machine.after(registers, count).sched.tasks == machine.sched.tasks,
        machine.after(registers, count).tick.clears == machine.tick.clears + count,
        count >= 1 ==> !machine.after(registers, count).tick.pending,
        count >= 1 ==> !machine.after(registers, count).sched.first_switch,
        count >= 1 ==> machine.after(registers, count).sched.cursor == (machine.sched.origin()
            + count) % machine.sched.tasks.len(),
        count >= 1 ==> machine.after(registers, count).current
            == machine.sched.tasks[machine.after(registers, count).sched.cursor as int].frame,
        machine.after(registers, count).sched == machine.sched.after(
            Seq::new(count, |k: int| machine.after(registers, k as nat).current),
            count,
        ),
    decreases count,
{
    let frames = Seq::new(count, |k: int| machine.after(registers, k as nat).current);
    if count > 0 {
        let earlier = (count - 1) as nat;
        let shorter = Seq::new(earlier, |k: int| machine.after(registers, k as nat).current);
        let before = machine.after(registers, earlier).ran(registers[count - 1]).ticked();
        lemma_run_keeps_protocol(machine, registers, earlier);
        lemma_trap_keeps_protocol(before);
        lemma_same_run(machine.sched, shorter, frames, earlier);
        if count > 1 {
            lemma_add_mod_noop_right(
                1,
                machine.sched.origin() + count - 1,
                machine.sched.tasks.len() as int,
            );
        }
    }
}

/// Two runs that agree on their first `count` frames leave the scheduler in
/// the same state after `count` switches.
proof fn lemma_same_run(state: SchedState, a: Seq<usize>, b: Seq<usize>, count: nat)
    requires
        forall|k: int| 0 <= k < count ==> a[k] == b[k],
    ensures
        state.after(a, count) == state.after(b, count),
    decreases count,
{
    if count > 0 {
        lemma_same_run(state, a, b, (count - 1) as nat);
    }
}

/// The first trap after start-up loads task 0 from the frame that was
/// prepared for it: the registers of the start-up context are stored aside
/// and never reloaded.
pub proof fn lemma_first_trap_loads_task_zero(machine: Machine)
    requires
        machine.wf(),
        machine.sched.first_switch,
    ensures
        machine.trapped().sched.cursor == 0,
        machine.trapped().current == machine.sched.tasks[0].frame,
        machine.trapped().registers == machine.memory[machine.sched.tasks[0].frame],
{
}

/// The start-up context is left for good: after the first trap the current
/// frame pointer names the frame of a task, never again the frame in which
/// the registers of the start-up context were stored.
pub proof fn lemma_start_up_context_is_left(
    machine: Machine,
    registers: Seq<FullTrapFrame>,
    count: nat,
)
    requires
        machine.wf(),
        machine.sched.first_switch,
        count >= 1,
    ensures
        machine.after(registers, count).current != machine.current,
{
    lemma_run_keeps_protocol(machine, registers, count);
}

/// Until a task has run for the first time, its frame in memory stays as it
/// was prepared.
proof fn lemma_seed_stays(machine: Machine, registers: Seq<FullTrapFrame>, count: nat, task: int)
    requires
        machine.wf(),
        machine.sched.first_switch,
        count <= task < machine.sched.tasks.len(),
    ensures
        machine.after(registers, count).memory[machine.sched.tasks[task].frame]
            == machine.memory[machine.sched.tasks[task].frame],
        count >= 1 ==> machine.after(registers, count).sched.cursor == count - 1,
    decreases count,
{
    if count > 0 {
        let n = machine.sched.tasks.len();
        let earlier = (count - 1) as nat;
        lemma_seed_stays(machine, registers, earlier, task);
        lemma_run_keeps_protocol(machine, registers, earlier);
        lemma_run_keeps_protocol(machine, registers, count);
        lemma_fundamental_div_mod_converse((n - 1 + count) as int, n as int, 1, count - 1);
    }
}

/// Every task starts from the frame that was prepared for it. When memory
/// holds the prepared frames at start-up, trap `k` of a run, for `k` below
/// the number of tasks, dispatches task `k` for the first time, and the
/// registers it loads are those of a task that has not run yet: the return
/// address is the entry point, the stack pointer the top of the task's
/// stack, and every other register is zero.
pub proof fn lemma_task_starts_from_seed(machine: Machine, registers: Seq<FullTrapFrame>, k: nat)
    requires
        machine.wf(),
        machine.sched.first_switch,
        machine.seeded(),
        k < machine.sched.tasks.len(),
    ensures
        machine.after(registers, k + 1).sched.cursor == k,
        machine.after(registers, k + 1).registers@ == FullTrapFrame::seed_words(
            machine.sched.tasks[k as int].entry_point,
            machine.sched.tasks[k as int].stack.end() as usize,
        ),
{
    let n = machine.sched.tasks.len();
    let before = machine.after(registers, k).ran(registers[k as int]).ticked();
    lemma_seed_stays(machine, registers, k, k as int);
    lemma_run_keeps_protocol(machine, registers, k);
    lemma_run_keeps_protocol(machine, registers, k + 1);
    lemma_trap_keeps_protocol(before);
    lemma_fundamental_div_mod_converse((n - 1 + k + 1) as int, n as int, 1, k as int);
    assert(machine.sched.tasks[k as int].frame == machine.after(registers, k + 1).current);
}

/// While other tasks run, the frame of the task that left first stays as it
/// was stored.
proof fn lemma_frame_stays_stored(machine: Machine, registers: Seq<FullTrapFrame>, count: nat)
    requires
        machine.wf(),
        !machine.sched.first_switch,
        1 <= count < machine.sched.tasks.len(),
        registers.len() >= 1,
    ensures
        machine.after(registers, count).memory.dom().contains(machine.current),
        machine.after(registers, count).memory[machine.current] == registers[0],
    decreases count,
{
    let n = machine.sched.tasks.len();
    if count == 1 {
        assert(machine.after(registers, 0) == machine);
    } else {
        let earlier = (count - 1) as nat;
        lemma_frame_stays_stored(machine, registers, earlier);
        lemma_run_keeps_protocol(machine, registers, earlier);
        lemma_cursor_moves_away(machine.sched.cursor, earlier, n);
    }
}

/// Context round trip. When a task is running and the table holds `n`
/// tasks, the first trap of a run stores its registers, whatever they hold;
/// the next `n - 1` traps serve the other tasks, whatever those did in
/// between; and the `n`-th trap brings the task back with every register as
/// it was stored.
pub proof fn lemma_context_round_trip(machine: Machine, registers: Seq<FullTrapFrame>)
    requires
        machine.wf(),
        !machine.sched.first_switch,
        registers.len() >= machine.sched.tasks.len(),
    ensures
        machine.after(registers, machine.sched.tasks.len()).sched.cursor == machine.sched.cursor,
        machine.after(registers, machine.sched.tasks.len()).current == machine.current,
        machine.after(registers, machine.sched.tasks.len()).registers == registers[0],
        machine.after(registers, machine.sched.tasks.len()).registers@ == registers[0]@,
{
    let n = machine.sched.tasks.len();
    let earlier = (n - 1) as nat;
    let before = machine.after(registers, earlier).ran(registers[n - 1]).ticked();
    lemma_run_keeps_protocol(machine, registers, earlier);
    lemma_run_keeps_protocol(machine, registers, n);
    lemma_trap_keeps_protocol(before);
    lemma_add_mod_noop_right(
        machine.sched.cursor as int,
        n as int,
        n as int,
    );
    lemma_mod_self_0(n as int);
    lemma_small_mod(machine.sched.cursor, n);
    if n == 1 {
        assert(machine.after(registers, 0) == machine);
    } else {
        lemma_frame_stays_stored(machine, registers, earlier);
        lemma_cursor_moves_away(machine.sched.cursor, earlier, n);
    }
}

} // verus!
