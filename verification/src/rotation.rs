//! Runs of switches, and what holds of every run: the tasks take turns in
//! strict rotation, each gets the same share, and a task comes back to the
//! frame with which it left.
//!
//! A run is given by the frame addresses that the entry stub hands to the
//! scheduler, one for each switch. The laws here are stated over
//! [`SchedState`], the value in which the contract of
//! [`crate::sched::Scheduler::switch`] is written, so they hold of every
//! sequence of calls of it.

use vstd::prelude::*;
use vstd::arithmetic::div_mod::{
    lemma_add_mod_noop_right,
    lemma_fundamental_div_mod,
    lemma_fundamental_div_mod_converse,
    lemma_hoist_over_denominator,
    lemma_mod_self_0,
    lemma_small_mod,
};
use crate::sched::SchedState;
use crate::stack::lemma_slot_within_pool;

verus! {

impl SchedState {
    /// The scheduler after the first `count` switches of a run in which
    /// switch `k` is handed `frames[k]`.
    pub open spec fn after(self, frames: Seq<usize>, count: nat) -> SchedState
        decreases count,
    {
        if count == 0 {
            self
        } else {
            self.after(frames, (count - 1) as nat).switched(frames[count - 1])
        }
    }

    /// Index of the task that switch `k` of the run dispatches.
    pub open spec fn dispatched(self, frames: Seq<usize>, k: nat) -> nat {
        self.after(frames, k + 1).cursor
    }

    /// The frame address that switch `k` of the run answers with.
    pub open spec fn answered(self, frames: Seq<usize>, k: nat) -> usize {
        self.after(frames, k).resumed(frames[k as int])
    }

    /// How many of the first `count` switches of the run dispatch `task`.
    pub open spec fn dispatches(self, frames: Seq<usize>, count: nat, task: nat) -> nat
        decreases count,
    {
        if count == 0 {
            0
        } else {
            let earlier = self.dispatches(frames, (count - 1) as nat, task);
            if self.dispatched(frames, (count - 1) as nat) == task {
                earlier + 1
            } else {
                earlier
            }
        }
    }

    /// Index of the task whose successor is dispatched next: the running
    /// task, or the last task of the table before the first switch.
    pub open spec fn origin(self) -> nat {
        if self.first_switch {
            (self.tasks.len() - 1) as nat
        } else {
            self.cursor
        }
    }
}

/// How many of the numbers below `bound` leave the remainder `rest` when
/// divided by `modulus`.
spec fn multiples_below(bound: int, modulus: int, rest: int) -> int {
    (bound - rest + modulus - 1) / modulus
}

/// Going one number up counts one more exactly when that number leaves the
/// remainder `rest`.
proof fn lemma_multiples_step(x: int, modulus: int, rest: int)
    requires
        0 <= x,
        0 <= rest < modulus,
    ensures
        multiples_below(x + 1, modulus, rest) == multiples_below(x, modulus, rest) + if x % modulus
            == rest {
            1int
        } else {
            0int
        },
{
    let q = x / modulus;
    let r = x % modulus;
    lemma_fundamental_div_mod(x, modulus);
    assert(modulus * q == q * modulus) by (nonlinear_arith);
    assert((q + 1) * modulus == q * modulus + modulus) by (nonlinear_arith);
    let low = x - rest + modulus - 1;
    if r == rest {
        lemma_fundamental_div_mod_converse(low, modulus, q, modulus - 1);
        lemma_fundamental_div_mod_converse(low + 1, modulus, q + 1, 0);
    } else if r > rest {
        lemma_fundamental_div_mod_converse(low, modulus, q + 1, r - rest - 1);
        lemma_fundamental_div_mod_converse(low + 1, modulus, q + 1, r - rest);
    } else {
        lemma_fundamental_div_mod_converse(low, modulus, q, r - rest + modulus - 1);
        lemma_fundamental_div_mod_converse(low + 1, modulus, q, r - rest + modulus);
    }
}

/// A switch keeps the invariant, the number of tasks, and of each task its
/// entry point and its stack. It clears the first-switch flag.
pub proof fn lemma_switch_keeps_table(state: SchedState, current_frame: usize)
    requires
        state.wf(),
        state.tasks.len() >= 1,
    ensures
        state.switched(current_frame).wf(),
        !state.switched(current_frame).first_switch,
        state.switched(current_frame).tasks.len() == state.tasks.len(),
        state.switched(current_frame).cursor == (state.origin() + 1) % state.tasks.len(),
        forall|i: int|
            0 <= i < state.tasks.len() ==> {
                &&& (#[trigger] state.switched(current_frame).tasks[i]).entry_point
                    == state.tasks[i].entry_point
                &&& state.switched(current_frame).tasks[i].stack == state.tasks[i].stack
            },
{
    let n = state.tasks.len() as int;
    if state.first_switch {
        lemma_mod_self_0(n);
    }
}

/// What a run keeps and where it leaves the cursor: after `count` switches,
/// one at least, the cursor has gone `count` places round the table from
/// where it began, and the table still holds the same tasks on the same
/// stacks.
pub proof fn lemma_rotation(state: SchedState, frames: Seq<usize>, count: nat)
    requires
        state.wf(),
        state.tasks.len() >= 1,
    ensures
        state.after(frames, count).wf(),
        state.after(frames, count).tasks.len() == state.tasks.len(),
        count >= 1 ==> !state.after(frames, count).first_switch,
        count >= 1 ==> state.after(frames, count).cursor == (state.origin() + count)
            % state.tasks.len(),
        forall|i: int|
            0 <= i < state.tasks.len() ==> {
                &&& (#[trigger] state.after(frames, count).tasks[i]).entry_point
                    == state.tasks[i].entry_point
                &&& state.after(frames, count).tasks[i].stack == state.tasks[i].stack
            },
    decreases count,
{
    if count > 0 {
        let before = state.after(frames, (count - 1) as nat);
        let n = state.tasks.len() as int;
        lemma_rotation(state, frames, (count - 1) as nat);
        lemma_switch_keeps_table(before, frames[count - 1]);
        if count > 1 {
            lemma_add_mod_noop_right(1, state.origin() + count - 1, n);
        }
    }
}

/// The first switch after start-up dispatches task 0, whatever the tasks
/// and whatever frame it is handed: it answers with the frame at the base of
/// the first stack of the pool, and it stores nothing in the table.
pub proof fn lemma_first_switch_selects_task_zero(state: SchedState, current_frame: usize)
    requires
        state.wf(),
        state.tasks.len() >= 1,
        state.first_switch,
    ensures
        state.switched(current_frame).cursor == 0,
        state.switched(current_frame).tasks == state.tasks,
        state.resumed(current_frame) == state.tasks[0].frame,
        state.resumed(current_frame) == state.stack_base,
{
    lemma_slot_within_pool(state.stack_base, state.stack_size, state.capacity, 0);
    assert(state.tasks[0].stack.base == state.stack_base);
}

/// Strict rotation: switch `k` of a run dispatches the task `k + 1` places
/// round the table from where the run began. From start-up that is task
/// `k` modulo the number of tasks.
pub proof fn lemma_dispatch_order(state: SchedState, frames: Seq<usize>, k: nat)
    requires
        state.wf(),
        state.tasks.len() >= 1,
    ensures
        state.dispatched(frames, k) == (state.origin() + 1 + k) % state.tasks.len(),
        state.first_switch ==> state.dispatched(frames, k) == k % state.tasks.len(),
{
    let n = state.tasks.len() as int;
    lemma_rotation(state, frames, k + 1);
    if state.first_switch {
        lemma_add_mod_noop_right(k as int, n, n);
        lemma_mod_self_0(n);
    }
}

/// The number of dispatches of a task among the first `count` switches of a
/// run, in closed form.
proof fn lemma_dispatches_closed_form(state: SchedState, frames: Seq<usize>, count: nat, task: nat)
    requires
        state.wf(),
        state.tasks.len() >= 1,
        task < state.tasks.len(),
    ensures
        state.dispatches(frames, count, task) == multiples_below(
            (state.origin() + 1 + count) as int,
            state.tasks.len() as int,
            task as int,
        ) - multiples_below((state.origin() + 1) as int, state.tasks.len() as int, task as int),
    decreases count,
{
    if count > 0 {
        let n = state.tasks.len() as int;
        lemma_dispatches_closed_form(state, frames, (count - 1) as nat, task);
        lemma_dispatch_order(state, frames, (count - 1) as nat);
        lemma_multiples_step((state.origin() + count) as int, n, task as int);
    }
}

/// Round-robin fairness: in a run whose number of switches is a multiple of
/// the number of tasks, every task is dispatched equally often, that is the
/// number of switches divided by the number of tasks.
pub proof fn lemma_round_robin_fairness(state: SchedState, frames: Seq<usize>, task: nat)
    requires
        state.wf(),
        state.tasks.len() >= 1,
        task < state.tasks.len(),
        frames.len() % state.tasks.len() == 0,
    ensures
        state.dispatches(frames, frames.len(), task) == frames.len() / state.tasks.len(),
{
    let n = state.tasks.len() as int;
    let m = frames.len() as int;
    let rounds = m / n;
    lemma_dispatches_closed_form(state, frames, frames.len(), task);
    lemma_fundamental_div_mod(m, n);
    assert(rounds * n == n * rounds) by (nonlinear_arith);
    lemma_hoist_over_denominator(state.origin() + 1 - task + n - 1, rounds, n as nat);
}

/// With a single task every switch dispatches that task: the cursor never
/// leaves index 0.
pub proof fn lemma_single_task_keeps_cursor(state: SchedState, frames: Seq<usize>, count: nat)
    requires
        state.wf(),
        state.tasks.len() == 1,
    ensures
        state.after(frames, count).cursor == 0,
{
    lemma_rotation(state, frames, count);
}

/// A task comes back to its own frame. When a task is running and the
/// table holds `n` tasks, the first switch of a run takes it off the
/// processor and stores `frames[0]` for it; the next `n - 1` switches go to
/// the other tasks and leave that slot alone, whatever frames they are
/// handed; and the `n`-th switch dispatches the task again and answers with
/// `frames[0]`.
pub proof fn lemma_frame_round_trip(state: SchedState, frames: Seq<usize>)
    requires
        state.wf(),
        state.tasks.len() >= 1,
        !state.first_switch,
        frames.len() >= state.tasks.len(),
    ensures
        forall|k: nat|
            k + 1 < state.tasks.len() ==> #[trigger] state.dispatched(frames, k) != state.cursor,
        state.dispatched(frames, (state.tasks.len() - 1) as nat) == state.cursor,
        state.answered(frames, (state.tasks.len() - 1) as nat) == frames[0],
{
    let n = state.tasks.len();
    assert forall|k: nat| k + 1 < n implies #[trigger] state.dispatched(frames, k)
        != state.cursor by {
        lemma_dispatch_order(state, frames, k);
        lemma_cursor_moves_away(state.cursor, k + 1, n);
    }
    lemma_dispatch_order(state, frames, (n - 1) as nat);
    lemma_add_mod_noop_right(state.cursor as int, n as int, n as int);
    lemma_mod_self_0(n as int);
    lemma_small_mod(state.cursor, n);
    if n == 1 {
        assert(state.after(frames, 0) == state);
    } else {
        lemma_frame_is_kept(state, frames, (n - 1) as nat);
        lemma_rotation(state, frames, (n - 1) as nat);
        lemma_cursor_moves_away(state.cursor, (n - 1) as nat, n);
        lemma_add_mod_noop_right(1, state.cursor + n - 1, n as int);
    }
}

/// Going fewer places round the table than it has tasks does not lead back
/// to the place where one began.
pub proof fn lemma_cursor_moves_away(cursor: nat, places: nat, n: nat)
    requires
        cursor < n,
        0 < places < n,
    ensures
        (cursor + places) % n != cursor,
{
    if cursor + places < n {
        lemma_small_mod(cursor + places, n);
    } else {
        lemma_fundamental_div_mod_converse(
            (cursor + places) as int,
            n as int,
            1,
            cursor + places - n,
        );
    }
}

/// While the other tasks run, the frame stored for the task that left first
/// stays in its slot.
proof fn lemma_frame_is_kept(state: SchedState, frames: Seq<usize>, count: nat)
    requires
        state.wf(),
        state.tasks.len() >= 1,
        !state.first_switch,
        1 <= count < state.tasks.len(),
    ensures
        state.after(frames, count).tasks[state.cursor as int].frame == frames[0],
    decreases count,
{
    let n = state.tasks.len();
    if count == 1 {
        assert(state.after(frames, 0) == state);
    } else {
        lemma_frame_is_kept(state, frames, (count - 1) as nat);
        lemma_rotation(state, frames, (count - 1) as nat);
        lemma_cursor_moves_away(state.cursor, (count - 1) as nat, n);
    }
}

} // verus!
