//! The scheduler: a table of tasks of fixed capacity, the cursor that names
//! the running task, and the flag that marks the first switch.
//!
//! A switch never copies registers. The trap entry stub has stored the
//! interrupted task's registers in a frame and hands over that frame's
//! address; the scheduler keeps the address in the outgoing task's slot and
//! answers with the address kept for the incoming task, which the exit stub
//! then reloads. Tasks take turns in the order of their registration.

use vstd::prelude::*;
use crate::frame::FullTrapFrame;
use crate::stack::{frame_bytes, frame_size, lemma_slot_within_pool, pool_fits, slot_region, StackRegion};

verus! {

/// Why the scheduler refused a configuration.
#[derive(Debug, Clone, Copy, PartialEq, Eq, Structural)]
pub enum SchedError {
    /// A stack of the pool is too small to hold one trap frame.
    StackTooSmall,
    /// The pool of stacks reaches beyond the end of the address space.
    StackPoolOutOfRange,
    /// Every slot of the task table is taken.
    TableFull,
}

/// One entry of the task table.
#[derive(Debug, Clone, Copy, PartialEq, Eq, Structural)]
pub struct Task {
    /// Address of the function that the task runs.
    pub entry_point: usize,
    /// The task's own stack.
    pub stack: StackRegion,
    /// Address of the frame that was last stored for the task.
    pub frame: usize,
}

impl Task {
    /// The entry of a task that has not run yet: its frame lies at the base
    /// of its stack.
    pub open spec fn seeded(entry_point: usize, stack: StackRegion) -> Task {
        Task { entry_point, stack, frame: stack.base }
    }

    /// The same task with `frame` as its stored frame.
    pub open spec fn with_frame(self, frame: usize) -> Task {
        Task { frame, ..self }
    }

    /// The frame with which the task starts: it returns into the entry point
    /// on an empty stack.
    pub fn initial_frame(&self) -> (frame: FullTrapFrame)
        requires
            self.stack.wf(),
        ensures
            frame@ == FullTrapFrame::seed_words(self.entry_point, self.stack.end() as usize),
    {
        FullTrapFrame::for_task(self.entry_point, self.stack.top())
    }
}

/// The scheduler as a mathematical value: what its operations are stated
/// over.
pub struct SchedState {
    /// Address at which the pool of stacks begins.
    pub stack_base: usize,
    /// Number of bytes of each stack.
    pub stack_size: usize,
    /// Number of slots of the task table.
    pub capacity: nat,
    /// The registered tasks, in the order of their registration.
    pub tasks: Seq<Task>,
    /// Index of the running task, once the first switch has happened.
    pub cursor: nat,
    /// Whether no task has run yet.
    pub first_switch: bool,
}

impl SchedState {
    /// The scheduler before any task is registered.
    pub open spec fn boot(stack_base: usize, stack_size: usize, capacity: nat) -> SchedState {
        SchedState {
            stack_base,
            stack_size,
            capacity,
            tasks: Seq::empty(),
            cursor: 0,
            first_switch: true,
        }
    }

    /// What holds of every scheduler: the stacks hold a frame and lie in the
    /// address space, the table is within its capacity, the cursor names a
    /// task, each task owns the stack of its slot, and until the first
    /// switch each frame lies at the base of its stack.
    pub open spec fn wf(self) -> bool {
        &&& frame_bytes() <= self.stack_size
        &&& pool_fits(self.stack_base, self.stack_size, self.capacity)
        &&& self.tasks.len() <= self.capacity
        &&& (self.tasks.len() == 0 ==> self.cursor == 0)
        &&& (self.tasks.len() > 0 ==> self.cursor < self.tasks.len())
        &&& forall|i: int|
            0 <= i < self.tasks.len() ==> (#[trigger] self.tasks[i]).stack == slot_region(
                self.stack_base,
                self.stack_size,
                i,
            )
        &&& self.first_switch ==> forall|i: int|
            0 <= i < self.tasks.len() ==> (#[trigger] self.tasks[i]).frame
                == self.tasks[i].stack.base
    }

    /// The scheduler after `entry_point` was registered in the next free
    /// slot.
    pub open spec fn with_task(self, entry_point: usize) -> SchedState {
        SchedState {
            tasks: self.tasks.push(
                Task::seeded(
                    entry_point,
                    slot_region(self.stack_base, self.stack_size, self.tasks.len() as int),
                ),
            ),
            ..self
        }
    }

    /// The scheduler after the entry points were registered one by one.
    pub open spec fn with_tasks(self, entry_points: Seq<usize>) -> SchedState
        decreases entry_points.len(),
    {
        if entry_points.len() == 0 {
            self
        } else {
            self.with_tasks(entry_points.drop_last()).with_task(entry_points.last())
        }
    }

    /// Index of the task that the next switch dispatches: task 0 at the
    /// first switch, the successor of the running task afterwards.
    pub open spec fn incoming(self) -> nat {
        if self.first_switch {
            0
        } else {
            (self.cursor + 1) % self.tasks.len()
        }
    }

    /// The scheduler after a switch that was handed `current_frame`. The
    /// first switch stores nothing; every later one stores the address in
    /// the slot of the task that is switched out.
    pub open spec fn switched(self, current_frame: usize) -> SchedState {
        SchedState {
            tasks: if self.first_switch {
                self.tasks
            } else {
                self.tasks.update(
                    self.cursor as int,
                    self.tasks[self.cursor as int].with_frame(current_frame),
                )
            },
            cursor: self.incoming(),
            first_switch: false,
            ..self
        }
    }

    /// The frame address that a switch handed `current_frame` answers with:
    /// the one stored for the incoming task.
    pub open spec fn resumed(self, current_frame: usize) -> usize {
        self.switched(current_frame).tasks[self.incoming() as int].frame
    }
}

/// A round-robin scheduler for at most `N` tasks.
pub struct Scheduler<const N: usize> {
    stack_base: usize,
    stack_size: usize,
    tasks: [Task; N],
    count: usize,
    cursor: usize,
    first_switch: bool,
}

impl<const N: usize> Scheduler<N> {
    /// The scheduler as a mathematical value.
    pub closed spec fn view(&self) -> SchedState {
        SchedState {
            stack_base: self.stack_base,
            stack_size: self.stack_size,
            capacity: N as nat,
            tasks: self.tasks@.take(self.count as int),
            cursor: self.cursor as nat,
            first_switch: self.first_switch,
        }
    }

    /// The invariant of the scheduler: it holds of every scheduler that the
    /// functions below hand out or are handed.
    #[verifier::type_invariant]
    closed spec fn inv(&self) -> bool {
        &&& self.count <= N
        &&& self@.wf()
    }

    /// A scheduler without tasks over the pool of `N` stacks of `stack_size`
    /// bytes that begins at `stack_base`. It is refused if a stack cannot
    /// hold a frame, or else if the pool does not fit in the address space.
    pub fn new(stack_base: usize, stack_size: usize) -> (made: Result<Self, SchedError>)
        ensures
            match made {
                Ok(sched) => {
                    &&& frame_bytes() <= stack_size
                    &&& pool_fits(stack_base, stack_size, N as nat)
                    &&& sched@ == SchedState::boot(stack_base, stack_size, N as nat)
                    &&& sched@.wf()
                },
                Err(SchedError::StackTooSmall) => stack_size < frame_bytes(),
                Err(SchedError::StackPoolOutOfRange) => {
                    &&& frame_bytes() <= stack_size
                    &&& !pool_fits(stack_base, stack_size, N as nat)
                },
                Err(SchedError::TableFull) => false,
            },
    {
        if stack_size < frame_size() {
            return Err(SchedError::StackTooSmall);
        }
        let end = match N.checked_mul(stack_size) {
            Some(pool_bytes) => stack_base.checked_add(pool_bytes),
            None => None,
        };
        if end.is_none() {
            return Err(SchedError::StackPoolOutOfRange);
        }
        let vacant = Task { entry_point: 0, stack: StackRegion { base: 0, size: 0 }, frame: 0 };
        let tasks = [vacant; N];
        assert(tasks@.take(0) =~= Seq::<Task>::empty());
        Ok(Scheduler { stack_base, stack_size, tasks, count: 0, cursor: 0, first_switch: true })
    }

    /// Number of slots of the task table.
    pub fn capacity(&self) -> (capacity: usize)
        ensures
            capacity == self@.capacity,
            capacity == N,
    {
        N
    }

    /// Number of registered tasks. The scheduler at hand is sound, as every
    /// scheduler is.
    pub fn task_count(&self) -> (count: usize)
        ensures
            count == self@.tasks.len(),
            self@.wf(),
            self@.capacity == N,
    {
        proof {
            use_type_invariant(self);
        }
        self.count
    }

    /// Whether no task has run yet, so that the next switch is the first.
    pub fn is_first_switch(&self) -> (first: bool)
        ensures
            first == self@.first_switch,
    {
        self.first_switch
    }

    /// Index of the running task; none before the first switch.
    pub fn current_task(&self) -> (current: Option<usize>)
        ensures
            current == if self@.first_switch {
                None
            } else {
                Some(self@.cursor as usize)
            },
    {
        if self.first_switch {
            None
        } else {
            Some(self.cursor)
        }
    }

    /// The entry of the task table at `slot`, if a task is registered there.
    pub fn task(&self, slot: usize) -> (entry: Option<Task>)
        ensures
            entry == if slot < self@.tasks.len() {
                Some(self@.tasks[slot as int])
            } else {
                None
            },
            entry matches Some(task) ==> task.stack.wf(),
    {
        proof {
            use_type_invariant(self);
        }
        if slot < self.count {
            proof {
                lemma_slot_within_pool(self.stack_base, self.stack_size, N as nat, slot as int);
                assert(self@.tasks[slot as int] == self.tasks@[slot as int]);
            }
            Some(self.tasks[slot])
        } else {
            None
        }
    }

    /// Registers `entry_point` in the next free slot, with the stack of that
    /// slot and a frame at the base of it, and answers with the slot. When
    /// the table is full the scheduler is left as it was. Tasks are
    /// registered during start-up only, before the first switch.
    pub fn create(&mut self, entry_point: usize) -> (made: Result<usize, SchedError>)
        requires
            old(self)@.first_switch,
        ensures
            final(self)@.wf(),
            match made {
                Ok(slot) => {
                    &&& old(self)@.tasks.len() < N
                    &&& slot == old(self)@.tasks.len()
                    &&& final(self)@ == old(self)@.with_task(entry_point)
                },
                Err(e) => {
                    &&& e == SchedError::TableFull
                    &&& old(self)@.tasks.len() == N
                    &&& *final(self) == *old(self)
                },
            },
    {
        proof {
            use_type_invariant(&*self);
        }
        if self.count >= N {
            return Err(SchedError::TableFull);
        }
        let slot: usize = self.count;
        proof {
            lemma_slot_within_pool(self.stack_base, self.stack_size, N as nat, slot as int);
        }
        let base: usize = self.stack_base + slot * self.stack_size;
        let task = Task { entry_point, stack: StackRegion { base, size: self.stack_size }, frame: base };
        assert(self.tasks@.update(slot as int, task).take(slot as int) =~= self@.tasks);
        self.tasks[slot] = task;
        assert(self.tasks@.take(slot + 1) =~= old(self)@.with_task(entry_point).tasks);
        self.count = slot + 1;
        assert(self@.tasks =~= old(self)@.with_task(entry_point).tasks);
        Ok(slot)
    }

    /// Registers the entry points in their order, all of them or, when the
    /// free slots do not suffice, none.
    pub fn init_tasks(&mut self, entry_points: &[usize]) -> (made: Result<(), SchedError>)
        requires
            old(self)@.first_switch,
        ensures
            final(self)@.wf(),
            match made {
                Ok(()) => {
                    &&& old(self)@.tasks.len() + entry_points@.len() <= N
                    &&& final(self)@ == old(self)@.with_tasks(entry_points@)
                },
                Err(e) => {
                    &&& e == SchedError::TableFull
                    &&& old(self)@.tasks.len() + entry_points@.len() > N
                    &&& *final(self) == *old(self)
                },
            },
    {
        proof {
            use_type_invariant(&*self);
        }
        if entry_points.len() > N - self.count {
            return Err(SchedError::TableFull);
        }
        let mut i: usize = 0;
        while i < entry_points.len()
            invariant
                i <= entry_points@.len(),
                old(self)@.tasks.len() + entry_points@.len() <= N,
                old(self)@.first_switch,
                self@ == old(self)@.with_tasks(entry_points@.take(i as int)),
            decreases entry_points@.len() - i,
        {
            proof {
                lemma_with_tasks(old(self)@, entry_points@.take(i as int));
                assert(entry_points@.take(i + 1).drop_last() =~= entry_points@.take(i as int));
            }
            let made = self.create(entry_points[i]);
            assert(made is Ok);
            i = i + 1;
        }
        proof {
            use_type_invariant(&*self);
            assert(entry_points@.take(i as int) =~= entry_points@);
        }
        Ok(())
    }

    /// Hands the processor to the next task. `current_frame_ptr` is the
    /// address of the frame that the entry stub stored for the interrupted
    /// context; the answer is the address of the frame to reload.
    ///
    /// The first switch stores nothing and answers with the frame of task 0:
    /// the start-up context is left for good. Every later switch stores the
    /// address in the slot of the running task, moves the cursor to the next
    /// task, after the last one to the first, and answers with the address
    /// stored for that task.
    pub fn switch(&mut self, current_frame_ptr: usize) -> (next_frame_ptr: usize)
        requires
            old(self)@.tasks.len() >= 1,
        ensures
            final(self)@.wf(),
            final(self)@ == old(self)@.switched(current_frame_ptr),
            next_frame_ptr == old(self)@.resumed(current_frame_ptr),
            old(self)@.first_switch ==> {
                &&& final(self)@.cursor == 0
                &&& final(self)@.tasks == old(self)@.tasks
                &&& next_frame_ptr == old(self)@.tasks[0].frame
            },
            !final(self)@.first_switch,
            next_frame_ptr == final(self)@.tasks[final(self)@.cursor as int].frame,
    {
        proof {
            use_type_invariant(&*self);
        }
        if self.first_switch {
            self.first_switch = false;
            self.cursor = 0;
        } else {
            let outgoing: usize = self.cursor;
            let next: usize = (outgoing + 1) % self.count;
            assert(self.tasks@.update(
                outgoing as int,
                self.tasks@[outgoing as int].with_frame(current_frame_ptr),
            ).take(self.count as int) =~= self@.switched(current_frame_ptr).tasks);
            self.tasks[outgoing].frame = current_frame_ptr;
            self.cursor = next;
        }
        assert(self@.tasks =~= old(self)@.switched(current_frame_ptr).tasks);
        self.tasks[self.cursor].frame
    }
}

/// Registering entry points one by one adds one task for each, and leaves
/// the first switch to come.
pub proof fn lemma_with_tasks(state: SchedState, entry_points: Seq<usize>)
    ensures
        state.with_tasks(entry_points).tasks.len() == state.tasks.len() + entry_points.len(),
        state.with_tasks(entry_points).first_switch == state.first_switch,
    decreases entry_points.len(),
{
    if entry_points.len() > 0 {
        lemma_with_tasks(state, entry_points.drop_last());
    }
}

} // verus!
