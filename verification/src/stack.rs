//! The stacks of the tasks: one region of memory per slot of the task table,
//! cut from a pool that the boot layout reserves.
//!
//! Slot `i` owns the `i`-th stretch of `stack_size` bytes of the pool. A
//! task's frame lies at the base of its region and its stack grows down from
//! the top, so a region must at least hold one frame.

use vstd::prelude::*;
use crate::frame::FRAME_WORDS;

verus! {

/// Number of bytes in a machine word.
pub open spec fn word_bytes() -> nat {
    (usize::BITS / 8) as nat
}

/// Number of bytes that one trap frame occupies.
pub open spec fn frame_bytes() -> nat {
    FRAME_WORDS as nat * word_bytes()
}

/// Number of bytes that one trap frame occupies.
pub fn frame_size() -> (bytes: usize)
    ensures
        bytes == frame_bytes(),
{
    let word: usize = (usize::BITS / 8) as usize;
    FRAME_WORDS * word
}

/// A stretch of memory reserved as the stack of one task: the addresses from
/// `base` up to, but not including, `base + size`.
#[derive(Debug, Clone, Copy, PartialEq, Eq, Structural)]
pub struct StackRegion {
    pub base: usize,
    pub size: usize,
}

impl StackRegion {
    /// The region lies within the address space.
    pub open spec fn wf(&self) -> bool {
        self.base + self.size <= usize::MAX
    }

    /// The address just above the region, where an empty stack begins.
    pub open spec fn end(&self) -> int {
        self.base + self.size
    }

    /// Whether `addr` lies in the region.
    pub open spec fn contains(&self, addr: int) -> bool {
        self.base <= addr < self.end()
    }

    /// Whether the two regions share no address.
    pub open spec fn disjoint(&self, other: StackRegion) -> bool {
        self.end() <= other.base || other.end() <= self.base
    }

    /// The address just above the region, where an empty stack begins.
    pub fn top(&self) -> (top: usize)
        requires
            self.wf(),
        ensures
            top == self.end(),
    {
        self.base + self.size
    }
}

/// Whether a pool that starts at `pool_base` holds `capacity` stacks of
/// `stack_size` bytes each within the address space.
pub open spec fn pool_fits(pool_base: usize, stack_size: usize, capacity: nat) -> bool {
    pool_base + capacity * stack_size <= usize::MAX
}

/// The region of slot `slot` in a pool that starts at `pool_base` and gives
/// each slot `stack_size` bytes.
pub open spec fn slot_region(pool_base: usize, stack_size: usize, slot: int) -> StackRegion {
    StackRegion { base: (pool_base + slot * stack_size) as usize, size: stack_size }
}

/// The regions of a pool that fits the address space lie within it, one
/// after the other.
pub proof fn lemma_slot_within_pool(pool_base: usize, stack_size: usize, capacity: nat, slot: int)
    requires
        pool_fits(pool_base, stack_size, capacity),
        0 <= slot < capacity,
    ensures
        slot_region(pool_base, stack_size, slot).wf(),
        slot_region(pool_base, stack_size, slot).base == pool_base + slot * stack_size,
        slot_region(pool_base, stack_size, slot).end() == pool_base + (slot + 1) * stack_size,
        slot_region(pool_base, stack_size, slot).end() <= pool_base + capacity * stack_size,
{
    assert(0 <= slot * stack_size && (slot + 1) * stack_size == slot * stack_size + stack_size
        && (slot + 1) * stack_size <= capacity * stack_size) by (nonlinear_arith)
        requires
            0 <= slot < capacity,
            0 <= stack_size,
    ;
}

/// No two slots of a pool share an address: a task that stays within its
/// stack cannot touch the frame or the stack of another.
pub proof fn lemma_slots_disjoint(
    pool_base: usize,
    stack_size: usize,
    capacity: nat,
    a: int,
    b: int,
)
    requires
        pool_fits(pool_base, stack_size, capacity),
        0 <= a < capacity,
        0 <= b < capacity,
        a != b,
    ensures
        slot_region(pool_base, stack_size, a).disjoint(slot_region(pool_base, stack_size, b)),
{
    lemma_slot_within_pool(pool_base, stack_size, capacity, a);
    lemma_slot_within_pool(pool_base, stack_size, capacity, b);
    if a < b {
        assert((a + 1) * stack_size <= b * stack_size) by (nonlinear_arith)
            requires
                a + 1 <= b,
                0 <= stack_size,
        ;
    } else {
        assert((b + 1) * stack_size <= a * stack_size) by (nonlinear_arith)
            requires
                b + 1 <= a,
                0 <= stack_size,
        ;
    }
}

} // verus!
