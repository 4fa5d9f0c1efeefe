//! The trap frame: the snapshot of a task's registers that the trap entry
//! stub stores and the exit stub reloads.
//!
//! The stub moves the registers as a block of machine words in one fixed
//! order. That order is the frame's view, and the conversions to and from a
//! word block are proved to follow it, so that a frame written by one side
//! and read by the other carries every register back to where it came from.

use vstd::prelude::*;

verus! {

/// Number of machine words in a trap frame.
pub const FRAME_WORDS: usize = 31;

/// Position of the return address in the word block.
pub const RA_SLOT: usize = 0;

/// Position of the stack pointer in the word block.
pub const SP_SLOT: usize = 30;

/// Registers saved in the trap handler, in the order in which the entry stub
/// stores them.
#[derive(Debug, Clone, Copy, PartialEq, Eq, Structural)]
pub struct FullTrapFrame {
    pub ra: usize,
    pub t0: usize,
    pub t1: usize,
    pub t2: usize,
    pub t3: usize,
    pub t4: usize,
    pub t5: usize,
    pub t6: usize,
    pub a0: usize,
    pub a1: usize,
    pub a2: usize,
    pub a3: usize,
    pub a4: usize,
    pub a5: usize,
    pub a6: usize,
    pub a7: usize,
    pub s0: usize,
    pub s1: usize,
    pub s2: usize,
    pub s3: usize,
    pub s4: usize,
    pub s5: usize,
    pub s6: usize,
    pub s7: usize,
    pub s8: usize,
    pub s9: usize,
    pub s10: usize,
    pub s11: usize,
    pub gp: usize,
    pub tp: usize,
    pub sp: usize,
}

impl FullTrapFrame {
    /// The frame as the stub sees it: its words, first stored first.
    pub open spec fn view(&self) -> Seq<usize> {
        seq![
            self.ra, self.t0, self.t1, self.t2, self.t3, self.t4, self.t5, self.t6,
            self.a0, self.a1, self.a2, self.a3, self.a4, self.a5, self.a6, self.a7,
            self.s0, self.s1, self.s2, self.s3, self.s4, self.s5, self.s6, self.s7,
            self.s8, self.s9, self.s10, self.s11, self.gp, self.tp, self.sp,
        ]
    }

    /// The words of the frame with which a task starts: the return address
    /// is its entry point, the stack pointer the top of its stack, and every
    /// other register is zero.
    pub open spec fn seed_words(entry_point: usize, stack_top: usize) -> Seq<usize> {
        Seq::new(
            FRAME_WORDS as nat,
            |i: int|
                if i == RA_SLOT {
                    entry_point
                } else if i == SP_SLOT {
                    stack_top
                } else {
                    0usize
                },
        )
    }

    /// The frame of a task that has not run yet.
    pub fn for_task(entry_point: usize, stack_top: usize) -> (frame: Self)
        ensures
            frame@ == Self::seed_words(entry_point, stack_top),
            frame.ra == entry_point,
            frame.sp == stack_top,
    {
        let frame = FullTrapFrame {
            ra: entry_point,
            t0: 0,
            t1: 0,
            t2: 0,
            t3: 0,
            t4: 0,
            t5: 0,
            t6: 0,
            a0: 0,
            a1: 0,
            a2: 0,
            a3: 0,
            a4: 0,
            a5: 0,
            a6: 0,
            a7: 0,
            s0: 0,
            s1: 0,
            s2: 0,
            s3: 0,
            s4: 0,
            s5: 0,
            s6: 0,
            s7: 0,
            s8: 0,
            s9: 0,
            s10: 0,
            s11: 0,
            gp: 0,
            tp: 0,
            sp: stack_top,
        };
        assert(frame@ =~= Self::seed_words(entry_point, stack_top));
        frame
    }

    /// The word block that the entry stub stores for this frame.
    pub fn to_words(&self) -> (words: [usize; 31])
        ensures
            words@ == self@,
    {
        let words: [usize; 31] = [
            self.ra, self.t0, self.t1, self.t2, self.t3, self.t4, self.t5, self.t6,
            self.a0, self.a1, self.a2, self.a3, self.a4, self.a5, self.a6, self.a7,
            self.s0, self.s1, self.s2, self.s3, self.s4, self.s5, self.s6, self.s7,
            self.s8, self.s9, self.s10, self.s11, self.gp, self.tp, self.sp,
        ];
        assert(words@ =~= self@);
        words
    }

    /// The frame that the exit stub reloads from a word block.
    pub fn from_words(words: &[usize; 31]) -> (frame: Self)
        ensures
            frame@ == words@,
    {
        let frame = FullTrapFrame {
            ra: words[0],
            t0: words[1],
            t1: words[2],
            t2: words[3],
            t3: words[4],
            t4: words[5],
            t5: words[6],
            t6: words[7],
            a0: words[8],
            a1: words[9],
            a2: words[10],
            a3: words[11],
            a4: words[12],
            a5: words[13],
            a6: words[14],
            a7: words[15],
            s0: words[16],
            s1: words[17],
            s2: words[18],
            s3: words[19],
            s4: words[20],
            s5: words[21],
            s6: words[22],
            s7: words[23],
            s8: words[24],
            s9: words[25],
            s10: words[26],
            s11: words[27],
            gp: words[28],
            tp: words[29],
            sp: words[30],
        };
        assert(frame@ =~= words@);
        frame
    }
}

impl Default for FullTrapFrame {
    /// The frame with every register zero.
    fn default() -> (frame: Self)
        ensures
            frame@ == FullTrapFrame::seed_words(0, 0),
    {
        FullTrapFrame::for_task(0, 0)
    }
}

/// A frame has as many words as the stub stores.
pub proof fn lemma_frame_length(frame: FullTrapFrame)
    ensures
        frame@.len() == FRAME_WORDS,
{
}

/// Two frames with the same words are the same frame: the word block loses
/// no register.
pub proof fn lemma_words_determine_frame(a: FullTrapFrame, b: FullTrapFrame)
    requires
        a@ == b@,
    ensures
        a == b,
{
    assert(a@[0] == b@[0] && a@[1] == b@[1] && a@[2] == b@[2] && a@[3] == b@[3]);
    assert(a@[4] == b@[4] && a@[5] == b@[5] && a@[6] == b@[6] && a@[7] == b@[7]);
    assert(a@[8] == b@[8] && a@[9] == b@[9] && a@[10] == b@[10] && a@[11] == b@[11]);
    assert(a@[12] == b@[12] && a@[13] == b@[13] && a@[14] == b@[14] && a@[15] == b@[15]);
    assert(a@[16] == b@[16] && a@[17] == b@[17] && a@[18] == b@[18] && a@[19] == b@[19]);
    assert(a@[20] == b@[20] && a@[21] == b@[21] && a@[22] == b@[22] && a@[23] == b@[23]);
    assert(a@[24] == b@[24] && a@[25] == b@[25] && a@[26] == b@[26] && a@[27] == b@[27]);
    assert(a@[28] == b@[28] && a@[29] == b@[29] && a@[30] == b@[30]);
}

} // verus!
