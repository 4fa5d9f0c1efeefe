use std::collections::HashMap;

use preempt::frame::FullTrapFrame;
use preempt::sched::Scheduler;
use preempt::tick::RegWrite;
use preempt::trap::{start_trap_rust_full, TrapOutcome};

const POOL: usize = 0x2000_0000;
const STACK: usize = 2048;
const BOOT_FRAME: usize = 0x3fc8_0000;

/// The machine as a trap sees it: the frames in memory, the frame pointer of
/// the running context, its registers, and the pending bit of the tick
/// source with the number of times it was cleared.
struct Board<const N: usize> {
    sched: Scheduler<N>,
    memory: HashMap<usize, FullTrapFrame>,
    current: usize,
    registers: FullTrapFrame,
    pending: bool,
    clears: usize,
}

impl<const N: usize> Board<N> {
    fn boot(entries: &[usize]) -> Self {
        let mut sched = Scheduler::<N>::new(POOL, STACK).unwrap();
        sched.init_tasks(entries).unwrap();
        let mut memory = HashMap::new();
        for slot in 0..sched.task_count() {
            let task = sched.task(slot).unwrap();
            memory.insert(task.frame, task.initial_frame());
        }
        Board {
            sched,
            memory,
            current: BOOT_FRAME,
            registers: FullTrapFrame::default(),
            pending: false,
            clears: 0,
        }
    }

    fn write(&mut self, write: RegWrite) {
        if write == RegWrite::IntClr {
            assert_eq!(write.bits() & 1, 1);
            self.pending = false;
            self.clears += 1;
        }
    }

    fn tick(&mut self) -> TrapOutcome {
        self.pending = true;
        self.memory.insert(self.current, self.registers);
        let outcome = start_trap_rust_full(&mut self.sched, self.current);
        self.write(outcome.acknowledge);
        self.current = outcome.next_frame;
        self.registers = self.memory[&self.current];
        outcome
    }
}

fn pattern(seed: usize) -> FullTrapFrame {
    let mut words = [0usize; 31];
    for (k, word) in words.iter_mut().enumerate() {
        *word = seed.wrapping_mul(0x0100_0193).wrapping_add(k).rotate_left(k as u32);
    }
    FullTrapFrame::from_words(&words)
}

#[test]
fn dispatch_acknowledges_and_switches() {
    let mut sched = Scheduler::<2>::new(POOL, STACK).unwrap();
    sched.init_tasks(&[0x4200_0000, 0x4200_0100]).unwrap();
    let first = start_trap_rust_full(&mut sched, BOOT_FRAME);
    assert_eq!(first, TrapOutcome { acknowledge: RegWrite::IntClr, next_frame: POOL });
    assert_eq!(sched.current_task(), Some(0));
    let second = start_trap_rust_full(&mut sched, POOL + 0x80);
    assert_eq!(second, TrapOutcome { acknowledge: RegWrite::IntClr, next_frame: POOL + STACK });
    assert_eq!(sched.current_task(), Some(1));
    assert_eq!(sched.task(0).unwrap().frame, POOL + 0x80);
}

#[test]
fn pending_bit_is_cleared_once_per_dispatch() {
    let mut board = Board::<3>::boot(&[0x4200_0000, 0x4200_0100, 0x4200_0200]);
    for tick in 1..=20 {
        let outcome = board.tick();
        assert_eq!(outcome.acknowledge, RegWrite::IntClr);
        assert!(!board.pending);
        assert_eq!(board.clears, tick);
    }
}

#[test]
fn first_trap_loads_task_zero_from_its_seed_frame() {
    let mut board = Board::<2>::boot(&[0x4200_0000, 0x4200_0100]);
    board.registers = pattern(99);
    board.tick();
    assert_eq!(board.sched.current_task(), Some(0));
    assert_eq!(board.current, POOL);
    assert_eq!(board.registers, FullTrapFrame::for_task(0x4200_0000, POOL + STACK));
    assert_eq!(board.sched.task(0).unwrap().frame, POOL);
    assert_eq!(board.sched.task(1).unwrap().frame, POOL + STACK);
}

#[test]
fn second_task_starts_from_its_seed_frame() {
    let mut board = Board::<2>::boot(&[0x4200_0000, 0x4200_0100]);
    board.tick();
    board.registers = pattern(5);
    board.tick();
    assert_eq!(board.sched.current_task(), Some(1));
    assert_eq!(board.registers, FullTrapFrame::for_task(0x4200_0100, POOL + 2 * STACK));
}

#[test]
fn registers_come_back_bit_for_bit() {
    let mut board = Board::<4>::boot(&[0x4200_0000, 0x4200_0100, 0x4200_0200, 0x4200_0300]);
    for _ in 0..4 {
        board.tick();
    }
    assert_eq!(board.sched.current_task(), Some(3));
    let mut left_with = [FullTrapFrame::default(); 4];
    for round in 0..6 {
        for step in 0..4 {
            let running = board.sched.current_task().unwrap();
            assert_eq!(running, (3 + step) % 4);
            if round > 0 {
                assert_eq!(board.registers, left_with[running]);
                assert_eq!(board.registers.to_words(), left_with[running].to_words());
            }
            board.registers = pattern(1000 * round + running);
            left_with[running] = board.registers;
            board.tick();
        }
    }
}

#[test]
fn registers_of_single_task_come_back_at_once() {
    let mut board = Board::<1>::boot(&[0x4200_0000]);
    board.tick();
    for seed in 0..10 {
        board.registers = pattern(seed);
        board.tick();
        assert_eq!(board.registers, pattern(seed));
        assert_eq!(board.sched.current_task(), Some(0));
    }
}

#[test]
fn start_up_context_is_never_resumed() {
    let mut board = Board::<2>::boot(&[0x4200_0000, 0x4200_0100]);
    board.registers = pattern(77);
    for _ in 0..10 {
        board.tick();
        assert_ne!(board.current, BOOT_FRAME);
        assert_ne!(board.registers, pattern(77));
        board.registers = pattern(board.clears);
    }
    assert_eq!(board.memory[&BOOT_FRAME], pattern(77));
}
