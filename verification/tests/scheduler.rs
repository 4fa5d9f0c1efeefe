use preempt::sched::{SchedError, Scheduler, Task};
use preempt::stack::{frame_size, StackRegion};

const POOL: usize = 0x1000_0000;
const STACK: usize = 4096;

fn entry(k: usize) -> usize {
    0x4200_0000 + 0x100 * k
}

fn with_tasks<const N: usize>(count: usize) -> Scheduler<N> {
    let mut sched = Scheduler::<N>::new(POOL, STACK).unwrap();
    for k in 0..count {
        assert_eq!(sched.create(entry(k)), Ok(k));
    }
    sched
}

#[test]
fn new_scheduler_is_empty_and_waits_for_first_switch() {
    let sched = Scheduler::<4>::new(POOL, STACK).unwrap();
    assert_eq!(sched.capacity(), 4);
    assert_eq!(sched.task_count(), 0);
    assert!(sched.is_first_switch());
    assert_eq!(sched.current_task(), None);
    assert_eq!(sched.task(0), None);
}

#[test]
fn new_refuses_stack_smaller_than_a_frame() {
    let small = frame_size() - 1;
    assert_eq!(Scheduler::<2>::new(POOL, small).err(), Some(SchedError::StackTooSmall));
    assert_eq!(Scheduler::<2>::new(POOL, 0).err(), Some(SchedError::StackTooSmall));
    assert!(Scheduler::<2>::new(POOL, frame_size()).is_ok());
}

#[test]
fn new_refuses_pool_beyond_address_space() {
    let made = Scheduler::<2>::new(usize::MAX - 2 * STACK + 1, STACK);
    assert_eq!(made.err(), Some(SchedError::StackPoolOutOfRange));
    assert!(Scheduler::<2>::new(usize::MAX - 2 * STACK, STACK).is_ok());
    let made = Scheduler::<4>::new(0, usize::MAX / 2);
    assert_eq!(made.err(), Some(SchedError::StackPoolOutOfRange));
}

#[test]
fn small_stack_comes_before_pool_overflow() {
    let made = Scheduler::<2>::new(usize::MAX, 1);
    assert_eq!(made.err(), Some(SchedError::StackTooSmall));
}

#[test]
fn create_gives_each_task_the_stack_of_its_slot() {
    let sched = with_tasks::<3>(3);
    assert_eq!(sched.task_count(), 3);
    for k in 0..3 {
        let task = sched.task(k).unwrap();
        let base = POOL + k * STACK;
        assert_eq!(
            task,
            Task { entry_point: entry(k), stack: StackRegion { base, size: STACK }, frame: base }
        );
        assert_eq!(task.stack.top(), base + STACK);
    }
    assert_eq!(sched.task(3), None);
    assert!(sched.is_first_switch());
}

#[test]
fn initial_frame_returns_into_entry_on_empty_stack() {
    let sched = with_tasks::<2>(2);
    let frame = sched.task(1).unwrap().initial_frame();
    assert_eq!(frame.ra, entry(1));
    assert_eq!(frame.sp, POOL + 2 * STACK);
    let mut words = frame.to_words();
    words[0] = 0;
    words[30] = 0;
    assert_eq!(words, [0usize; 31]);
}

#[test]
fn create_fails_when_table_is_full_and_changes_nothing() {
    let mut sched = with_tasks::<2>(2);
    let before: Vec<Option<Task>> = (0..3).map(|k| sched.task(k)).collect();
    assert_eq!(sched.create(entry(9)), Err(SchedError::TableFull));
    assert_eq!(sched.create(entry(9)), Err(SchedError::TableFull));
    assert_eq!(sched.task_count(), 2);
    assert!(sched.is_first_switch());
    assert_eq!(sched.current_task(), None);
    let after: Vec<Option<Task>> = (0..3).map(|k| sched.task(k)).collect();
    assert_eq!(before, after);
}

#[test]
fn create_fails_at_once_with_no_capacity() {
    let mut sched = Scheduler::<0>::new(POOL, STACK).unwrap();
    assert_eq!(sched.create(entry(0)), Err(SchedError::TableFull));
    assert_eq!(sched.task_count(), 0);
}

#[test]
fn init_tasks_registers_in_order() {
    let mut sched = Scheduler::<4>::new(POOL, STACK).unwrap();
    assert_eq!(sched.init_tasks(&[entry(7), entry(3)]), Ok(()));
    assert_eq!(sched.task_count(), 2);
    assert_eq!(sched.task(0).unwrap().entry_point, entry(7));
    assert_eq!(sched.task(1).unwrap().entry_point, entry(3));
    assert_eq!(sched.task(1).unwrap().frame, POOL + STACK);
    assert!(sched.is_first_switch());
    assert_eq!(sched.init_tasks(&[]), Ok(()));
    assert_eq!(sched.task_count(), 2);
}

#[test]
fn init_tasks_registers_all_or_none() {
    let mut sched = with_tasks::<3>(1);
    let too_many = [entry(5), entry(6), entry(7)];
    assert_eq!(sched.init_tasks(&too_many), Err(SchedError::TableFull));
    assert_eq!(sched.task_count(), 1);
    assert_eq!(sched.task(1), None);
    assert_eq!(sched.init_tasks(&too_many[..2]), Ok(()));
    assert_eq!(sched.task_count(), 3);
    assert_eq!(sched.task(2).unwrap().entry_point, entry(6));
}

#[test]
fn first_switch_selects_task_zero_and_saves_nothing() {
    let mut sched = with_tasks::<3>(3);
    let before: Vec<Option<Task>> = (0..3).map(|k| sched.task(k)).collect();
    let boot_frame = 0x3fc8_0000;
    let next = sched.switch(boot_frame);
    assert_eq!(next, POOL);
    assert_eq!(sched.current_task(), Some(0));
    assert!(!sched.is_first_switch());
    let after: Vec<Option<Task>> = (0..3).map(|k| sched.task(k)).collect();
    assert_eq!(before, after);
    assert!(after.iter().all(|task| task.unwrap().frame != boot_frame));
}

#[test]
fn first_switch_selects_task_zero_whatever_was_registered_first() {
    let mut forward = Scheduler::<2>::new(POOL, STACK).unwrap();
    forward.init_tasks(&[entry(1), entry(2)]).unwrap();
    let mut backward = Scheduler::<2>::new(POOL, STACK).unwrap();
    backward.init_tasks(&[entry(2), entry(1)]).unwrap();
    assert_eq!(forward.switch(0x10), POOL);
    assert_eq!(backward.switch(0x10), POOL);
    assert_eq!(forward.current_task(), Some(0));
    assert_eq!(backward.current_task(), Some(0));
    assert_eq!(forward.task(0).unwrap().entry_point, entry(1));
    assert_eq!(backward.task(0).unwrap().entry_point, entry(2));
}

#[test]
fn later_switch_saves_frame_and_moves_to_next_task() {
    let mut sched = with_tasks::<3>(3);
    sched.switch(0x10);
    let saved = POOL + 0x700;
    let next = sched.switch(saved);
    assert_eq!(next, POOL + STACK);
    assert_eq!(sched.current_task(), Some(1));
    assert_eq!(sched.task(0).unwrap().frame, saved);
    assert_eq!(sched.task(0).unwrap().entry_point, entry(0));
    assert_eq!(sched.task(0).unwrap().stack, StackRegion { base: POOL, size: STACK });
    assert_eq!(sched.task(2).unwrap().frame, POOL + 2 * STACK);
}

#[test]
fn cursor_wraps_after_last_task() {
    let mut sched = with_tasks::<3>(3);
    sched.switch(0x10);
    sched.switch(0x20);
    sched.switch(0x30);
    assert_eq!(sched.current_task(), Some(2));
    assert_eq!(sched.switch(0x40), 0x20);
    assert_eq!(sched.current_task(), Some(0));
}

#[test]
fn two_tasks_four_ticks_dispatch_a_b_a_b() {
    let mut sched = Scheduler::<2>::new(POOL, STACK).unwrap();
    let a = sched.create(entry(0)).unwrap();
    let b = sched.create(entry(1)).unwrap();
    let mut order = Vec::new();
    let mut current = 0x3fc8_0000;
    for tick in 0..4 {
        let was_first = sched.is_first_switch();
        assert_eq!(was_first, tick == 0);
        current = sched.switch(current);
        order.push(sched.current_task().unwrap());
    }
    assert_eq!(order, vec![a, b, a, b]);
    assert_eq!(sched.task(a).unwrap().frame, POOL);
    assert_eq!(sched.task(b).unwrap().frame, POOL + STACK);
}

#[test]
fn single_task_is_dispatched_every_tick() {
    let mut sched = with_tasks::<4>(1);
    let mut current = 0x3fc8_0000;
    for _ in 0..1000 {
        current = sched.switch(current);
        assert_eq!(current, POOL);
        assert_eq!(sched.current_task(), Some(0));
    }
}

#[test]
fn single_task_gets_back_the_frame_it_was_interrupted_with() {
    let mut sched = with_tasks::<1>(1);
    sched.switch(0x10);
    assert_eq!(sched.switch(POOL + 0x400), POOL + 0x400);
    assert_eq!(sched.switch(POOL + 0x800), POOL + 0x800);
    assert_eq!(sched.current_task(), Some(0));
}

#[test]
fn every_task_gets_the_same_share() {
    for tasks in 1..=5usize {
        for rounds in 0..=4usize {
            let mut sched = with_tasks::<5>(tasks);
            let mut count = vec![0usize; tasks];
            let mut current = 0x3fc8_0000;
            for _ in 0..tasks * rounds {
                current = sched.switch(current);
                count[sched.current_task().unwrap()] += 1;
            }
            assert_eq!(count, vec![rounds; tasks]);
        }
    }
}

#[test]
fn every_task_gets_the_same_share_from_mid_rotation() {
    let mut sched = with_tasks::<3>(3);
    let mut current = 0x3fc8_0000;
    for _ in 0..5 {
        current = sched.switch(current);
    }
    assert_eq!(sched.current_task(), Some(1));
    let mut count = [0usize; 3];
    let mut order = Vec::new();
    for _ in 0..12 {
        current = sched.switch(current);
        count[sched.current_task().unwrap()] += 1;
        order.push(sched.current_task().unwrap());
    }
    assert_eq!(count, [4, 4, 4]);
    assert_eq!(&order[..4], &[2, 0, 1, 2]);
}

#[test]
fn task_comes_back_to_the_frame_it_left_with() {
    let mut sched = with_tasks::<4>(4);
    sched.switch(0x3fc8_0000);
    assert_eq!(sched.current_task(), Some(0));
    let left_with = POOL + 0xabc;
    sched.switch(left_with);
    sched.switch(0x1111_0000);
    sched.switch(0x2222_0000);
    assert_eq!(sched.current_task(), Some(3));
    assert_eq!(sched.switch(0x3333_0000), left_with);
    assert_eq!(sched.current_task(), Some(0));
}

#[test]
fn stacks_of_different_slots_do_not_overlap() {
    let sched = with_tasks::<4>(4);
    for a in 0..4 {
        for b in 0..4 {
            if a != b {
                let x = sched.task(a).unwrap().stack;
                let y = sched.task(b).unwrap().stack;
                assert!(x.top() <= y.base || y.top() <= x.base);
            }
        }
        let task = sched.task(a).unwrap();
        assert!(task.stack.base <= task.frame);
        assert!(task.frame + frame_size() <= task.stack.top());
    }
}

#[test]
fn frame_size_is_thirty_one_words() {
    assert_eq!(frame_size(), 31 * std::mem::size_of::<usize>());
}
