use preempt::tick::{
    acknowledge, RegWrite, TickConfig, TickError, COMPARATOR_WORK_EN, COUNTER_WORK_EN,
    DEFAULT_LINE, DEFAULT_PERIOD, DEFAULT_PRIORITY, LINE_LIMIT, PERIOD_LIMIT, PERIOD_MODE,
    PRIORITY_LIMIT,
};

#[test]
fn default_config_is_the_usual_time_slice() {
    let config = TickConfig::default();
    assert_eq!(config.period(), 20_000);
    assert_eq!(config.line(), 10);
    assert_eq!(config.priority(), 1);
    assert_eq!((DEFAULT_PERIOD, DEFAULT_LINE, DEFAULT_PRIORITY), (20_000, 10, 1));
    assert_eq!(Ok(config), TickConfig::new(20_000, 10, 1));
}

#[test]
fn config_keeps_its_choices() {
    let config = TickConfig::new(1234, 7, 15).unwrap();
    assert_eq!(config.period(), 1234);
    assert_eq!(config.line(), 7);
    assert_eq!(config.priority(), 15);
    assert!(TickConfig::new(0, 0, 0).is_ok());
    assert!(TickConfig::new(PERIOD_LIMIT - 1, LINE_LIMIT - 1, PRIORITY_LIMIT - 1).is_ok());
}

#[test]
fn config_refuses_period_that_does_not_fit() {
    assert_eq!(TickConfig::new(PERIOD_LIMIT, 10, 1), Err(TickError::PeriodOutOfRange));
    assert_eq!(TickConfig::new(u32::MAX, 10, 1), Err(TickError::PeriodOutOfRange));
    assert_eq!(TickConfig::new(0x0400_0000, 99, 99), Err(TickError::PeriodOutOfRange));
}

#[test]
fn config_refuses_unknown_line() {
    assert_eq!(TickConfig::new(20_000, 32, 1), Err(TickError::LineOutOfRange));
    assert_eq!(TickConfig::new(20_000, 255, 99), Err(TickError::LineOutOfRange));
}

#[test]
fn config_refuses_unknown_priority() {
    assert_eq!(TickConfig::new(20_000, 10, 16), Err(TickError::PriorityOutOfRange));
    assert_eq!(TickConfig::new(20_000, 31, 255), Err(TickError::PriorityOutOfRange));
}

#[test]
fn program_is_the_eleven_writes_in_order() {
    let writes = TickConfig::new(5000, 12, 3).unwrap().program();
    assert_eq!(
        writes,
        [
            RegWrite::Unit0LoadLo(0),
            RegWrite::Unit0LoadHi(0),
            RegWrite::Unit0Load,
            RegWrite::Target0Conf { period: 5000, periodic: true },
            RegWrite::Comp0Load,
            RegWrite::Conf { counter_on: true, comparator_on: true },
            RegWrite::IntClr,
            RegWrite::IntEna,
            RegWrite::Target0IntMap { line: 12 },
            RegWrite::CpuIntPri { line: 12, priority: 3 },
            RegWrite::CpuIntEnable { line: 12 },
        ]
    );
}

#[test]
fn program_of_default_config_writes_the_usual_words() {
    let words: Vec<u32> = TickConfig::default().program().iter().map(|w| w.bits()).collect();
    assert_eq!(
        words,
        vec![0, 0, 1, (1 << 30) | 20_000, 1, (1 << 24) | (1 << 30), 1, 1, 10, 1, 1 << 10]
    );
    assert_eq!(words[3], 0x4000_4e20);
    assert_eq!(words[5], 0x4100_0000);
    assert_eq!(words[10], 0x0000_0400);
}

#[test]
fn program_clears_pending_before_enabling() {
    let writes = TickConfig::default().program();
    let clear = writes.iter().position(|w| *w == RegWrite::IntClr).unwrap();
    let enable = writes.iter().position(|w| *w == RegWrite::IntEna).unwrap();
    let line = writes.iter().position(|w| matches!(w, RegWrite::CpuIntEnable { .. })).unwrap();
    assert!(clear < enable);
    assert!(enable < line);
    assert_eq!(writes.iter().filter(|w| **w == RegWrite::IntClr).count(), 1);
}

#[test]
fn comparator_word_holds_period_and_mode() {
    assert_eq!(PERIOD_MODE, 1 << 30);
    let word = RegWrite::Target0Conf { period: 20_000, periodic: true }.bits();
    assert_eq!(word & 0x03ff_ffff, 20_000);
    assert_eq!(word & PERIOD_MODE, PERIOD_MODE);
    assert_eq!(RegWrite::Target0Conf { period: 20_000, periodic: false }.bits(), 20_000);
    assert_eq!(RegWrite::Target0Conf { period: 0x03ff_ffff, periodic: true }.bits(), 0x43ff_ffff);
    assert_eq!(RegWrite::Target0Conf { period: 0, periodic: true }.bits(), 0x4000_0000);
}

#[test]
fn values_too_wide_are_cut_to_their_field() {
    assert_eq!(RegWrite::Target0Conf { period: u32::MAX, periodic: false }.bits(), 0x03ff_ffff);
    assert_eq!(RegWrite::Unit0LoadHi(0xfff0_0005).bits(), 0x0000_0005);
    assert_eq!(RegWrite::Target0IntMap { line: 42 }.bits(), 10);
    assert_eq!(RegWrite::CpuIntPri { line: 10, priority: 17 }.bits(), 1);
    assert_eq!(RegWrite::CpuIntEnable { line: 42 }.bits(), 1 << 10);
}

#[test]
fn other_words() {
    assert_eq!(RegWrite::Unit0LoadLo(0xdead_beef).bits(), 0xdead_beef);
    assert_eq!(RegWrite::Unit0LoadHi(0x000f_ffff).bits(), 0x000f_ffff);
    assert_eq!(RegWrite::Unit0Load.bits(), 1);
    assert_eq!(RegWrite::Comp0Load.bits(), 1);
    assert_eq!(RegWrite::IntClr.bits(), 1);
    assert_eq!(RegWrite::IntEna.bits(), 1);
    assert_eq!(COUNTER_WORK_EN, 1 << 30);
    assert_eq!(COMPARATOR_WORK_EN, 1 << 24);
    assert_eq!(RegWrite::Conf { counter_on: false, comparator_on: false }.bits(), 0);
    assert_eq!(RegWrite::Conf { counter_on: true, comparator_on: false }.bits(), 1 << 30);
    assert_eq!(RegWrite::Conf { counter_on: false, comparator_on: true }.bits(), 1 << 24);
    assert_eq!(RegWrite::Target0IntMap { line: 31 }.bits(), 31);
    assert_eq!(RegWrite::CpuIntPri { line: 3, priority: 15 }.bits(), 15);
    assert_eq!(RegWrite::CpuIntEnable { line: 0 }.bits(), 1);
    assert_eq!(RegWrite::CpuIntEnable { line: 31 }.bits(), 0x8000_0000);
}

#[test]
fn acknowledge_clears_the_pending_interrupt() {
    assert_eq!(acknowledge(), RegWrite::IntClr);
    assert_eq!(acknowledge().bits(), 1);
}
