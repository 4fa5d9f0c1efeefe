//! The tick source: a free-running counter whose comparator raises an
//! interrupt once every period, routed to one line of the core's interrupt
//! controller.
//!
//! The library decides what is written to the hardware and in which order;
//! the writes themselves are made by whoever owns the registers. A write is
//! a value of [`RegWrite`], and [`RegWrite::bits`] gives the word that goes
//! into the register. [`TickState`] says what each write does to the tick
//! source, and the laws at the end of this file are proved over it.

use vstd::prelude::*;

verus! {

/// Number of counter ticks between two interrupts unless chosen otherwise.
pub const DEFAULT_PERIOD: u32 = 20_000;

/// Line of the interrupt controller that carries the tick unless chosen
/// otherwise.
pub const DEFAULT_LINE: u8 = 10;

/// Priority of that line unless chosen otherwise.
pub const DEFAULT_PRIORITY: u8 = 1;

/// One above the longest period that the comparator holds: the period field
/// is 26 bits wide.
pub const PERIOD_LIMIT: u32 = 0x0400_0000;

/// Number of lines of the interrupt controller.
pub const LINE_LIMIT: u8 = 32;

/// One above the highest priority of a line.
pub const PRIORITY_LIMIT: u8 = 16;

/// One above the highest value of the upper word of the counter, which has
/// 52 bits in all.
pub const LOAD_HIGH_LIMIT: u32 = 0x0010_0000;

/// Bit of the comparator's configuration that makes it fire periodically.
pub const PERIOD_MODE: u32 = 0x4000_0000;

/// Bit of the timer's configuration that lets the comparator work.
pub const COMPARATOR_WORK_EN: u32 = 0x0100_0000;

/// Bit of the timer's configuration that lets the counter run.
pub const COUNTER_WORK_EN: u32 = 0x4000_0000;

/// One write to a register of the tick source or of the interrupt
/// controller.
#[derive(Debug, Clone, Copy, PartialEq, Eq, Structural)]
pub enum RegWrite {
    /// Stage the lower word of the counter's start value.
    Unit0LoadLo(u32),
    /// Stage the upper word of the counter's start value.
    Unit0LoadHi(u32),
    /// Make the counter take the staged start value.
    Unit0Load,
    /// Stage the comparator's period, and whether it repeats.
    Target0Conf { period: u32, periodic: bool },
    /// Make the comparator take the staged configuration.
    Comp0Load,
    /// Let the counter run and the comparator work, or stop them.
    Conf { counter_on: bool, comparator_on: bool },
    /// Clear the comparator's pending interrupt.
    IntClr,
    /// Let the comparator raise its interrupt.
    IntEna,
    /// Route the comparator's interrupt to a line of the controller.
    Target0IntMap { line: u8 },
    /// Give a line its priority.
    CpuIntPri { line: u8, priority: u8 },
    /// Enable one line of the controller, and no other.
    CpuIntEnable { line: u8 },
}

impl RegWrite {
    /// Whether every value of the write fits the field it is written to.
    pub open spec fn wf(self) -> bool {
        match self {
            RegWrite::Unit0LoadHi(high) => high < LOAD_HIGH_LIMIT,
            RegWrite::Target0Conf { period, periodic } => period < PERIOD_LIMIT,
            RegWrite::Target0IntMap { line } => line < LINE_LIMIT,
            RegWrite::CpuIntPri { line, priority } => line < LINE_LIMIT && priority
                < PRIORITY_LIMIT,
            RegWrite::CpuIntEnable { line } => line < LINE_LIMIT,
            _ => true,
        }
    }

    /// The word that the write puts into its register. A value too wide for
    /// its field is cut to the field's width.
    pub open spec fn encoding(self) -> u32 {
        match self {
            RegWrite::Unit0LoadLo(low) => low,
            RegWrite::Unit0LoadHi(high) => high & 0x000f_ffffu32,
            RegWrite::Unit0Load => 1,
            RegWrite::Target0Conf { period, periodic } => (period & 0x03ff_ffffu32) | (if periodic {
                PERIOD_MODE
            } else {
                0u32
            }),
            RegWrite::Comp0Load => 1,
            RegWrite::Conf { counter_on, comparator_on } => (if counter_on {
                COUNTER_WORK_EN
            } else {
                0u32
            }) | (if comparator_on {
                COMPARATOR_WORK_EN
            } else {
                0u32
            }),
            RegWrite::IntClr => 1,
            RegWrite::IntEna => 1,
            RegWrite::Target0IntMap { line } => (line & 31u8) as u32,
            RegWrite::CpuIntPri { line, priority } => (priority & 15u8) as u32,
            RegWrite::CpuIntEnable { line } => 1u32 << ((line & 31u8) as u32),
        }
    }

    /// The word that the write puts into its register.
    pub fn bits(&self) -> (bits: u32)
        ensures
            bits == self.encoding(),
    {
        match *self {
            RegWrite::Unit0LoadLo(low) => low,
            RegWrite::Unit0LoadHi(high) => high & 0x000f_ffffu32,
            RegWrite::Unit0Load => 1,
            RegWrite::Target0Conf { period, periodic } => {
                let mode: u32 = if periodic {
                    PERIOD_MODE
                } else {
                    0
                };
                (period & 0x03ff_ffffu32) | mode
            },
            RegWrite::Comp0Load => 1,
            RegWrite::Conf { counter_on, comparator_on } => {
                let counter: u32 = if counter_on {
                    COUNTER_WORK_EN
                } else {
                    0
                };
                let comparator: u32 = if comparator_on {
                    COMPARATOR_WORK_EN
                } else {
                    0
                };
                counter | comparator
            },
            RegWrite::IntClr => 1,
            RegWrite::IntEna => 1,
            RegWrite::Target0IntMap { line } => (line & 31u8) as u32,
            RegWrite::CpuIntPri { line, priority } => (priority & 15u8) as u32,
            RegWrite::CpuIntEnable { line } => {
                let shift: u32 = (line & 31u8) as u32;
                assert(shift < 32) by (bit_vector)
                    requires
                        shift == (line & 31u8) as u32,
                ;
                1u32 << shift
            },
        }
    }
}

/// Why a tick configuration was refused.
#[derive(Debug, Clone, Copy, PartialEq, Eq, Structural)]
pub enum TickError {
    /// The period does not fit the comparator's period field.
    PeriodOutOfRange,
    /// The interrupt controller has no such line.
    LineOutOfRange,
    /// The interrupt controller has no such priority.
    PriorityOutOfRange,
}

/// The choices of the time slice: how many counter ticks lie between two
/// interrupts, on which line of the controller they arrive, and with which
/// priority.
#[derive(Debug, Clone, Copy, PartialEq, Eq, Structural)]
pub struct TickConfig {
    period: u32,
    line: u8,
    priority: u8,
}

impl TickConfig {
    /// The choices as plain values: period, line, priority.
    pub closed spec fn view(&self) -> (u32, u8, u8) {
        (self.period, self.line, self.priority)
    }

    /// Whether each choice fits the hardware.
    pub open spec fn wf(&self) -> bool {
        &&& self@.0 < PERIOD_LIMIT
        &&& self@.1 < LINE_LIMIT
        &&& self@.2 < PRIORITY_LIMIT
    }

    /// Every configuration fits the hardware.
    #[verifier::type_invariant]
    closed spec fn inv(&self) -> bool {
        self.wf()
    }

    /// A configuration of the given choices. It is refused for a period
    /// that does not fit, or else for a line, or else for a priority, that
    /// the controller does not have.
    pub fn new(period: u32, line: u8, priority: u8) -> (made: Result<Self, TickError>)
        ensures
            match made {
                Ok(config) => {
                    &&& config.wf()
                    &&& config@ == (period, line, priority)
                },
                Err(TickError::PeriodOutOfRange) => period >= PERIOD_LIMIT,
                Err(TickError::LineOutOfRange) => period < PERIOD_LIMIT && line >= LINE_LIMIT,
                Err(TickError::PriorityOutOfRange) => {
                    &&& period < PERIOD_LIMIT
                    &&& line < LINE_LIMIT
                    &&& priority >= PRIORITY_LIMIT
                },
            },
    {
        if period >= PERIOD_LIMIT {
            Err(TickError::PeriodOutOfRange)
        } else if line >= LINE_LIMIT {
            Err(TickError::LineOutOfRange)
        } else if priority >= PRIORITY_LIMIT {
            Err(TickError::PriorityOutOfRange)
        } else {
            Ok(TickConfig { period, line, priority })
        }
    }

    /// Number of counter ticks between two interrupts.
    pub fn period(&self) -> (period: u32)
        ensures
            period == self@.0,
    {
        self.period
    }

    /// Line of the interrupt controller that carries the tick.
    pub fn line(&self) -> (line: u8)
        ensures
            line == self@.1,
    {
        self.line
    }

    /// Priority of that line.
    pub fn priority(&self) -> (priority: u8)
        ensures
            priority == self@.2,
    {
        self.priority
    }

    /// The writes that set the tick source up, in their order: start the
    /// counter from zero, give the comparator its period, let both work,
    /// clear a pending interrupt that an earlier life of the hardware may
    /// have left, and only then let the comparator raise its interrupt and
    /// route it through the controller.
    pub open spec fn boot_writes(period: u32, line: u8, priority: u8) -> Seq<RegWrite> {
        seq![
            RegWrite::Unit0LoadLo(0),
            RegWrite::Unit0LoadHi(0),
            RegWrite::Unit0Load,
            RegWrite::Target0Conf { period, periodic: true },
            RegWrite::Comp0Load,
            RegWrite::Conf { counter_on: true, comparator_on: true },
            RegWrite::IntClr,
            RegWrite::IntEna,
            RegWrite::Target0IntMap { line },
            RegWrite::CpuIntPri { line, priority },
            RegWrite::CpuIntEnable { line },
        ]
    }

    /// The writes that set the tick source up, to be made once, in this
    /// order, before interrupts are enabled. Each fits its field.
    pub fn program(&self) -> (writes: [RegWrite; 11])
        ensures
            self.wf(),
            writes@ == Self::boot_writes(self@.0, self@.1, self@.2),
            forall|k: int| 0 <= k < 11 ==> (#[trigger] writes@[k]).wf(),
    {
        proof {
            use_type_invariant(self);
        }
        let writes: [RegWrite; 11] = [
            RegWrite::Unit0LoadLo(0),
            RegWrite::Unit0LoadHi(0),
            RegWrite::Unit0Load,
            RegWrite::Target0Conf { period: self.period, periodic: true },
            RegWrite::Comp0Load,
            RegWrite::Conf { counter_on: true, comparator_on: true },
            RegWrite::IntClr,
            RegWrite::IntEna,
            RegWrite::Target0IntMap { line: self.line },
            RegWrite::CpuIntPri { line: self.line, priority: self.priority },
            RegWrite::CpuIntEnable { line: self.line },
        ];
        assert(writes@ =~= Self::boot_writes(self@.0, self@.1, self@.2));
        writes
    }
}

impl Default for TickConfig {
    /// The usual time slice on the usual line.
    fn default() -> (config: Self)
        ensures
            config.wf(),
            config@ == (DEFAULT_PERIOD, DEFAULT_LINE, DEFAULT_PRIORITY),
    {
        TickConfig { period: DEFAULT_PERIOD, line: DEFAULT_LINE, priority: DEFAULT_PRIORITY }
    }
}

/// The write with which the trap dispatcher acknowledges a tick.
pub fn acknowledge() -> (write: RegWrite)
    ensures
        write == RegWrite::IntClr,
{
    RegWrite::IntClr
}

/// The tick source and its route to the core, as far as the kernel's writes
/// reach.
pub struct TickState {
    /// The staged start value of the counter, lower and upper word.
    pub staged_start: (u32, u32),
    /// The value that the counter last started from.
    pub start: int,
    /// The staged period of the comparator, and whether it repeats.
    pub staged_period: (u32, bool),
    /// The period that the comparator works with.
    pub period: u32,
    /// Whether the comparator fires again after every period.
    pub periodic: bool,
    /// Whether the counter runs.
    pub counter_on: bool,
    /// Whether the comparator works.
    pub comparator_on: bool,
    /// Whether the comparator has raised an interrupt that is not cleared.
    pub pending: bool,
    /// How often the pending interrupt has been cleared.
    pub clears: nat,
    /// Whether the comparator may raise its interrupt.
    pub interrupt_on: bool,
    /// The line that the interrupt is routed to.
    pub line: u8,
    /// The priority of each line.
    pub priorities: Map<u8, u8>,
    /// The lines that the controller lets through.
    pub enabled_lines: Set<u8>,
}

impl TickState {
    /// The tick source after one write.
    pub open spec fn written(self, write: RegWrite) -> TickState {
        match write {
            RegWrite::Unit0LoadLo(low) => TickState {
                staged_start: (low, self.staged_start.1),
                ..self
            },
            RegWrite::Unit0LoadHi(high) => TickState {
                staged_start: (self.staged_start.0, high),
                ..self
            },
            RegWrite::Unit0Load => TickState {
                start: self.staged_start.1 * 0x1_0000_0000 + self.staged_start.0,
                ..self
            },
            RegWrite::Target0Conf { period, periodic } => TickState {
                staged_period: (period, periodic),
                ..self
            },
            RegWrite::Comp0Load => TickState {
                period: self.staged_period.0,
                periodic: self.staged_period.1,
                ..self
            },
            RegWrite::Conf { counter_on, comparator_on } => TickState {
                counter_on,
                comparator_on,
                ..self
            },
            RegWrite::IntClr => TickState { pending: false, clears: self.clears + 1, ..self },
            RegWrite::IntEna => TickState { interrupt_on: true, ..self },
            RegWrite::Target0IntMap { line } => TickState { line, ..self },
            RegWrite::CpuIntPri { line, priority } => TickState {
                priorities: self.priorities.insert(line, priority),
                ..self
            },
            RegWrite::CpuIntEnable { line } => TickState { enabled_lines: set![line], ..self },
        }
    }

    /// The tick source after its comparator matched the counter: an
    /// interrupt is pending.
    pub open spec fn fired(self) -> TickState {
        TickState { pending: true, ..self }
    }

    /// The tick source after the first `count` of the writes.
    pub open spec fn written_all(self, writes: Seq<RegWrite>, count: nat) -> TickState
        decreases count,
    {
        if count == 0 {
            self
        } else {
            self.written_all(writes, (count - 1) as nat).written(writes[count - 1])
        }
    }

    /// Whether an interrupt is pending that the core would take as soon as
    /// it accepts interrupts.
    pub open spec fn interrupting(self) -> bool {
        self.pending && self.interrupt_on && self.enabled_lines.contains(self.line)
    }

    /// Whether the tick source runs as `period`, `line` and `priority` ask:
    /// the counter runs from zero, the comparator fires every `period`
    /// ticks, and its interrupt reaches the core on `line` with `priority`.
    pub open spec fn ticking(self, period: u32, line: u8, priority: u8) -> bool {
        &&& self.start == 0
        &&& self.counter_on
        &&& self.comparator_on
        &&& self.period == period
        &&& self.periodic
        &&& self.interrupt_on
        &&& self.line == line
        &&& self.priorities.dom().contains(line)
        &&& self.priorities[line] == priority
        &&& self.enabled_lines == set![line]
    }
}

/// The fields of a register do not run into each other: from the word of a
/// write whose values fit, each value can be read back, and the bits outside
/// the fields are clear.
pub proof fn lemma_encoding_keeps_fields(write: RegWrite)
    requires
        write.wf(),
    ensures
        match write {
            RegWrite::Unit0LoadLo(low) => write.encoding() == low,
            RegWrite::Unit0LoadHi(high) => write.encoding() == high,
            RegWrite::Target0Conf { period, periodic } => {
                &&& write.encoding() & 0x03ff_ffffu32 == period
                &&& (write.encoding() & PERIOD_MODE != 0) == periodic
                &&& write.encoding() & !(0x03ff_ffffu32 | PERIOD_MODE) == 0
            },
            RegWrite::Conf { counter_on, comparator_on } => {
                &&& (write.encoding() & COUNTER_WORK_EN != 0) == counter_on
                &&& (write.encoding() & COMPARATOR_WORK_EN != 0) == comparator_on
                &&& write.encoding() & !(COUNTER_WORK_EN | COMPARATOR_WORK_EN) == 0
            },
            RegWrite::Target0IntMap { line } => write.encoding() == line,
            RegWrite::CpuIntPri { line, priority } => write.encoding() == priority,
            RegWrite::CpuIntEnable { line } => {
                &&& (write.encoding() >> (line as u32)) & 1 == 1
                &&& write.encoding() & !(1u32 << (line as u32)) == 0
            },
            _ => write.encoding() == 1,
        },
{
    match write {
        RegWrite::Unit0LoadHi(high) => {
            assert(high & 0x000f_ffffu32 == high) by (bit_vector)
                requires
                    high < 0x0010_0000u32,
            ;
        },
        RegWrite::Target0Conf { period, periodic } => {
            let mode: u32 = if periodic {
                PERIOD_MODE
            } else {
                0u32
            };
            let word: u32 = (period & 0x03ff_ffffu32) | mode;
            assert(word & 0x03ff_ffffu32 == period && (word & 0x4000_0000u32 != 0) == (mode != 0)
                && word & !(0x03ff_ffffu32 | 0x4000_0000u32) == 0) by (bit_vector)
                requires
                    period < 0x0400_0000u32,
                    mode == 0x4000_0000u32 || mode == 0u32,
                    word == (period & 0x03ff_ffffu32) | mode,
            ;
        },
        RegWrite::Conf { counter_on, comparator_on } => {
            let counter: u32 = if counter_on {
                COUNTER_WORK_EN
            } else {
                0u32
            };
            let comparator: u32 = if comparator_on {
                COMPARATOR_WORK_EN
            } else {
                0u32
            };
            let word: u32 = counter | comparator;
            assert((word & 0x4000_0000u32 != 0) == (counter != 0) && (word & 0x0100_0000u32 != 0)
                == (comparator != 0) && word & !(0x4000_0000u32 | 0x0100_0000u32) == 0)
                by (bit_vector)
                requires
                    counter == 0x4000_0000u32 || counter == 0u32,
                    comparator == 0x0100_0000u32 || comparator == 0u32,
                    word == counter | comparator,
            ;
        },
        RegWrite::Target0IntMap { line } => {
            assert(line & 31u8 == line) by (bit_vector)
                requires
                    line < 32u8,
            ;
        },
        RegWrite::CpuIntPri { line, priority } => {
            assert(priority & 15u8 == priority) by (bit_vector)
                requires
                    priority < 16u8,
            ;
        },
        RegWrite::CpuIntEnable { line } => {
            assert(line & 31u8 == line) by (bit_vector)
                requires
                    line < 32u8,
            ;
            let shift: u32 = line as u32;
            assert(((1u32 << shift) >> shift) & 1 == 1 && (1u32 << shift) & !(1u32 << shift) == 0)
                by (bit_vector)
                requires
                    shift < 32u32,
            ;
        },
        _ => {},
    }
}

/// What the boot program achieves: whatever state the tick source was in,
/// after the eleven writes it runs as period, line and priority ask, and no
/// interrupt is pending.
pub proof fn lemma_boot_program_configures(
    period: u32,
    line: u8,
    priority: u8,
    before: TickState,
)
    ensures
        TickConfig::boot_writes(period, line, priority).len() == 11,
        before.written_all(TickConfig::boot_writes(period, line, priority), 11).ticking(
            period,
            line,
            priority,
        ),
        !before.written_all(TickConfig::boot_writes(period, line, priority), 11).pending,
{
    let writes = TickConfig::boot_writes(period, line, priority);
    reveal_with_fuel(TickState::written_all, 12);
    let after = before.written_all(writes, 11);
    assert(after.enabled_lines =~= set![line]);
}

/// A stale interrupt is cleared before it can be taken: if the comparator
/// was not yet allowed to raise its interrupt, then at no point of the boot
/// program is an interrupt pending that the core would take, whether or not
/// one was pending before.
pub proof fn lemma_boot_program_clears_before_enabling(
    period: u32,
    line: u8,
    priority: u8,
    before: TickState,
    count: nat,
)
    requires
        !before.interrupt_on,
        count <= 11,
    ensures
        !before.written_all(TickConfig::boot_writes(period, line, priority), count).interrupting(),
{
    reveal_with_fuel(TickState::written_all, 12);
}

/// Acknowledging a tick clears the pending interrupt, once, and changes
/// nothing else: the period is not programmed anew, and the next tick comes
/// as configured.
pub proof fn lemma_acknowledge_clears_pending(before: TickState)
    ensures
        before.written(RegWrite::IntClr) == (TickState {
            pending: false,
            clears: before.clears + 1,
            ..before
        }),
        !before.written(RegWrite::IntClr).pending,
        !before.written(RegWrite::IntClr).interrupting(),
        forall|period: u32, line: u8, priority: u8|
            before.ticking(period, line, priority) ==> #[trigger] before.written(
                RegWrite::IntClr,
            ).ticking(period, line, priority),
{
}

} // verus!
