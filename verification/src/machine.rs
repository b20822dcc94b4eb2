//! The commands that the bus driver gives to a PIO state machine, and what they do to it.
use vstd::prelude::*;

verus! {

/// A wire of the bus.
#[derive(Clone, Copy, Debug, PartialEq, Eq, Structural)]
pub enum Line {
    Clock,
    Data,
}

/// How much current a pin drives, in milliamperes.
#[derive(Clone, Copy, Debug, PartialEq, Eq, Structural)]
pub enum Drive {
    Ma2,
    Ma4,
    Ma8,
    Ma12,
}

#[derive(Clone, Copy, Debug, PartialEq, Eq, Structural)]
pub enum SlewRate {
    Fast,
    Slow,
}

#[derive(Clone, Copy, Debug, PartialEq, Eq, Structural)]
pub enum Pull {
    Neither,
    Up,
    Down,
}

#[derive(Clone, Copy, Debug, PartialEq, Eq, Structural)]
pub enum ShiftDirection {
    Left,
    Right,
}

#[derive(Clone, Copy, Debug, PartialEq, Eq, Structural)]
pub enum Level {
    Low,
    High,
}

/// One thing to do with the state machine, its pins or its queues.
#[derive(Debug)]
pub enum Command<'p> {
    /// Take the top bit of the side-set field as an enable bit.
    SetSideEnable(bool),
    /// Apply side-set to directions in place of levels.
    SetSidePindir(bool),
    /// How many bits of an instruction are side-set.
    SetSidesetCount(u8),
    SetSidesetBasePin(Line),
    /// Clear what an interrupted program left in the shift registers.
    Restart,
    /// Store `code` in the instruction memory from `start` on.
    WriteInstr { start: usize, code: &'p [u16] },
    /// Go on at `target` after the instruction at `source`.
    SetWrap { source: u8, target: u8 },
    /// Go on at an address.
    ExecJmp(u8),
    /// Hand a pin over to the state machine.
    MakePioPin(Line),
    SetDriveStrength(Line, Drive),
    SetSlewRate(Line, SlewRate),
    SetPull(Line, Pull),
    SetSchmitt(Line, bool),
    SetInputSyncBypass(Line, bool),
    /// The pin that `set` instructions act on.
    SetSetPins(Line),
    /// The pin that `out` instructions act on.
    SetOutPins(Line),
    /// The pin that `in` instructions read.
    SetInBasePin(Line),
    /// Set the direction of the `set` pin; an odd number makes it an output.
    SetPindir(u8),
    /// Set the direction of the `out` pin; an odd number makes it an output.
    SetOutPindir(u32),
    /// Set the level of the `out` pin; an odd number makes it high.
    SetOutPin(u32),
    /// The clock divider, in 256ths.
    SetClkdiv(u32),
    ClkdivRestart,
    SetAutopull(bool),
    SetAutopush(bool),
    SetPullThreshold(u8),
    SetPushThreshold(u8),
    SetOutShiftDir(ShiftDirection),
    SetInShiftDir(ShiftDirection),
    SetEnable(bool),
    /// Empty both queues.
    ClearFifos,
    /// Load the scratch register.
    SetX(u32),
    ClearIrq(u8),
    /// Feed words to the state machine over a channel.
    DmaPush { channel: u8, words: &'p [u32] },
    /// Fill words from the state machine over a channel.
    DmaPull { channel: u8, buffer: &'p mut [u32] },
    WaitIrq(u8),
    /// Make sure that the transmit queue is empty and never overflowed.
    CheckTx,
    /// Make sure that the receive queue is empty and never underflowed.
    CheckRx,
}

/// Something that commands act on.
pub trait State: Sized {
    /// The state after a command.
    spec fn step(self, c: Command<'_>) -> Self;
}

/// The state after the commands from number `i` on.
pub open spec fn run_from<S: State>(s: S, commands: Seq<Command<'_>>, i: int) -> S
    decreases commands.len() - i,
{
    if 0 <= i < commands.len() {
        run_from(s.step(commands[i]), commands, i + 1)
    } else {
        s
    }
}

/// The state of a pin.
pub struct Wire {
    pub pio: bool,
    pub drive: Drive,
    pub slew: SlewRate,
    pub pull: Pull,
    pub schmitt: bool,
    pub sync_bypass: bool,
    /// Whether the state machine drives the pin.
    pub output: bool,
    pub high: bool,
}

impl Wire {
    /// The pin at `line` after a command that speaks of a pin by name.
    pub open spec fn step(self, line: Line, c: Command<'_>) -> Wire {
        match c {
            Command::MakePioPin(l) if l == line => Wire { pio: true, ..self },
            Command::SetDriveStrength(l, drive) if l == line => Wire { drive, ..self },
            Command::SetSlewRate(l, slew) if l == line => Wire { slew, ..self },
            Command::SetPull(l, pull) if l == line => Wire { pull, ..self },
            Command::SetSchmitt(l, schmitt) if l == line => Wire { schmitt, ..self },
            Command::SetInputSyncBypass(l, sync_bypass) if l == line => Wire {
                sync_bypass,
                ..self
            },
            _ => self,
        }
    }
}

/// Which pins the instructions of a program act on.
pub struct Mapping {
    pub set_pins: Option<Line>,
    pub out_pins: Option<Line>,
    pub in_base: Option<Line>,
    pub sideset_base: Option<Line>,
    pub sideset_count: u8,
}

impl Mapping {
    pub open spec fn step(self, c: Command<'_>) -> Mapping {
        match c {
            Command::SetSetPins(line) => Mapping { set_pins: Some(line), ..self },
            Command::SetOutPins(line) => Mapping { out_pins: Some(line), ..self },
            Command::SetInBasePin(line) => Mapping { in_base: Some(line), ..self },
            Command::SetSidesetBasePin(line) => Mapping { sideset_base: Some(line), ..self },
            Command::SetSidesetCount(n) => Mapping { sideset_count: n, ..self },
            _ => self,
        }
    }
}

/// The pins, and which of them the instructions of a program act on.
pub struct Pins {
    pub clock: Wire,
    pub data: Wire,
    pub mapping: Mapping,
}

impl State for Pins {
    open spec fn step(self, c: Command<'_>) -> Pins {
        match c {
            Command::SetPindir(v) => match self.mapping.set_pins {
                Some(Line::Clock) => Pins {
                    clock: Wire { output: v % 2 == 1, ..self.clock },
                    ..self
                },
                Some(Line::Data) => Pins { data: Wire { output: v % 2 == 1, ..self.data }, ..self },
                None => self,
            },
            Command::SetOutPindir(v) => match self.mapping.out_pins {
                Some(Line::Clock) => Pins {
                    clock: Wire { output: v % 2 == 1, ..self.clock },
                    ..self
                },
                Some(Line::Data) => Pins { data: Wire { output: v % 2 == 1, ..self.data }, ..self },
                None => self,
            },
            Command::SetOutPin(v) => match self.mapping.out_pins {
                Some(Line::Clock) => Pins {
                    clock: Wire { high: v % 2 == 1, ..self.clock },
                    ..self
                },
                Some(Line::Data) => Pins { data: Wire { high: v % 2 == 1, ..self.data }, ..self },
                None => self,
            },
            _ => Pins {
                clock: self.clock.step(Line::Clock, c),
                data: self.data.step(Line::Data, c),
                mapping: self.mapping.step(c),
            },
        }
    }
}

/// The clock divider and the shift registers.
pub struct Shifting {
    pub clkdiv: u32,
    pub autopull: bool,
    pub autopush: bool,
    pub pull_threshold: u8,
    pub push_threshold: u8,
    pub out_shift: ShiftDirection,
    pub in_shift: ShiftDirection,
}

impl State for Shifting {
    open spec fn step(self, c: Command<'_>) -> Shifting {
        match c {
            Command::SetClkdiv(d) => Shifting { clkdiv: d, ..self },
            Command::SetAutopull(b) => Shifting { autopull: b, ..self },
            Command::SetAutopush(b) => Shifting { autopush: b, ..self },
            Command::SetPullThreshold(n) => Shifting { pull_threshold: n, ..self },
            Command::SetPushThreshold(n) => Shifting { push_threshold: n, ..self },
            Command::SetOutShiftDir(d) => Shifting { out_shift: d, ..self },
            Command::SetInShiftDir(d) => Shifting { in_shift: d, ..self },
            _ => self,
        }
    }
}

/// The instruction memory and the settings that belong to a program.
pub struct Loaded {
    pub memory: Map<int, u16>,
    pub wrap_source: u8,
    pub wrap_target: u8,
    pub side_enable: bool,
    pub side_pindir: bool,
}

impl State for Loaded {
    open spec fn step(self, c: Command<'_>) -> Loaded {
        match c {
            Command::WriteInstr { start, code } => Loaded {
                memory: self.memory.union_prefer_right(
                    Map::new(
                        |a: int| start <= a < start + code@.len(),
                        |a: int| code@[a - start],
                    ),
                ),
                ..self
            },
            Command::SetWrap { source, target } => Loaded {
                wrap_source: source,
                wrap_target: target,
                ..self
            },
            Command::SetSideEnable(b) => Loaded { side_enable: b, ..self },
            Command::SetSidePindir(b) => Loaded { side_pindir: b, ..self },
            _ => self,
        }
    }
}

/// How the machine runs.
pub struct Control {
    pub enabled: bool,
    pub pc: u8,
    pub x: u32,
    /// Whether both queues are known to be empty.
    pub queues_empty: bool,
    /// The interrupt flags that may be set.
    pub irqs: Set<u8>,
}

impl State for Control {
    open spec fn step(self, c: Command<'_>) -> Control {
        match c {
            Command::SetEnable(b) => Control { enabled: b, ..self },
            Command::ExecJmp(a) => Control { pc: a, ..self },
            Command::SetX(v) => Control { x: v, ..self },
            Command::ClearFifos => Control { queues_empty: true, ..self },
            Command::ClearIrq(n) => Control { irqs: self.irqs.remove(n), ..self },
            _ => self,
        }
    }
}

/// The state of a state machine, as far as commands set it. The commands that move words, wait or
/// look at the queues leave it as it is; what a running program does to it is told by `can_reach`.
pub struct Machine {
    pub control: Control,
    pub loaded: Loaded,
    pub pins: Pins,
    pub shifting: Shifting,
}

impl State for Machine {
    open spec fn step(self, c: Command<'_>) -> Machine {
        Machine {
            control: self.control.step(c),
            loaded: self.loaded.step(c),
            pins: self.pins.step(c),
            shifting: self.shifting.step(c),
        }
    }
}

impl Machine {
    /// The machine after a sequence of commands.
    pub open spec fn run(self, commands: Seq<Command<'_>>) -> Machine {
        run_from(self, commands, 0)
    }

    /// Whether a program that runs on this machine can bring it to `to`. A program moves on, counts,
    /// moves words, raises flags and drives or releases the pins. It does not stop the machine, and
    /// it cannot change the settings or the instruction memory.
    pub open spec fn can_reach(self, to: Machine) -> bool {
        &&& to.control.enabled == self.control.enabled
        &&& to.loaded == self.loaded
        &&& to.shifting == self.shifting
        &&& to.pins.mapping == self.pins.mapping
        &&& to.pins.clock == (Wire {
            output: to.pins.clock.output,
            high: to.pins.clock.high,
            ..self.pins.clock
        })
        &&& to.pins.data == (Wire {
            output: to.pins.data.output,
            high: to.pins.data.high,
            ..self.pins.data
        })
    }
}

/// The parts of a machine do not act on one another: commands can be followed part by part.
pub proof fn lemma_run_by_parts(m: Machine, commands: Seq<Command<'_>>, i: int)
    requires
        0 <= i <= commands.len(),
    ensures
        run_from(m, commands, i) == (Machine {
            control: run_from(m.control, commands, i),
            loaded: run_from(m.loaded, commands, i),
            pins: run_from(m.pins, commands, i),
            shifting: run_from(m.shifting, commands, i),
        }),
    decreases commands.len() - i,
{
    if i < commands.len() {
        lemma_run_by_parts(m.step(commands[i]), commands, i + 1);
    }
}

proof fn lemma_run_behind<S: State>(s: S, a: Seq<Command<'_>>, b: Seq<Command<'_>>, i: int)
    requires
        0 <= i <= b.len(),
    ensures
        run_from(s, a + b, a.len() + i) == run_from(s, b, i),
    decreases b.len() - i,
{
    if i < b.len() {
        assert((a + b)[a.len() + i] == b[i]);
        lemma_run_behind(s.step(b[i]), a, b, i + 1);
    }
}

pub proof fn lemma_run_on<S: State>(s: S, a: Seq<Command<'_>>, b: Seq<Command<'_>>, i: int)
    requires
        0 <= i <= a.len(),
    ensures
        run_from(s, a + b, i) == run_from(run_from(s, a, i), b, 0),
    decreases a.len() - i,
{
    if i < a.len() {
        assert((a + b)[i] == a[i]);
        lemma_run_on(s.step(a[i]), a, b, i + 1);
    } else {
        lemma_run_behind(s, a, b, 0);
    }
}

/// Commands given in two parts do what they do in one.
pub proof fn law_run_in_parts(m: Machine, first: Seq<Command<'_>>, second: Seq<Command<'_>>)
    ensures
        m.run(first + second) == m.run(first).run(second),
{
    lemma_run_on(m, first, second, 0);
}

} // verus!
