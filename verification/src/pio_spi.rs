//! A half-duplex SPI bus on a PIO state machine: the commands that set it up and run its transfers.
use crate::machine::{Command, Drive, Level, Line, Pull, ShiftDirection, SlewRate};
#[allow(unused_imports)]
use crate::machine::{
    law_run_in_parts, lemma_run_by_parts, lemma_run_on, run_from, Control, Loaded, Machine, Mapping,
    Pins, Shifting, State, Wire,
};
use embedded_hal_async::spi;
use vstd::prelude::*;

verus! {

/// The clock that the state machine divides, in hertz.
pub const SYSTEM_CLOCK: u32 = 125_000_000;

/// The clock that its program runs at, in hertz.
pub const PROGRAM_CLOCK: u32 = 10_000_000;

/// The divider between the two, in 256ths.
pub const CLOCK_DIVIDER: u32 = 3200;

/// The interrupt flag that the program raises when a transfer is done.
pub const DONE_IRQ: u8 = 0;

/// How many commands start a transfer; the next one moves its words.
pub const STARTING: usize = 9;

/// An assembled program with its settings and its two entry points.
#[derive(Clone, Copy)]
pub struct Program<'p> {
    pub code: &'p [u16],
    /// Where the program must be loaded, if that matters.
    pub origin: Option<u8>,
    pub wrap_source: u8,
    pub wrap_target: u8,
    pub side_optional: bool,
    pub side_pindirs: bool,
    pub side_bits: u8,
    /// Where reading starts.
    pub read: i32,
    /// Where writing starts.
    pub write: i32,
}

/// The cause of an error, as the bus traits name it.
#[verifier::external_type_specification]
#[verifier::external_body]
pub struct ExErrorKind(spi::ErrorKind);

/// An error of the bus.
#[derive(Debug)]
pub struct PioSpiError {
    pub kind: spi::ErrorKind,
}

impl PioSpiError {
    /// The cause of the error.
    pub fn kind(&self) -> (k: spi::ErrorKind)
        ensures
            k == self.kind,
    {
        self.kind
    }
}

/// The bus: the channels that it writes and reads over, and where its program starts to do so.
pub struct PioSpi {
    pub dma_write: u8,
    pub dma_read: u8,
    pub write_start: u8,
    pub read_start: u8,
}

/// The address at which a program is loaded.
pub open spec fn origin_of(program: Program<'_>) -> u8 {
    match program.origin {
        Some(origin) => origin,
        None => 0,
    }
}

/// The commands that load a program and take its settings over.
pub open spec fn load_script<'p>(program: Program<'p>) -> Seq<Command<'p>> {
    seq![
        Command::WriteInstr { start: origin_of(program) as usize, code: program.code },
        Command::SetWrap { source: program.wrap_source, target: program.wrap_target },
        Command::ExecJmp(origin_of(program)),
        Command::SetSideEnable(program.side_optional),
        Command::SetSidePindir(program.side_pindirs),
        Command::SetSidesetCount(program.side_bits),
    ]
}

/// The commands that set up the pins, once the program is loaded.
pub open spec fn pin_script<'p>() -> Seq<Command<'p>> {
    claim_script() + map_script()
}

/// The commands that hand the pins over and set up the data pin.
pub open spec fn claim_script<'p>() -> Seq<Command<'p>> {
    seq![
        Command::MakePioPin(Line::Data),
        Command::SetDriveStrength(Line::Data, Drive::Ma12),
        Command::SetSlewRate(Line::Data, SlewRate::Fast),
        Command::SetPull(Line::Data, Pull::Up),
        Command::SetSchmitt(Line::Data, true),
        Command::MakePioPin(Line::Clock),
    ]
}

/// The commands that make the clock pin an output and tell the instructions their pins.
pub open spec fn map_script<'p>() -> Seq<Command<'p>> {
    seq![
        Command::SetSetPins(Line::Clock),
        Command::SetPindir(1),
        Command::SetDriveStrength(Line::Clock, Drive::Ma8),
        Command::SetOutPins(Line::Data),
        Command::SetSetPins(Line::Data),
        Command::SetInBasePin(Line::Data),
        Command::SetSidesetCount(1),
        Command::SetSidesetBasePin(Line::Clock),
        Command::SetInputSyncBypass(Line::Data, true),
    ]
}

/// The commands that set the clock and the queues.
pub open spec fn queue_script<'p>() -> Seq<Command<'p>> {
    seq![
        Command::SetClkdiv(CLOCK_DIVIDER),
        Command::SetAutopull(true),
        Command::SetAutopush(true),
        Command::SetPullThreshold(32),
        Command::SetPushThreshold(32),
        Command::SetOutShiftDir(ShiftDirection::Left),
        Command::SetInShiftDir(ShiftDirection::Left),
    ]
}

/// The commands that bring the bus up.
pub open spec fn setup_script<'p>(program: Program<'p>) -> Seq<Command<'p>> {
    seq![Command::SetSideEnable(false), Command::Restart] + load_script(program) + pin_script()
        + queue_script()
}

/// The commands that stop the bus and hold the data line at a level.
pub open spec fn level_script<'p>(level: Level) -> Seq<Command<'p>> {
    seq![
        Command::SetEnable(false),
        Command::Restart,
        Command::SetOutPindir(0xffffffff),
        Command::SetOutPin(
            if level == Level::High {
                0xffffffff
            } else {
                0
            },
        ),
    ]
}

/// The commands that start a transfer of `words` words at `entry`; with `pindir` 1 the data line is
/// driven, with 0 it is listened to.
pub open spec fn start_script<'p>(entry: u8, pindir: u8, words: nat) -> Seq<Command<'p>> {
    seq![
        Command::SetEnable(false),
        Command::Restart,
        Command::ClearFifos,
        Command::SetPindir(pindir),
        Command::ClkdivRestart,
        Command::SetX((32 * words - 1) as u32),
        Command::ExecJmp(entry),
        Command::ClearIrq(DONE_IRQ),
        Command::SetEnable(true),
    ]
}

/// The commands that follow the start of a transfer: one that moves the words, one that waits for
/// the program and one that looks at the queue.
pub open spec fn finish_script<'p>(transfer: Command<'p>, check: Command<'p>) -> Seq<Command<'p>> {
    seq![transfer, Command::WaitIrq(DONE_IRQ), check]
}

/// The commands that write `words` over `spi`.
pub open spec fn write_script<'p>(spi: PioSpi, words: &'p [u32]) -> Seq<Command<'p>> {
    start_script(spi.write_start, 1, words@.len()) + finish_script(
        Command::DmaPush { channel: spi.dma_write, words },
        Command::CheckTx,
    )
}

/// The commands that read `words` words over `spi`; `pull` is the one that fetches them.
pub open spec fn read_script<'p>(spi: PioSpi, words: nat, pull: Command<'p>) -> Seq<Command<'p>> {
    start_script(spi.read_start, 0, words) + finish_script(pull, Command::CheckRx)
}

/// Whether a transfer of `words` words has a bit count that the scratch register can hold.
pub open spec fn transferable(words: nat) -> bool {
    0 < words && 32 * words <= u32::MAX
}

/// The commands that load `program` and take its settings over.
pub fn setup_program<'p>(program: &Program<'p>) -> (commands: Vec<Command<'p>>)
    ensures
        commands@ == load_script(*program),
        ({
            let origin: u8 = if program.origin is Some {
                program.origin->0
            } else {
                0
            };
            commands@ == seq![
                Command::WriteInstr { start: origin as usize, code: program.code },
                Command::SetWrap { source: program.wrap_source, target: program.wrap_target },
                Command::ExecJmp(origin),
                Command::SetSideEnable(program.side_optional),
                Command::SetSidePindir(program.side_pindirs),
                Command::SetSidesetCount(program.side_bits),
            ]
        }),
{
    let origin: u8 = match program.origin {
        Some(origin) => origin,
        None => 0,
    };
    vec![
        Command::WriteInstr { start: origin as usize, code: program.code },
        Command::SetWrap { source: program.wrap_source, target: program.wrap_target },
        Command::ExecJmp(origin),
        Command::SetSideEnable(program.side_optional),
        Command::SetSidePindir(program.side_pindirs),
        Command::SetSidesetCount(program.side_bits),
    ]
}

/// The commands that start a transfer.
fn start_transfer<'p>(entry: u8, pindir: u8, words: usize) -> (commands: Vec<Command<'p>>)
    requires
        transferable(words as nat),
    ensures
        commands@ == start_script(entry, pindir, words as nat),
{
    vec![
        Command::SetEnable(false),
        Command::Restart,
        Command::ClearFifos,
        Command::SetPindir(pindir),
        Command::ClkdivRestart,
        Command::SetX(words as u32 * 32 - 1),
        Command::ExecJmp(entry),
        Command::ClearIrq(DONE_IRQ),
        Command::SetEnable(true),
    ]
}

/// Whether a queue is as a finished transfer leaves it: empty, and never misused.
pub fn drained(level: u8, fault: bool) -> (b: bool)
    ensures
        b <==> level == 0 && !fault,
{
    level == 0 && !fault
}

impl PioSpi {
    /// A bus on `program` that writes and reads over the given channels, and the commands that
    /// bring it up.
    pub fn new<'p>(program: &Program<'p>, dma_write: u8, dma_read: u8) -> (r: (
        PioSpi,
        Vec<Command<'p>>,
    ))
        ensures
            r.0.dma_write == dma_write,
            r.0.dma_read == dma_read,
            r.0.read_start == program.read as u8,
            r.0.write_start == program.write as u8,
            r.1@ == setup_script(*program),
            r.1@.len() == 30,
            r.1@[0] == Command::SetSideEnable(false),
            r.1@[1] == Command::Restart,
            r.1@.subrange(2, 8) == load_script(*program),
    {
        let mut commands: Vec<Command<'p>> = vec![Command::SetSideEnable(false), Command::Restart];

        // Load program
        let read_start: u8 = #[verifier::truncate] (program.read as u8);
        let write_start: u8 = #[verifier::truncate] (program.write as u8);
        let mut load = setup_program(program);
        commands.append(&mut load);

        // Set up pins
        let mut pins: Vec<Command<'p>> = vec![
            Command::MakePioPin(Line::Data),
            Command::SetDriveStrength(Line::Data, Drive::Ma12),
            Command::SetSlewRate(Line::Data, SlewRate::Fast),
            Command::SetPull(Line::Data, Pull::Up),
            Command::SetSchmitt(Line::Data, true),
            Command::MakePioPin(Line::Clock),
            // Set clock pin as output
            Command::SetSetPins(Line::Clock),
            Command::SetPindir(1),
            Command::SetDriveStrength(Line::Clock, Drive::Ma8),
            Command::SetOutPins(Line::Data),
            Command::SetSetPins(Line::Data),
            Command::SetInBasePin(Line::Data),
            Command::SetSidesetCount(1),
            Command::SetSidesetBasePin(Line::Clock),
            Command::SetInputSyncBypass(Line::Data, true),
        ];
        commands.append(&mut pins);

        // Configure clock and FIFOs
        let mut queues: Vec<Command<'p>> = vec![
            Command::SetClkdiv(CLOCK_DIVIDER),
            Command::SetAutopull(true),
            Command::SetAutopush(true),
            Command::SetPullThreshold(32),
            Command::SetPushThreshold(32),
            Command::SetOutShiftDir(ShiftDirection::Left),
            Command::SetInShiftDir(ShiftDirection::Left),
        ];
        commands.append(&mut queues);
        (PioSpi { dma_write, dma_read, write_start, read_start }, commands)
    }

    /// The commands that stop the bus and hold the data line at `level`.
    pub fn set_data_level<'p>(&mut self, level: Level) -> (commands: Vec<Command<'p>>)
        ensures
            *final(self) == *old(self),
            commands@ == level_script(level),
            commands@.len() == 4,
            commands@[0] == Command::SetEnable(false),
            commands@[1] == Command::Restart,
            commands@[2] == Command::SetOutPindir(0xffffffff),
            level is High ==> commands@[3] == Command::SetOutPin(0xffffffff),
            level is Low ==> commands@[3] == Command::SetOutPin(0),
    {
        vec![
            Command::SetEnable(false),
            Command::Restart,
            Command::SetOutPindir(0xffffffff),
            Command::SetOutPin(
                if level == Level::High {
                    0xffffffff
                } else {
                    0
                },
            ),
        ]
    }

    /// The commands that write `words`.
    pub fn write<'p>(&mut self, words: &'p [u32]) -> (commands: Vec<Command<'p>>)
        requires
            transferable(words@.len()),
        ensures
            *final(self) == *old(self),
            commands@ == write_script(*old(self), words),
            commands@ == seq![
                Command::SetEnable(false),
                Command::Restart,
                Command::ClearFifos,
                Command::SetPindir(1),
                Command::ClkdivRestart,
                Command::SetX((32 * words@.len() - 1) as u32),
                Command::ExecJmp(old(self).write_start),
                Command::ClearIrq(0),
                Command::SetEnable(true),
                Command::DmaPush { channel: old(self).dma_write, words },
                Command::WaitIrq(0),
                Command::CheckTx,
            ],
    {
        let mut commands = start_transfer(self.write_start, 1, words.len());
        commands.push(Command::DmaPush { channel: self.dma_write, words });
        commands.push(Command::WaitIrq(DONE_IRQ));
        commands.push(Command::CheckTx);
        commands
    }

    /// The commands that read into `words`.
    pub fn read<'p>(&mut self, words: &'p mut [u32]) -> (commands: Vec<Command<'p>>)
        requires
            transferable(old(words)@.len()),
        ensures
            *final(self) == *old(self),
            commands@ == read_script(*old(self), old(words)@.len(), commands@[STARTING as int]),
            commands@ == seq![
                Command::SetEnable(false),
                Command::Restart,
                Command::ClearFifos,
                Command::SetPindir(0),
                Command::ClkdivRestart,
                Command::SetX((32 * old(words)@.len() - 1) as u32),
                Command::ExecJmp(old(self).read_start),
                Command::ClearIrq(0),
                Command::SetEnable(true),
                commands@[9],
                Command::WaitIrq(0),
                Command::CheckRx,
            ],
            commands@[9] matches Command::DmaPull { channel, buffer } && channel == old(
                self,
            ).dma_read && buffer@ == old(words)@ && final(buffer)@ == final(words)@,
    {
        let mut commands = start_transfer(self.read_start, 0, words.len());
        commands.push(Command::DmaPull { channel: self.dma_read, buffer: words });
        commands.push(Command::WaitIrq(DONE_IRQ));
        commands.push(Command::CheckRx);
        commands
    }

    /// The commands that wait for the transfer under way.
    pub fn flush<'p>(&mut self) -> (commands: Vec<Command<'p>>)
        ensures
            *final(self) == *old(self),
            commands@ == seq![Command::<'p>::WaitIrq(0)],
    {
        vec![Command::WaitIrq(DONE_IRQ)]
    }
}

/// The divider turns the system clock into the clock of the program, to the last 256th.
pub proof fn law_clock_divider()
    ensures
        CLOCK_DIVIDER * PROGRAM_CLOCK == 256 * SYSTEM_CLOCK,
        SYSTEM_CLOCK == 125_000_000,
        PROGRAM_CLOCK == 10_000_000,
{
}

/// What the pins must be for the bus to work: the data line is read and driven, and side-set drives
/// the clock line.
pub open spec fn wired(pins: Pins) -> bool {
    &&& pins.mapping == (Mapping {
        set_pins: Some(Line::Data),
        out_pins: Some(Line::Data),
        in_base: Some(Line::Data),
        sideset_base: Some(Line::Clock),
        sideset_count: 1,
    })
    &&& pins.clock.pio
    &&& pins.clock.drive == Drive::Ma8
    &&& pins.data.pio
    &&& pins.data.drive == Drive::Ma12
    &&& pins.data.slew == SlewRate::Fast
    &&& pins.data.pull == Pull::Up
    &&& pins.data.schmitt
    &&& pins.data.sync_bypass
}

/// How words move over the bus: whole, and the highest bit first.
pub open spec fn word_shifting() -> Shifting {
    Shifting {
        clkdiv: CLOCK_DIVIDER,
        autopull: true,
        autopush: true,
        pull_threshold: 32,
        push_threshold: 32,
        out_shift: ShiftDirection::Left,
        in_shift: ShiftDirection::Left,
    }
}

/// Whether the machine is set up for the bus, whatever its program.
pub open spec fn configured(m: Machine) -> bool {
    wired(m.pins) && m.shifting == word_shifting()
}

/// Whether the instruction memory holds `program`, along with its settings.
pub open spec fn holds_program(loaded: Loaded, program: Program<'_>) -> bool {
    &&& forall|i: int|
        0 <= i < program.code@.len() ==> #[trigger] loaded.memory.dom().contains(
            origin_of(program) + i,
        ) && loaded.memory[origin_of(program) + i] == program.code@[i]
    &&& loaded.wrap_source == program.wrap_source
    &&& loaded.wrap_target == program.wrap_target
    &&& loaded.side_enable == program.side_optional
    &&& loaded.side_pindir == program.side_pindirs
}

proof fn lemma_first(m: Machine)
    ensures
        m.run(seq![Command::SetSideEnable(false), Command::Restart]) == (Machine {
            loaded: Loaded { side_enable: false, ..m.loaded },
            ..m
        }),
{
    reveal_with_fuel(run_from::<Machine>, 3);
}

proof fn lemma_load_memory(loaded: Loaded, program: Program<'_>)
    ensures
        holds_program(run_from(loaded, load_script(program), 0), program),
{
    reveal_with_fuel(run_from::<Loaded>, 7);
}

proof fn lemma_load_control(control: Control, program: Program<'_>)
    ensures
        run_from(control, load_script(program), 0) == (Control {
            pc: origin_of(program),
            ..control
        }),
{
    reveal_with_fuel(run_from::<Control>, 7);
}

proof fn lemma_claim(pins: Pins)
    ensures
        run_from(pins, claim_script(), 0) == (Pins {
            clock: Wire { pio: true, ..pins.clock },
            data: Wire {
                pio: true,
                drive: Drive::Ma12,
                slew: SlewRate::Fast,
                pull: Pull::Up,
                schmitt: true,
                ..pins.data
            },
            ..pins
        }),
{
    reveal_with_fuel(run_from::<Pins>, 7);
}

proof fn lemma_map(pins: Pins)
    ensures
        run_from(pins, map_script(), 0) == (Pins {
            clock: Wire { output: true, drive: Drive::Ma8, ..pins.clock },
            data: Wire { sync_bypass: true, ..pins.data },
            mapping: Mapping {
                set_pins: Some(Line::Data),
                out_pins: Some(Line::Data),
                in_base: Some(Line::Data),
                sideset_base: Some(Line::Clock),
                sideset_count: 1,
            },
        }),
{
    reveal_with_fuel(run_from::<Pins>, 10);
}

proof fn lemma_pins(m: Machine)
    ensures
        ({
            let r = m.run(pin_script());
            &&& wired(r.pins)
            &&& r.pins.clock.output
            &&& r == (Machine { pins: r.pins, ..m })
        }),
{
    lemma_run_by_parts(m, pin_script(), 0);
    lemma_run_on(m.pins, claim_script(), map_script(), 0);
    lemma_claim(m.pins);
    lemma_map(run_from(m.pins, claim_script(), 0));
    lemma_pins_alone(m.control, m.loaded, m.shifting);
}

proof fn lemma_pins_alone(control: Control, loaded: Loaded, shifting: Shifting)
    ensures
        run_from(control, pin_script(), 0) == control,
        run_from(loaded, pin_script(), 0) == loaded,
        run_from(shifting, pin_script(), 0) == shifting,
{
    reveal_with_fuel(run_from::<Control>, 16);
    reveal_with_fuel(run_from::<Loaded>, 16);
    reveal_with_fuel(run_from::<Shifting>, 16);
}

proof fn lemma_queues(m: Machine)
    ensures
        m.run(queue_script()) == (Machine { shifting: word_shifting(), ..m }),
{
    lemma_run_by_parts(m, queue_script(), 0);
    reveal_with_fuel(run_from::<Control>, 8);
    reveal_with_fuel(run_from::<Loaded>, 8);
    reveal_with_fuel(run_from::<Pins>, 8);
    reveal_with_fuel(run_from::<Shifting>, 8);
}

/// Bringing the bus up leaves the machine configured and holding the program, with the clock line
/// driven, and neither starts nor stops it. A stopped machine is then about to run the program from
/// its origin. That one side-set bit drives the clock line holds whatever the program asks for.
pub proof fn law_setup(m: Machine, program: Program<'_>)
    ensures
        ({
            let r = m.run(setup_script(program));
            &&& configured(r)
            &&& holds_program(r.loaded, program)
            &&& r.pins.clock.output
            &&& r.control.enabled == m.control.enabled
            &&& !m.control.enabled ==> r.control == (Control {
                pc: origin_of(program),
                ..m.control
            })
        }),
{
    let first = seq![Command::SetSideEnable(false), Command::Restart];
    law_run_in_parts(m, first + load_script(program) + pin_script(), queue_script());
    law_run_in_parts(m, first + load_script(program), pin_script());
    law_run_in_parts(m, first, load_script(program));
    let ready = m.run(first);
    let loaded = ready.run(load_script(program));
    let pinned = loaded.run(pin_script());
    lemma_first(m);
    lemma_run_by_parts(ready, load_script(program), 0);
    lemma_load_memory(ready.loaded, program);
    lemma_load_control(ready.control, program);
    lemma_pins(loaded);
    lemma_queues(pinned);
}

/// Whether a command hands words to the state machine or fetches words from it.
pub open spec fn moves_words(c: Command<'_>) -> bool {
    c is DmaPush || c is DmaPull
}

/// Bringing the bus up neither starts the machine, moves words nor waits.
pub proof fn law_setup_is_quiet(program: Program<'_>)
    ensures
        forall|i: int|
            0 <= i < setup_script(program).len() ==> !(#[trigger] setup_script(program)[i] is SetEnable)
                && !moves_words(setup_script(program)[i]) && !(setup_script(program)[i] is WaitIrq),
{
}

/// Two programs are brought up alike but for the six commands that load them, and these are those
/// that load the program alone.
pub proof fn law_setup_differs_in_loading_alone<'p>(a: Program<'p>, b: Program<'p>)
    ensures
        setup_script(a).len() == setup_script(b).len(),
        setup_script(a).take(2) == setup_script(b).take(2),
        setup_script(a).skip(8) == setup_script(b).skip(8),
        setup_script(a).subrange(2, 8) == load_script(a),
        load_script(a).len() == 6,
{
}

/// What bringing the bus up does to the pins and to the memory, and that it does no more: the clock
/// line is handed over, driven and given its strength, the data line is handed over and given its
/// five settings. Instructions act on the data line and side-set on the clock line, words are shifted
/// whole and to the left, and of the memory only what the program takes up is written.
pub proof fn law_setup_does_no_more(m: Machine, program: Program<'_>)
    ensures
        ({
            let r = m.run(setup_script(program));
            let origin: int = if program.origin is Some {
                program.origin->0 as int
            } else {
                0
            };
            &&& r.pins.clock == (Wire { pio: true, output: true, drive: Drive::Ma8, ..m.pins.clock })
            &&& r.pins.data == (Wire {
                pio: true,
                drive: Drive::Ma12,
                slew: SlewRate::Fast,
                pull: Pull::Up,
                schmitt: true,
                sync_bypass: true,
                ..m.pins.data
            })
            &&& r.pins.mapping == (Mapping {
                set_pins: Some(Line::Data),
                out_pins: Some(Line::Data),
                in_base: Some(Line::Data),
                sideset_base: Some(Line::Clock),
                sideset_count: 1,
            })
            &&& r.shifting == (Shifting {
                clkdiv: 3200,
                autopull: true,
                autopush: true,
                pull_threshold: 32,
                push_threshold: 32,
                out_shift: ShiftDirection::Left,
                in_shift: ShiftDirection::Left,
            })
            &&& r.loaded.wrap_source == program.wrap_source
            &&& r.loaded.wrap_target == program.wrap_target
            &&& r.loaded.side_enable == program.side_optional
            &&& r.loaded.side_pindir == program.side_pindirs
            &&& forall|a: int|
                origin <= a < origin + program.code@.len() ==> #[trigger] r.loaded.memory.dom().contains(
                    a,
                ) && r.loaded.memory[a] == program.code@[a - origin]
            &&& forall|a: int|
                !(origin <= a < origin + program.code@.len()) ==> (
                #[trigger] r.loaded.memory.dom().contains(a) <==> m.loaded.memory.dom().contains(a))
                    && (m.loaded.memory.dom().contains(a) ==> r.loaded.memory[a]
                    == m.loaded.memory[a])
        }),
{
    let first = seq![Command::SetSideEnable(false), Command::Restart];
    law_run_in_parts(m, first + load_script(program) + pin_script(), queue_script());
    law_run_in_parts(m, first + load_script(program), pin_script());
    law_run_in_parts(m, first, load_script(program));
    let ready = m.run(first);
    let loaded = ready.run(load_script(program));
    let pinned = loaded.run(pin_script());
    lemma_first(m);
    lemma_run_by_parts(ready, load_script(program), 0);
    lemma_load_pins(ready.pins, program);
    lemma_load_exactly(ready.loaded, program);
    lemma_pins(loaded);
    lemma_run_by_parts(loaded, pin_script(), 0);
    lemma_run_on(loaded.pins, claim_script(), map_script(), 0);
    lemma_claim(loaded.pins);
    lemma_map(run_from(loaded.pins, claim_script(), 0));
    lemma_queues(pinned);
}

proof fn lemma_load_pins(pins: Pins, program: Program<'_>)
    ensures
        run_from(pins, load_script(program), 0) == (Pins {
            mapping: Mapping { sideset_count: program.side_bits, ..pins.mapping },
            ..pins
        }),
{
    reveal_with_fuel(run_from::<Pins>, 7);
}

proof fn lemma_load_exactly(loaded: Loaded, program: Program<'_>)
    ensures
        run_from(loaded, load_script(program), 0) == (Loaded {
            memory: loaded.step(load_script(program)[0]).memory,
            wrap_source: program.wrap_source,
            wrap_target: program.wrap_target,
            side_enable: program.side_optional,
            side_pindir: program.side_pindirs,
        }),
{
    reveal_with_fuel(run_from::<Loaded>, 7);
}

/// The state in which a transfer starts.
pub open spec fn started(m: Machine, entry: u8, pindir: u8, words: nat) -> Machine {
    Machine {
        control: Control {
            enabled: true,
            pc: entry,
            x: (32 * words - 1) as u32,
            queues_empty: true,
            irqs: m.control.irqs.remove(DONE_IRQ),
        },
        pins: m.pins.step(Command::SetPindir(pindir)),
        ..m
    }
}

proof fn lemma_start_control(control: Control, entry: u8, pindir: u8, words: nat)
    ensures
        run_from(control, start_script(entry, pindir, words), 0) == (Control {
            enabled: true,
            pc: entry,
            x: (32 * words - 1) as u32,
            queues_empty: true,
            irqs: control.irqs.remove(DONE_IRQ),
        }),
{
    reveal_with_fuel(run_from::<Control>, 10);
}

proof fn lemma_start_pins(pins: Pins, entry: u8, pindir: u8, words: nat)
    ensures
        run_from(pins, start_script(entry, pindir, words), 0) == pins.step(
            Command::SetPindir(pindir),
        ),
{
    reveal_with_fuel(run_from::<Pins>, 10);
}

proof fn lemma_start_rest(loaded: Loaded, shifting: Shifting, entry: u8, pindir: u8, words: nat)
    ensures
        run_from(loaded, start_script(entry, pindir, words), 0) == loaded,
        run_from(shifting, start_script(entry, pindir, words), 0) == shifting,
{
    reveal_with_fuel(run_from::<Loaded>, 10);
    reveal_with_fuel(run_from::<Shifting>, 10);
}

/// The commands that start a transfer keep the machine stopped until the last of them, and that
/// one starts it with empty queues and a clear flag, at the entry point, with the scratch register
/// one less than the number of bits. On a configured machine an odd `pindir` has the data line
/// driven then, and an even one has it released.
pub proof fn law_start(m: Machine, entry: u8, pindir: u8, words: nat)
    ensures
        m.run(start_script(entry, pindir, words)) == started(m, entry, pindir, words),
        forall|i: int|
            0 < i < start_script(entry, pindir, words).len() ==> !(#[trigger] m.run(
                start_script(entry, pindir, words).take(i),
            )).control.enabled,
        transferable(words) ==> started(m, entry, pindir, words).control.x + 1 == 32 * words,
        configured(m) ==> started(m, entry, pindir, words).pins.data.output == (pindir % 2 == 1),
{
    let cs = start_script(entry, pindir, words);
    lemma_run_by_parts(m, cs, 0);
    lemma_start_control(m.control, entry, pindir, words);
    lemma_start_pins(m.pins, entry, pindir, words);
    lemma_start_rest(m.loaded, m.shifting, entry, pindir, words);
    assert forall|i: int| 0 < i < cs.len() implies !(#[trigger] m.run(
        cs.take(i),
    )).control.enabled by {
        lemma_stays_stopped(m.step(cs[0]), cs.take(i), 1);
    }
}

/// A stopped machine that none of the commands from number `i` on starts stays stopped.
proof fn lemma_stays_stopped(m: Machine, commands: Seq<Command<'_>>, i: int)
    requires
        0 <= i <= commands.len(),
        !m.control.enabled,
        forall|j: int| i <= j < commands.len() ==> !(#[trigger] commands[j] is SetEnable),
    ensures
        !run_from(m, commands, i).control.enabled,
    decreases commands.len() - i,
{
    if i < commands.len() {
        lemma_stays_stopped(m.step(commands[i]), commands, i + 1);
    }
}

/// Of the commands of a write, one moves words: it pushes the given words, all of them and
/// unchanged, over the channel for writing. Of the commands of a read, one moves words: it fills
/// the words that are read into. Either comes right behind the command that starts the machine, and
/// no later command stops it.
pub proof fn law_one_transfer(spi: PioSpi, words: &[u32], count: nat, pull: Command<'_>)
    requires
        pull is DmaPull,
    ensures
        ({
            let w = write_script(spi, words);
            let r = read_script(spi, count, pull);
            let at = STARTING as int;
            &&& forall|i: int| 0 <= i < w.len() ==> (moves_words(#[trigger] w[i]) <==> i == at)
            &&& forall|i: int| 0 <= i < r.len() ==> (moves_words(#[trigger] r[i]) <==> i == at)
            &&& w[at] == (Command::DmaPush { channel: spi.dma_write, words })
            &&& r[at] == pull
            &&& w[at - 1] == Command::SetEnable(true)
            &&& r[at - 1] == Command::SetEnable(true)
            &&& forall|i: int| at <= i < w.len() ==> !(#[trigger] w[i] is SetEnable)
            &&& forall|i: int| at <= i < r.len() ==> !(#[trigger] r[i] is SetEnable)
        }),
{
}

proof fn lemma_finish(m: Machine, transfer: Command<'_>, check: Command<'_>)
    requires
        moves_words(transfer),
        check is CheckTx || check is CheckRx,
    ensures
        m.run(finish_script(transfer, check)) == m,
{
    reveal_with_fuel(run_from::<Machine>, 4);
}

/// On a configured machine a write begins with the data line driven, and a read with the data line
/// released.
pub proof fn law_directions(
    m: Machine,
    spi: PioSpi,
    words: &[u32],
    count: nat,
    pull: Command<'_>,
)
    requires
        configured(m),
    ensures
        m.run(write_script(spi, words).take(STARTING as int)).pins.data.output,
        !m.run(read_script(spi, count, pull).take(STARTING as int)).pins.data.output,
{
    law_start(m, spi.write_start, 1, words@.len());
    law_start(m, spi.read_start, 0, count);
    assert(write_script(spi, words).take(STARTING as int) =~= start_script(
        spi.write_start,
        1,
        words@.len(),
    ));
    assert(read_script(spi, count, pull).take(STARTING as int) =~= start_script(
        spi.read_start,
        0,
        count,
    ));
}

/// Every number of words can be transferred whose bits can be counted down from a 32-bit number, and
/// none cannot be but no words and too many.
pub proof fn law_transferable(words: nat)
    ensures
        transferable(words) <==> 1 <= words < 0x800_0000,
{
}

/// A transfer counts the bits of all its words and runs the part of the program that it needs: when
/// a write has been started the machine is to count the bits of the words that are written, from
/// where writing starts, and when a read has been started those of the words that are read, from
/// where reading starts. Both start with empty queues and with the flag clear that tells the end.
pub proof fn law_transfers_count_their_bits(
    m: Machine,
    spi: PioSpi,
    words: &[u32],
    count: nat,
    pull: Command<'_>,
)
    requires
        1 <= words@.len() < 0x800_0000,
        1 <= count < 0x800_0000,
    ensures
        ({
            let w = m.run(write_script(spi, words).take(9)).control;
            let r = m.run(read_script(spi, count, pull).take(9)).control;
            &&& w.x + 1 == 32 * words@.len()
            &&& r.x + 1 == 32 * count
            &&& w.pc == spi.write_start
            &&& r.pc == spi.read_start
            &&& w.enabled && w.queues_empty && !w.irqs.contains(0)
            &&& r.enabled && r.queues_empty && !r.irqs.contains(0)
        }),
{
    law_start(m, spi.write_start, 1, words@.len());
    law_start(m, spi.read_start, 0, count);
    assert(write_script(spi, words).take(9) =~= start_script(spi.write_start, 1, words@.len()));
    assert(read_script(spi, count, pull).take(9) =~= start_script(spi.read_start, 0, count));
}

/// Whatever its program does meanwhile, a transfer leaves a configured machine enabled and
/// configured and its program in place, so that transfers can follow one another in any order.
pub proof fn law_transfers(
    m: Machine,
    spi: PioSpi,
    words: &[u32],
    count: nat,
    pull: Command<'_>,
    end: Machine,
)
    requires
        configured(m),
        pull is DmaPull,
        m.run(write_script(spi, words)).can_reach(end) || m.run(
            read_script(spi, count, pull),
        ).can_reach(end),
    ensures
        configured(end),
        end.loaded == m.loaded,
        end.control.enabled,
{
    let writing = start_script(spi.write_start, 1, words@.len());
    let reading = start_script(spi.read_start, 0, count);
    let push = Command::DmaPush { channel: spi.dma_write, words };
    law_start(m, spi.write_start, 1, words@.len());
    law_start(m, spi.read_start, 0, count);
    law_run_in_parts(m, writing, finish_script(push, Command::CheckTx));
    law_run_in_parts(m, reading, finish_script(pull, Command::CheckRx));
    lemma_finish(m.run(writing), push, Command::CheckTx);
    lemma_finish(m.run(reading), pull, Command::CheckRx);
}

proof fn lemma_level_pins(pins: Pins, level: Level)
    requires
        pins.mapping.out_pins == Some(Line::Data),
    ensures
        run_from(pins, level_script(level), 0) == (Pins {
            data: Wire { output: true, high: level == Level::High, ..pins.data },
            ..pins
        }),
{
    reveal_with_fuel(run_from::<Pins>, 5);
    if level == Level::High {
        assert(level_script(level)[3] == Command::SetOutPin(0xffffffff));
    } else {
        assert(level_script(level)[3] == Command::SetOutPin(0));
    }
}

proof fn lemma_level_rest(m: Machine, level: Level)
    ensures
        m.run(level_script(level)) == (Machine {
            control: Control { enabled: false, ..m.control },
            pins: run_from(m.pins, level_script(level), 0),
            ..m
        }),
{
    lemma_run_by_parts(m, level_script(level), 0);
    reveal_with_fuel(run_from::<Control>, 5);
    reveal_with_fuel(run_from::<Loaded>, 5);
    reveal_with_fuel(run_from::<Shifting>, 5);
}

/// On a configured machine the data line can be held at either level. The machine is stopped and
/// stays configured.
pub proof fn law_data_level(m: Machine, level: Level)
    requires
        configured(m),
    ensures
        ({
            let r = m.run(level_script(level));
            &&& !r.control.enabled
            &&& r.pins.data.output
            &&& r.pins.data.high == (level == Level::High)
            &&& configured(r)
            &&& r.loaded == m.loaded
        }),
{
    lemma_level_pins(m.pins, level);
    lemma_level_rest(m, level);
}

} // verus!
