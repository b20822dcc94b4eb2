use embedded_hal_async::spi::ErrorKind;
use pico_httpd::machine::{Command, Level};
use pico_httpd::pio_spi::{
    drained, setup_program, PioSpi, PioSpiError, Program, CLOCK_DIVIDER, STARTING,
};

const CODE: [u16; 3] = [0x1111, 0x2222, 0x3333];

fn program() -> Program<'static> {
    Program {
        code: &CODE,
        origin: Some(4),
        wrap_source: 2,
        wrap_target: 1,
        side_optional: true,
        side_pindirs: false,
        side_bits: 2,
        read: 7,
        write: 0x105,
    }
}

fn texts(commands: &[Command<'_>]) -> Vec<String> {
    commands.iter().map(|c| format!("{:?}", c)).collect()
}

#[test]
fn a_program_is_loaded_at_its_origin() {
    assert_eq!(
        texts(&setup_program(&program())),
        [
            "WriteInstr { start: 4, code: [4369, 8738, 13107] }",
            "SetWrap { source: 2, target: 1 }",
            "ExecJmp(4)",
            "SetSideEnable(true)",
            "SetSidePindir(false)",
            "SetSidesetCount(2)",
        ]
    );
    let anywhere = Program { origin: None, ..program() };
    let commands = texts(&setup_program(&anywhere));
    assert_eq!(commands[0], "WriteInstr { start: 0, code: [4369, 8738, 13107] }");
    assert_eq!(commands[2], "ExecJmp(0)");
}

#[test]
fn the_bus_is_brought_up() {
    let (spi, commands) = PioSpi::new(&program(), 8, 3);
    assert_eq!(spi.dma_write, 8);
    assert_eq!(spi.dma_read, 3);
    assert_eq!(spi.read_start, 7);
    assert_eq!(spi.write_start, 5);
    let commands = texts(&commands);
    assert_eq!(commands[..2], ["SetSideEnable(false)", "Restart"]);
    assert_eq!(commands[2..8], texts(&setup_program(&program())));
    assert_eq!(
        commands[8..],
        [
            "MakePioPin(Data)",
            "SetDriveStrength(Data, Ma12)",
            "SetSlewRate(Data, Fast)",
            "SetPull(Data, Up)",
            "SetSchmitt(Data, true)",
            "MakePioPin(Clock)",
            "SetSetPins(Clock)",
            "SetPindir(1)",
            "SetDriveStrength(Clock, Ma8)",
            "SetOutPins(Data)",
            "SetSetPins(Data)",
            "SetInBasePin(Data)",
            "SetSidesetCount(1)",
            "SetSidesetBasePin(Clock)",
            "SetInputSyncBypass(Data, true)",
            "SetClkdiv(3200)",
            "SetAutopull(true)",
            "SetAutopush(true)",
            "SetPullThreshold(32)",
            "SetPushThreshold(32)",
            "SetOutShiftDir(Left)",
            "SetInShiftDir(Left)",
        ]
    );
}

#[test]
fn the_clock_is_divided_by_twelve_and_a_half() {
    assert_eq!(CLOCK_DIVIDER, (125e6 / 10e6 * 256.0) as u32);
}

#[test]
fn a_write_drives_the_data_line() {
    let (mut spi, _) = PioSpi::new(&program(), 8, 3);
    assert_eq!(
        texts(&spi.write(&[1, 2, 3])),
        [
            "SetEnable(false)",
            "Restart",
            "ClearFifos",
            "SetPindir(1)",
            "ClkdivRestart",
            "SetX(95)",
            "ExecJmp(5)",
            "ClearIrq(0)",
            "SetEnable(true)",
            "DmaPush { channel: 8, words: [1, 2, 3] }",
            "WaitIrq(0)",
            "CheckTx",
        ]
    );
}

#[test]
fn a_read_releases_the_data_line() {
    let (mut spi, _) = PioSpi::new(&program(), 8, 3);
    assert_eq!(
        texts(&spi.read(&mut [9])),
        [
            "SetEnable(false)",
            "Restart",
            "ClearFifos",
            "SetPindir(0)",
            "ClkdivRestart",
            "SetX(31)",
            "ExecJmp(7)",
            "ClearIrq(0)",
            "SetEnable(true)",
            "DmaPull { channel: 3, buffer: [9] }",
            "WaitIrq(0)",
            "CheckRx",
        ]
    );
}

#[test]
fn a_write_pushes_the_given_words() {
    let (mut spi, _) = PioSpi::new(&program(), 8, 3);
    let words = [0xdead_beef, 0, 7];
    let commands = spi.write(&words);
    match &commands[STARTING] {
        Command::DmaPush { channel, words: pushed } => {
            assert_eq!(*channel, 8);
            assert_eq!(pushed.as_ptr(), words.as_ptr());
            assert_eq!(**pushed, words);
        }
        other => panic!("{:?}", other),
    }
}

#[test]
fn a_read_fills_the_words_of_the_caller() {
    let (mut spi, _) = PioSpi::new(&program(), 8, 3);
    let mut words = [0u32; 3];
    for command in spi.read(&mut words) {
        if let Command::DmaPull { channel, buffer } = command {
            assert_eq!(channel, 3);
            assert_eq!(buffer.len(), 3);
            buffer.copy_from_slice(&[5, 6, 7]);
        }
    }
    assert_eq!(words, [5, 6, 7]);
}

#[test]
fn words_move_once_in_a_transfer_and_never_in_the_setup() {
    let moves = |c: &Command<'_>| {
        matches!(c, Command::DmaPush { .. } | Command::DmaPull { .. })
    };
    let (mut spi, setup) = PioSpi::new(&program(), 8, 3);
    assert!(!setup.iter().any(moves));
    assert!(!setup.iter().any(|c| matches!(c, Command::SetEnable(_) | Command::WaitIrq(_))));
    let write = spi.write(&[1]);
    assert_eq!(write.iter().position(moves), Some(STARTING));
    assert_eq!(write.iter().filter(|c| moves(c)).count(), 1);
    let mut words = [0u32; 2];
    let read = spi.read(&mut words);
    assert_eq!(read.iter().position(moves), Some(STARTING));
    assert_eq!(read.iter().filter(|c| moves(c)).count(), 1);
}

#[test]
fn the_data_line_is_held() {
    let (mut spi, _) = PioSpi::new(&program(), 8, 3);
    let low = texts(&spi.set_data_level(Level::Low));
    assert_eq!(
        low,
        ["SetEnable(false)", "Restart", "SetOutPindir(4294967295)", "SetOutPin(0)"]
    );
    let high = texts(&spi.set_data_level(Level::High));
    assert_eq!(high[..3], low[..3]);
    assert_eq!(high[3], "SetOutPin(4294967295)");
}

#[test]
fn flushing_waits_for_the_transfer() {
    let (mut spi, _) = PioSpi::new(&program(), 8, 3);
    assert_eq!(texts(&spi.flush()), ["WaitIrq(0)"]);
}

#[test]
fn a_finished_transfer_leaves_its_queue_empty() {
    assert!(drained(0, false));
    assert!(!drained(1, false));
    assert!(!drained(0, true));
    assert!(!drained(4, true));
}

#[test]
fn an_error_has_a_kind() {
    let error = PioSpiError { kind: ErrorKind::Overrun };
    assert_eq!(error.kind(), ErrorKind::Overrun);
    assert_eq!(format!("{:?}", error), "PioSpiError { kind: Overrun }");
}
