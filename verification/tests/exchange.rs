//! The exchange with the host, call by call.

use imxrt_usdhc::cmd::UsdCmdFlags;
use imxrt_usdhc::{BusWidth, CardType, CmdResponse, SdError, SdHost, SdProtocol, Usdhc};

/// A host that records what it is asked.
struct Recorder {
    calls: Vec<String>,
    /// What ACMD41 answers.
    ocr: u32,
    /// What CMD8 answers.
    echo: u32,
    /// The command that fails, and how.
    failing: Option<(u32, SdError)>,
}

impl Recorder {
    fn new() -> Recorder {
        Recorder { calls: Vec::new(), ocr: 0xC0FF_8000, echo: 0x1AA, failing: None }
    }

    fn count(&self, call: &str) -> usize {
        self.calls.iter().filter(|c| c.as_str() == call).count()
    }
}

impl SdHost for Recorder {
    fn send_cmd(
        &mut self,
        cmd_index: u32,
        arg: u32,
        flags: UsdCmdFlags,
    ) -> Result<CmdResponse, SdError> {
        self.calls.push(format!("{cmd_index} {arg:#x} {flags:?}"));
        if let Some((index, error)) = self.failing {
            if index == cmd_index {
                return Err(error);
            }
        }
        let rsp0 = match cmd_index {
            8 => self.echo,
            41 => self.ocr,
            3 => 0x1234_0500,
            _ => 0,
        };
        // A version 2 CSD with C_SIZE 7.
        if cmd_index == 9 {
            return Ok(CmdResponse { rsp0: 0, rsp1: 0x0007_0000, rsp2: 0, rsp3: 0x4000_0000 });
        }
        Ok(CmdResponse { rsp0, rsp1: 0, rsp2: 0, rsp3: 0 })
    }

    fn read_block(
        &mut self,
        cmd_index: u32,
        arg: u32,
        buf: &mut [u8; 512],
    ) -> Result<(), SdError> {
        self.calls.push(format!("read {cmd_index} {arg:#x}"));
        buf.fill(arg as u8);
        if let Some((index, error)) = self.failing {
            if index == cmd_index {
                return Err(error);
            }
        }
        Ok(())
    }

    fn write_block(&mut self, cmd_index: u32, arg: u32, buf: &[u8; 512]) -> Result<(), SdError> {
        self.calls.push(format!("write {cmd_index} {arg:#x} {:#x}", buf[0]));
        if let Some((index, error)) = self.failing {
            if index == cmd_index {
                return Err(error);
            }
        }
        Ok(())
    }

    fn set_clock(&mut self, target_hz: u32) {
        self.calls.push(format!("clock {target_hz}"));
    }

    fn set_bus_width(&mut self, width: BusWidth) {
        self.calls.push(format!("width {width:?}"));
    }

    fn reset_and_configure(&mut self) {
        self.calls.push(String::from("reset"));
    }

    fn send_initial_clocks(&mut self) {
        self.calls.push(String::from("initial clocks"));
    }
}

fn protocol(host: Recorder) -> SdProtocol<Recorder> {
    SdProtocol { host, card_type: CardType::Sdhc, block_count: 0, rca: 0 }
}

#[test]
fn bring_up_of_a_version_2_card() {
    let driver = Usdhc::new(Recorder::new()).unwrap();
    assert_eq!(
        driver.host().calls,
        [
            "reset",
            "clock 400000",
            "initial clocks",
            "0 0x0 NoResponse",
            "8 0x1aa R7",
            "55 0x0 R1",
            "41 0x40ff8000 R3",
            "2 0x0 R2",
            "3 0x0 R6",
            "9 0x12340000 R2",
            "7 0x12340000 R1B",
            "clock 25000000",
            "55 0x12340000 R1",
            "6 0x2 R1",
            "width Four",
            "16 0x200 R1",
        ]
    );
    assert_eq!(driver.card_type(), CardType::Sdhc);
    assert_eq!(driver.block_count(), 8 * 1024);
}

#[test]
fn bring_up_of_a_version_1_card() {
    let mut host = Recorder::new();
    host.failing = Some((8, SdError::Timeout));
    host.ocr = 0x80FF_8000;
    let driver = Usdhc::new(host).unwrap();
    // High capacity is not offered.
    assert_eq!(driver.host().calls[6], "41 0xff8000 R3");
    assert_eq!(driver.card_type(), CardType::Sdsc);
}

#[test]
fn cmd8_wrong_echo_is_no_card() {
    for echo in [0u32, 0x1AB, 0xAA, 0x2AA, 0x55] {
        let mut host = Recorder::new();
        host.echo = echo;
        let mut p = protocol(host);
        assert_eq!(p.card_init(), Err(SdError::NoCard));
        // Nothing was asked after it.
        assert_eq!(p.host.calls, ["0 0x0 NoResponse", "8 0x1aa R7"]);
    }
}

#[test]
fn cmd8_echo_above_the_pattern_is_ignored() {
    let mut host = Recorder::new();
    host.echo = 0xFFFF_FFAA;
    assert!(protocol(host).card_init().is_ok());
}

#[test]
fn a_card_that_does_not_power_up_is_polled_1000_times() {
    for ocr in [0u32, 0x40FF_8000, 0x7FFF_FFFF] {
        let mut host = Recorder::new();
        host.ocr = ocr;
        let mut p = protocol(host);
        assert_eq!(p.bring_up(), Err(SdError::NoCard));
        assert_eq!(p.host.count("41 0x40ff8000 R3"), 1000);
        assert_eq!(p.host.count("55 0x0 R1"), 1000);
        assert_eq!(p.host.calls.len(), 2005);
        assert!(p.host.calls.len() <= 2014);
    }
}

#[test]
fn the_first_failure_ends_the_exchange() {
    let names = [
        (0, "0 0x0 NoResponse"),
        (8, "8 0x1aa R7"),
        (55, "55 0x0 R1"),
        (41, "41 0x40ff8000 R3"),
        (2, "2 0x0 R2"),
        (3, "3 0x0 R6"),
        (9, "9 0x12340000 R2"),
        (7, "7 0x12340000 R1B"),
        (6, "6 0x2 R1"),
        (16, "16 0x200 R1"),
    ];
    for (command, call) in names {
        for error in [SdError::CrcError, SdError::NoCard, SdError::CommandFailed(command)] {
            let mut host = Recorder::new();
            host.failing = Some((command, error));
            let mut p = protocol(host);
            assert_eq!(p.bring_up(), Err(error));
            assert_eq!(p.host.calls.last().unwrap(), call);
        }
    }
}

#[test]
fn application_command_is_announced() {
    let mut p = protocol(Recorder::new());
    p.rca = 0xABCD;
    assert_eq!(p.send_acmd(41, 5, UsdCmdFlags::R3).unwrap().rsp0, 0xC0FF_8000);
    assert_eq!(p.host.calls, ["55 0xabcd0000 R1", "41 0x5 R3"]);
    p.host.calls.clear();
    p.host.failing = Some((55, SdError::CrcError));
    assert_eq!(p.send_acmd(41, 5, UsdCmdFlags::R3), Err(SdError::CrcError));
    assert_eq!(p.host.calls, ["55 0xabcd0000 R1"]);
}

#[test]
fn reading_the_csd() {
    let mut p = protocol(Recorder::new());
    p.rca = 1;
    assert_eq!(p.read_csd(), Ok(()));
    assert_eq!(p.block_count, 8192);
    assert_eq!(p.host.calls, ["9 0x10000 R2"]);
    p.host.failing = Some((9, SdError::CrcError));
    p.block_count = 3;
    assert_eq!(p.read_csd(), Err(SdError::CrcError));
    assert_eq!(p.block_count, 3);
}

#[test]
fn setting_the_bus_width() {
    let mut p = protocol(Recorder::new());
    p.rca = 2;
    assert_eq!(p.set_bus_width_4bit(), Ok(()));
    assert_eq!(p.host.calls, ["55 0x20000 R1", "6 0x2 R1", "width Four"]);
    p.host.calls.clear();
    p.host.failing = Some((6, SdError::CrcError));
    assert_eq!(p.set_bus_width_4bit(), Err(SdError::CrcError));
    assert_eq!(p.host.calls, ["55 0x20000 R1", "6 0x2 R1"]);
    p.host.calls.clear();
    p.host.failing = Some((55, SdError::Timeout));
    assert_eq!(p.set_bus_width_4bit(), Err(SdError::Timeout));
    assert_eq!(p.host.calls, ["55 0x20000 R1"]);
}

#[test]
fn card_init_asks_for_nothing_but_commands() {
    let mut p = protocol(Recorder::new());
    p.card_init().unwrap();
    assert_eq!(p.host.calls.first().unwrap(), "0 0x0 NoResponse");
    assert_eq!(p.host.calls.last().unwrap(), "7 0x12340000 R1B");
    assert_eq!(p.host.calls.len(), 8);
}

#[test]
fn blocks_are_asked_for_one_at_a_time() {
    let mut driver = Usdhc::new(Recorder::new()).unwrap();
    driver.host_mut().calls.clear();
    let mut blocks = [imxrt_usdhc::Block::new(), imxrt_usdhc::Block::new()];
    driver.read(&mut blocks, 0x20).unwrap();
    assert_eq!(driver.host().calls, ["read 17 0x20", "read 17 0x21"]);
    assert_eq!(blocks[0].contents, [0x20u8; 512]);
    assert_eq!(blocks[1].contents, [0x21u8; 512]);
    driver.host_mut().calls.clear();
    driver.write(&blocks, 0x30).unwrap();
    assert_eq!(driver.host().calls, ["write 24 0x30 0x20", "write 24 0x31 0x21"]);
}

#[test]
fn a_failed_block_ends_the_transfer() {
    let mut driver = Usdhc::new(Recorder::new()).unwrap();
    driver.host_mut().calls.clear();
    driver.host_mut().failing = Some((24, SdError::CrcError));
    let blocks = [imxrt_usdhc::Block::new(), imxrt_usdhc::Block::new()];
    assert_eq!(driver.write(&blocks, 0), Err(SdError::CrcError));
    assert_eq!(driver.host().calls, ["write 24 0x0 0x0"]);
}

#[test]
fn status_is_asked_of_the_selected_card() {
    let mut driver = Usdhc::new(Recorder::new()).unwrap();
    driver.host_mut().calls.clear();
    assert_eq!(driver.card_status(), Ok(0));
    assert_eq!(driver.host().calls, ["13 0x12340000 R1"]);
}
