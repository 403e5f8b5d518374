//! Commands and block transfers, register access by register access.

use imxrt_usdhc::cmd::UsdCmdFlags;
use imxrt_usdhc::reg::{Action, Reg};
use imxrt_usdhc::transfer::{Transfer, COMMAND_POLLS, READ_DONE_POLLS};
use imxrt_usdhc::{SdError, UsdhcInner};

const HOST: UsdhcInner = UsdhcInner { source_clock_hz: 198_000_000 };

const CC: u32 = 0x1;
const TC: u32 = 0x2;
const BWR: u32 = 0x10;
const BRR: u32 = 0x20;
const CTOE: u32 = 0x1_0000;
const CCE: u32 = 0x2_0000;
const DTOE: u32 = 0x10_0000;
const DCE: u32 = 0x20_0000;
const RESETS: u32 = 0x0600_0000;

/// Run a transfer to its end, `answer` giving what each read gives; returns the
/// writes.
fn run(transfer: &mut Transfer, mut answer: impl FnMut(Reg) -> u32) -> Vec<(Reg, u32)> {
    let mut writes = Vec::new();
    loop {
        match transfer.action() {
            Action::Read(reg) => {
                let value = answer(reg);
                transfer.advance(value);
            }
            Action::Write(reg, value) => {
                writes.push((reg, value));
                transfer.advance(0);
            }
            Action::Finished => return writes,
        }
    }
}

/// Readings that are given one after the other, then the last one for ever.
fn script(values: &[u32]) -> impl FnMut() -> u32 {
    let values = values.to_vec();
    let mut next = 0;
    move || {
        let value = values[next.min(values.len() - 1)];
        next += 1;
        value
    }
}

#[test]
fn command_and_its_response() {
    let mut t = HOST.send_cmd(13, 0xBEEF_0000, UsdCmdFlags::R1);
    assert_eq!(t.outcome(), None);
    let writes = run(&mut t, |reg| match reg {
        Reg::IntStatus => CC,
        Reg::CmdRsp0 => 0x900,
        _ => 0,
    });
    assert_eq!(
        writes,
        [
            (Reg::IntStatus, 0xFFFF_FFFF),
            (Reg::CmdArg, 0xBEEF_0000),
            (Reg::CmdXfrTyp, 0x0D1A_0000),
            (Reg::IntStatus, CC),
        ]
    );
    assert_eq!(t.outcome(), Some(Ok(())));
    let r = t.response();
    assert_eq!((r.rsp0, r.rsp1, r.rsp2, r.rsp3), (0x900, 0, 0, 0));
}

#[test]
fn long_response_is_aligned() {
    // The registers hold bits 127..8 of the response.
    let bits = 0x0011_2233_4455_6677_8899_AABB_CCDD_EEFFu128;
    let mut t = HOST.send_cmd(9, 0, UsdCmdFlags::R2);
    let writes = run(&mut t, |reg| match reg {
        Reg::IntStatus => CC,
        Reg::CmdRsp0 => bits as u32,
        Reg::CmdRsp1 => (bits >> 32) as u32,
        Reg::CmdRsp2 => (bits >> 64) as u32,
        Reg::CmdRsp3 => (bits >> 96) as u32,
        _ => 0,
    });
    assert_eq!(writes[2], (Reg::CmdXfrTyp, 0x0901_0000));
    assert_eq!(t.outcome(), Some(Ok(())));
    let r = t.response();
    assert_eq!(
        (r.rsp3, r.rsp2, r.rsp1, r.rsp0),
        (0x1122_3344, 0x5566_7788, 0x99AA_BBCC, 0xDDEE_FF00)
    );
}

#[test]
fn command_waits_for_a_free_line() {
    let mut t = HOST.send_cmd(0, 0, UsdCmdFlags::NoResponse);
    let mut lines = script(&[1, 1, 3, 2]);
    let mut polls = 0;
    // A command without data does not wait for the data lines (bit 1).
    let writes = run(&mut t, |reg| match reg {
        Reg::PresState => {
            polls += 1;
            lines()
        }
        Reg::IntStatus => CC,
        _ => 0,
    });
    assert_eq!(polls, 4);
    assert_eq!(writes.len(), 4);
    assert_eq!(t.outcome(), Some(Ok(())));
}

#[test]
fn busy_line_is_given_up() {
    for kind in 0..3 {
        let mut t = match kind {
            0 => HOST.send_cmd(0, 0, UsdCmdFlags::NoResponse),
            1 => HOST.read_block(17, 0, &[0; 512]),
            _ => HOST.write_block(24, 0, &[0; 512]),
        };
        let mut polls = 0;
        let mut sys = script(&[0x80E0, 0x0600_80E0, 0x0400_80E0, 0x0400_80E0, 0x80E0]);
        let writes = run(&mut t, |reg| match reg {
            Reg::PresState => {
                polls += 1;
                1
            }
            Reg::SysCtrl => sys(),
            _ => 0,
        });
        assert_eq!(polls, COMMAND_POLLS + 1);
        // Nothing but the reset of the lines was written.
        assert_eq!(writes, [(Reg::SysCtrl, 0x80E0 | RESETS)]);
        assert_eq!(t.outcome(), Some(Err(SdError::Timeout)));
    }
}

#[test]
fn data_lines_are_waited_for_together_with_the_command_line() {
    let mut t = HOST.read_block(17, 0, &[6; 512]);
    let mut polls = 0;
    let writes = run(&mut t, |reg| match reg {
        Reg::PresState => {
            polls += 1;
            2
        }
        _ => 0,
    });
    // Each round reads the register once for each line.
    assert_eq!(polls, 2 * (COMMAND_POLLS + 1));
    assert_eq!(t.outcome(), Some(Err(SdError::Timeout)));
    assert_eq!(writes, [(Reg::SysCtrl, RESETS)]);
    assert_eq!(*t.block(), [6; 512]);
}

fn pattern() -> [u8; 512] {
    core::array::from_fn(|i| (i * 7 + i / 256) as u8)
}

#[test]
fn block_is_written() {
    let data = pattern();
    let mut t = HOST.write_block(24, 0x1234, &data);
    let mut status = script(&[0, CC, CC, BWR, BWR, TC, TC]);
    let writes = run(&mut t, |reg| match reg {
        Reg::IntStatus => status(),
        _ => 0,
    });
    assert_eq!(
        writes[..6],
        [
            (Reg::IntStatus, 0xFFFF_FFFF),
            (Reg::BlkAtt, 0x0001_0200),
            (Reg::MixCtrl, 0),
            (Reg::CmdArg, 0x1234),
            (Reg::CmdXfrTyp, 0x183A_0000),
            (Reg::IntStatus, CC),
        ]
    );
    for i in 0..128 {
        let word = u32::from_le_bytes([
            data[4 * i],
            data[4 * i + 1],
            data[4 * i + 2],
            data[4 * i + 3],
        ]);
        assert_eq!(writes[6 + i], (Reg::DataBuffAccPort, word));
    }
    assert_eq!(writes[134..], [(Reg::IntStatus, BWR), (Reg::IntStatus, TC)]);
    assert_eq!(t.outcome(), Some(Ok(())));
    assert_eq!(*t.block(), data);
}

#[test]
fn completion_that_shows_before_the_data_is_not_enough() {
    let mut t = HOST.write_block(24, 0, &[1; 512]);
    // TC shows along with BWR, and not again until some polls after the data.
    let mut status = script(&[CC, CC, BWR | TC, BWR | TC, 0, 0, 0, 0, TC]);
    let mut reads = 0;
    run(&mut t, |reg| match reg {
        Reg::IntStatus => {
            reads += 1;
            status()
        }
        _ => 0,
    });
    assert_eq!(reads, 9);
    assert_eq!(t.outcome(), Some(Ok(())));
}

#[test]
fn block_is_read() {
    let data = pattern();
    let mut t = HOST.read_block(17, 7, &[0xEE; 512]);
    let mut status = script(&[0, CC, BRR, BRR, 0, 0, TC]);
    let mut index = 0;
    let writes = run(&mut t, |reg| match reg {
        Reg::IntStatus => status(),
        Reg::DataBuffAccPort => {
            let i = 4 * index;
            index += 1;
            u32::from_le_bytes([data[i], data[i + 1], data[i + 2], data[i + 3]])
        }
        _ => 0,
    });
    assert_eq!(index, 128);
    assert_eq!(
        writes,
        [
            (Reg::IntStatus, 0xFFFF_FFFF),
            (Reg::BlkAtt, 0x0001_0200),
            (Reg::MixCtrl, 0x10),
            (Reg::CmdArg, 7),
            (Reg::CmdXfrTyp, 0x113A_0000),
            (Reg::IntStatus, CC),
            (Reg::IntStatus, BRR),
            (Reg::IntStatus, TC),
        ]
    );
    assert_eq!(t.outcome(), Some(Ok(())));
    assert_eq!(*t.block(), data);
}

#[test]
fn what_a_write_puts_out_a_read_takes_in() {
    let data = pattern();
    let mut write = HOST.write_block(24, 0, &data);
    let out = run(&mut write, |reg| match reg {
        Reg::IntStatus => CC | BWR | TC,
        _ => 0,
    });
    let words: Vec<u32> =
        out.iter().filter(|w| w.0 == Reg::DataBuffAccPort).map(|w| w.1).collect();
    let mut words_in = script(&words);
    let mut read = HOST.read_block(17, 0, &[0; 512]);
    run(&mut read, |reg| match reg {
        Reg::IntStatus => CC | BRR | TC,
        Reg::DataBuffAccPort => words_in(),
        _ => 0,
    });
    assert_eq!(*read.block(), data);
}

/// A transfer that meets the error `status` at its `at`-th reading of the status, on
/// a peripheral whose status flags are cleared by writing them.
fn failing(mut t: Transfer, at: usize, status: u32) -> (Vec<(Reg, u32)>, Transfer) {
    let mut reads = 0;
    let mut sys = script(&[0x0008_80E0, 0x0608_80E0, 0x0408_80E0, 0x0408_80E0, 0x0008_80E0]);
    let writes = run(&mut t, |reg| match reg {
        Reg::IntStatus => {
            reads += 1;
            if reads <= at {
                CC | BRR | BWR
            } else if reads == at + 1 {
                status
            } else {
                // The error was acknowledged.
                0
            }
        }
        Reg::SysCtrl => sys(),
        _ => 0,
    });
    // Nothing is looked for in the status once the error was acknowledged.
    assert_eq!(reads, at + 1);
    (writes, t)
}

#[test]
fn failed_command() {
    let cases = [
        (CTOE, SdError::Timeout),
        (CTOE | CCE | DCE, SdError::Timeout),
        (CCE, SdError::CrcError),
        (DCE, SdError::CrcError),
        (0x0008_0000 | CCE, SdError::CrcError),
        (DTOE, SdError::Timeout),
        (DTOE | DCE, SdError::Timeout),
        (0x0008_0000 | CC, SdError::CommandFailed(0x0008_0001)),
    ];
    for (status, error) in cases {
        let command = HOST.send_cmd(8, 0x1AA, UsdCmdFlags::R7);
        let (writes, t) = failing(command, 0, status);
        assert_eq!(
            writes,
            [
                (Reg::IntStatus, 0xFFFF_FFFF),
                (Reg::CmdArg, 0x1AA),
                (Reg::CmdXfrTyp, 0x081A_0000),
                (Reg::IntStatus, status),
                (Reg::SysCtrl, 0x0008_80E0 | RESETS),
            ]
        );
        assert_eq!(t.outcome(), Some(Err(error)));
    }
}

#[test]
fn every_error_bit_is_an_error() {
    for bit in 16..=28 {
        let status = 1u32 << bit;
        let command = HOST.send_cmd(8, 0x1AA, UsdCmdFlags::R7);
        let (_, t) = failing(command, 0, status);
        let error = match status {
            CTOE | DTOE => SdError::Timeout,
            CCE | DCE => SdError::CrcError,
            _ => SdError::CommandFailed(status),
        };
        assert_eq!(t.outcome(), Some(Err(error)));
    }
    // Bits outside the mask are no errors.
    for bit in [2, 15, 29, 31] {
        let mut t = HOST.send_cmd(8, 0x1AA, UsdCmdFlags::R7);
        run(&mut t, |reg| match reg {
            Reg::IntStatus => 1 << bit | CC,
            _ => 0,
        });
        assert_eq!(t.outcome(), Some(Ok(())));
    }
}

#[test]
fn block_transfer_fails_with_its_command() {
    let cases = [
        (CTOE, SdError::Timeout),
        (CTOE | CCE, SdError::Timeout),
        (CCE, SdError::CrcError),
        (DTOE, SdError::Timeout),
        (DCE, SdError::CrcError),
        (0x0004_0000, SdError::CommandFailed(0x0004_0000)),
    ];
    for (status, error) in cases {
        for reading in [true, false] {
            let block = if reading {
                HOST.read_block(17, 0, &[5; 512])
            } else {
                HOST.write_block(24, 0, &[5; 512])
            };
            let (writes, t) = failing(block, 0, status);
            assert_eq!(writes.len(), 7);
            assert_eq!(
                writes[5..],
                [(Reg::IntStatus, status), (Reg::SysCtrl, 0x0008_80E0 | RESETS)]
            );
            assert_eq!(t.outcome(), Some(Err(error)));
            assert_eq!(*t.block(), [5; 512]);
        }
    }
}

#[test]
fn block_transfer_fails_before_its_data() {
    let cases = [
        (DTOE, SdError::Timeout),
        (DTOE | DCE, SdError::Timeout),
        (DCE, SdError::CrcError),
        (CCE, SdError::CrcError),
        (CTOE, SdError::Timeout),
        (0x0040_0000, SdError::CommandFailed(0x0040_0000)),
    ];
    for (status, error) in cases {
        for reading in [true, false] {
            let block = if reading {
                HOST.read_block(17, 0, &[5; 512])
            } else {
                HOST.write_block(24, 0, &[5; 512])
            };
            let (writes, t) = failing(block, 2, status);
            assert_eq!(
                writes[5..],
                [
                    (Reg::IntStatus, CC),
                    (Reg::IntStatus, status),
                    (Reg::SysCtrl, 0x0008_80E0 | RESETS)
                ]
            );
            assert_eq!(t.outcome(), Some(Err(error)));
            assert_eq!(*t.block(), [5; 512]);
        }
    }
}

#[test]
fn block_transfer_fails_after_its_data() {
    let cases = [
        (DCE, SdError::CrcError),
        (DTOE, SdError::Timeout),
        (DTOE | DCE, SdError::Timeout),
        (0x1000_0000, SdError::CommandFailed(0x1000_0000)),
    ];
    for (error_status, error) in cases {
        let mut t = HOST.write_block(24, 0, &[5; 512]);
        // The status shows neither completion nor an error at first.
        let mut status = script(&[CC, CC, BWR, BWR, 0, 0, 0, error_status, 0]);
        let mut resets = script(&[0x10, 0x0200_0010, 0x10, 0x0400_0010, 0x10]);
        let mut reset_polls = 0;
        let writes = run(&mut t, |reg| match reg {
            Reg::IntStatus => status(),
            Reg::SysCtrl => {
                reset_polls += 1;
                resets()
            }
            _ => 0,
        });
        assert_eq!(
            writes[134..],
            [
                (Reg::IntStatus, BWR),
                (Reg::IntStatus, error_status),
                (Reg::SysCtrl, 0x10 | RESETS)
            ]
        );
        assert_eq!(reset_polls, 5);
        assert_eq!(t.outcome(), Some(Err(error)));
    }
}

#[test]
fn block_read_fails_after_its_data() {
    let mut t = HOST.read_block(17, 0, &[0xEE; 512]);
    let mut status = script(&[CC, CC, BRR, BRR, 0, DCE, 0]);
    run(&mut t, |reg| match reg {
        Reg::IntStatus => status(),
        Reg::DataBuffAccPort => 0x0403_0201,
        _ => 0,
    });
    assert_eq!(t.outcome(), Some(Err(SdError::CrcError)));
    // The block is in, for what it is worth.
    assert_eq!(t.block()[508..], [1, 2, 3, 4]);
}

#[test]
fn block_transfer_gives_up_its_command() {
    let mut t = HOST.read_block(17, 0, &[0; 512]);
    let mut polls = 0;
    let writes = run(&mut t, |reg| match reg {
        Reg::IntStatus => {
            polls += 1;
            0
        }
        _ => 0,
    });
    assert_eq!(polls, 2 * (COMMAND_POLLS + 1));
    assert_eq!(writes.len(), 6);
    assert_eq!(writes[5], (Reg::SysCtrl, RESETS));
    assert_eq!(t.outcome(), Some(Err(SdError::Timeout)));
    assert_eq!(*t.block(), [0; 512]);
}

#[test]
fn block_read_gives_up_its_completion() {
    let mut t = HOST.read_block(17, 0, &[0; 512]);
    let mut polls = 0u32;
    run(&mut t, |reg| match reg {
        Reg::IntStatus => {
            polls += 1;
            if polls <= 2 {
                CC
            } else if polls <= 4 {
                BRR
            } else {
                0
            }
        }
        _ => 0,
    });
    assert_eq!(polls, 4 + 2 * (READ_DONE_POLLS + 1));
    assert_eq!(t.outcome(), Some(Err(SdError::Timeout)));
}

#[test]
fn command_without_data_is_waited_for_without_limit() {
    let mut t = HOST.send_cmd(7, 0, UsdCmdFlags::R1B);
    let mut polls = 0u32;
    run(&mut t, |reg| match reg {
        Reg::IntStatus => {
            polls += 1;
            if polls > 1_000_000 {
                CC
            } else {
                0
            }
        }
        _ => 0,
    });
    assert_eq!(t.outcome(), Some(Ok(())));
}
