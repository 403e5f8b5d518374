//! Peripheral set-up, register access by register access.

use imxrt_usdhc::reg::{Access, Action, Reg};
use imxrt_usdhc::sequence::Setup;
use imxrt_usdhc::{BusWidth, UsdhcInner};

/// Run a sequence to its end, `answer` giving what each read gives; returns the
/// accesses.
fn run(mut setup: Setup, mut answer: impl FnMut(Reg, usize) -> u32) -> Vec<Access> {
    let mut log = Vec::new();
    loop {
        match setup.action() {
            Action::Read(reg) => {
                let value = answer(reg, log.len());
                log.push(Access::Read(reg, value));
                setup.advance(value);
            }
            Action::Write(reg, value) => {
                log.push(Access::Write(reg, value));
                setup.advance(0);
            }
            Action::Finished => return log,
        }
    }
}

fn host(source_clock_hz: u32) -> UsdhcInner {
    UsdhcInner { source_clock_hz }
}

#[test]
fn reset_and_configure() {
    let sys = [0x0008_800F, 0, 0x0900_0000, 0x0108_0000, 0x0008_0000, 0xFFF1_000F];
    let log = run(host(0).reset_and_configure(), |reg, at| match reg {
        Reg::SysCtrl => sys[at],
        _ => 0x2000_0000,
    });
    assert_eq!(
        log,
        [
            Access::Read(Reg::SysCtrl, 0x0008_800F),
            Access::Write(Reg::SysCtrl, 0x0108_800F),
            // The reset is over once RSTA reads as zero.
            Access::Read(Reg::SysCtrl, 0x0900_0000),
            Access::Read(Reg::SysCtrl, 0x0108_0000),
            Access::Read(Reg::SysCtrl, 0x0008_0000),
            Access::Read(Reg::SysCtrl, 0xFFF1_000F),
            Access::Write(Reg::SysCtrl, 0xFFFE_000F),
            Access::Write(Reg::ProtCtrl, 0x20),
            Access::Write(Reg::WtmkLvl, 0x0080_0080),
            Access::Write(Reg::IntStatusEn, 0x007F_0033),
            Access::Write(Reg::IntSignalEn, 0),
            Access::Read(Reg::VendSpec, 0x2000_0000),
            Access::Write(Reg::VendSpec, 0x2000_0100),
        ]
    );
}

#[test]
fn initial_clocks() {
    let sys = [0x80E0, 0, 0x0800_80E0, 0x0800_80E0, 0x80E0];
    let log = run(host(0).send_initial_clocks(), |_, at| sys[at]);
    assert_eq!(
        log,
        [
            Access::Read(Reg::SysCtrl, 0x80E0),
            Access::Write(Reg::SysCtrl, 0x0800_80E0),
            Access::Read(Reg::SysCtrl, 0x0800_80E0),
            Access::Read(Reg::SysCtrl, 0x0800_80E0),
            Access::Read(Reg::SysCtrl, 0x80E0),
        ]
    );
}

/// The accesses of a clock change that finds the clock stable at its second look.
fn clock_change(source_clock_hz: u32, target_hz: u32) -> Vec<Access> {
    let mut looks = 0;
    run(host(source_clock_hz).set_clock(target_hz), |reg, _| match reg {
        Reg::PresState => {
            looks += 1;
            if looks == 1 {
                0xFFFF_FFF7
            } else {
                0x8
            }
        }
        Reg::SysCtrl => 0x000E_FFFF,
        _ => 0xFFFF_FFFF,
    })
}

#[test]
fn clock_is_gated_while_it_changes() {
    // SDCLKFS 16, DVS 15
    assert_eq!(
        clock_change(198_000_000, 400_000),
        [
            Access::Read(Reg::VendSpec, 0xFFFF_FFFF),
            Access::Write(Reg::VendSpec, 0xFFFF_FEFF),
            Access::Read(Reg::SysCtrl, 0x000E_FFFF),
            Access::Write(Reg::SysCtrl, 0x000E_10FF),
            Access::Read(Reg::PresState, 0xFFFF_FFF7),
            Access::Read(Reg::PresState, 0x8),
            Access::Read(Reg::VendSpec, 0xFFFF_FFFF),
            Access::Write(Reg::VendSpec, 0xFFFF_FFFF),
        ]
    );
    // SDCLKFS 1, DVS 3
    let fast = clock_change(198_000_000, 25_000_000);
    assert_eq!(fast[3], Access::Write(Reg::SysCtrl, 0x000E_013F));
}

#[test]
fn bus_width() {
    let four = run(host(0).set_bus_width(BusWidth::Four), |_, _| 0x24);
    assert_eq!(four, [Access::Read(Reg::ProtCtrl, 0x24), Access::Write(Reg::ProtCtrl, 0x22)]);
    let one = run(host(0).set_bus_width(BusWidth::One), |_, _| 0x22);
    assert_eq!(one, [Access::Read(Reg::ProtCtrl, 0x22), Access::Write(Reg::ProtCtrl, 0x20)]);
}
