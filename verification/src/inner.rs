//! The USDHC peripheral: which register accesses carry out each host operation.

use vstd::prelude::*;
use crate::clock::compute_clock_divisors;
use crate::cmd::UsdCmdFlags;
use crate::host::BusWidth;
use crate::reg::{Access, Reg};
use crate::sequence::{Sequence, Setup, SetupModel};
use crate::transfer::{Kind, Request, Transfer, TransferModel};
use crate::usdhc::Block;

verus! {

/// A USDHC peripheral, apart from its registers: no protocol state.
#[derive(Debug, Clone, Copy, PartialEq, Eq, Structural)]
pub struct UsdhcInner {
    /// The USDHC root clock frequency in Hz.
    pub source_clock_hz: u32,
}

impl UsdhcInner {
    /// Send a command and receive its response.
    pub fn send_cmd(&self, cmd_index: u32, arg: u32, flags: UsdCmdFlags) -> (t: Transfer)
        ensures
            t.wf(),
            t@ == TransferModel::start(
                (Request { kind: Kind::Command(flags), cmd_index, arg }),
                Seq::new(512, |i: int| 0u8),
            ),
    {
        Transfer::new(
            Request { kind: Kind::Command(flags), cmd_index, arg },
            Block::new().contents,
        )
    }

    /// Send a command and read 512 bytes over `buf`.
    pub fn read_block(&self, cmd_index: u32, arg: u32, buf: &[u8; 512]) -> (t: Transfer)
        ensures
            t.wf(),
            t@ == TransferModel::start(
                (Request { kind: Kind::ReadBlock, cmd_index, arg }),
                buf@,
            ),
    {
        Transfer::new(Request { kind: Kind::ReadBlock, cmd_index, arg }, *buf)
    }

    /// Send a command and write the 512 bytes of `buf`.
    pub fn write_block(&self, cmd_index: u32, arg: u32, buf: &[u8; 512]) -> (t: Transfer)
        ensures
            t.wf(),
            t@ == TransferModel::start(
                (Request { kind: Kind::WriteBlock, cmd_index, arg }),
                buf@,
            ),
    {
        Transfer::new(Request { kind: Kind::WriteBlock, cmd_index, arg }, *buf)
    }

    /// Switch the SD clock to at most `target_hz`, with the best divisors that
    /// the source clock allows.
    pub fn set_clock(&self, target_hz: u32) -> (s: Setup)
        requires
            target_hz > 0,
        ensures
            s.wf(),
            s@.pos == 0 && s@.pending is None,
            s@.sequence matches Sequence::Clock { sdclkfs, dvs } && crate::clock::is_chosen(
                self.source_clock_hz as int,
                target_hz as int,
                sdclkfs as int,
                dvs as int,
            ),
    {
        let (sdclkfs, dvs) = compute_clock_divisors(self.source_clock_hz, target_hz);
        Setup::new(Sequence::Clock { sdclkfs, dvs })
    }

    /// Set the bus width of the peripheral.
    pub fn set_bus_width(&self, width: BusWidth) -> (s: Setup)
        ensures
            s.wf(),
            s@ == SetupModel::start(Sequence::Width(width)),
    {
        Setup::new(Sequence::Width(width))
    }

    /// Reset the peripheral and configure it. The card is not power-cycled.
    pub fn reset_and_configure(&self) -> (s: Setup)
        ensures
            s.wf(),
            s@ == SetupModel::start(Sequence::Reset),
    {
        Setup::new(Sequence::Reset)
    }

    /// Send the 80 initialization clock cycles.
    pub fn send_initial_clocks(&self) -> (s: Setup)
        ensures
            s.wf(),
            s@ == SetupModel::start(Sequence::InitialClocks),
    {
        Setup::new(Sequence::InitialClocks)
    }
}

/// What `set_clock` comes to: SYS_CTRL is written with divisors, SDCLKFS in bits 15..8
/// and DVS in bits 7..4, by which the source clock becomes at most the target, in whole
/// Hz, unless even the largest divisors leave it above.
pub proof fn law_clock_set(inner: UsdhcInner, target_hz: u32, setup: Setup, values: Seq<u32>)
    requires
        target_hz > 0,
        call_ensures(UsdhcInner::set_clock, (&inner, target_hz), setup),
        setup@.run(values).finished(),
    ensures
        ({
            let log = setup@.accesses(values);
            let source_hz = inner.source_clock_hz;
            &&& log.len() > 3
            &&& log[3] matches Access::Write(Reg::SysCtrl, w) && ({
                let f = ((w >> 8) & 0xFF) as int;
                let d = ((w >> 4) & 0xF) as int;
                &&& f > 0
                &&& source_hz as int / (2 * f * (d + 1)) <= target_hz || (f == 128 && d == 15
                    && source_hz > target_hz * 4096)
            })
        }),
{
    let source_hz = inner.source_clock_hz;
    let sdclkfs = setup@.sequence->sdclkfs;
    let dvs = setup@.sequence->dvs;
    crate::clock::law_divisors_in_numbers(
        source_hz as int,
        target_hz as int,
        sdclkfs as int,
        dvs as int,
        7,
        15,
    );
    vstd::arithmetic::power2::lemma2_to64();
    assert(setup@ == SetupModel::start(Sequence::Clock { sdclkfs, dvs }));
    crate::sequence::law_clock_change(sdclkfs, dvs, values);
}

/// What the other host operations come to. A bus width is written to PROT_CTRL bits 2..1,
/// 01 for four data lines; a reset sets SYS_CTRL bit 24 first and VEND_SPEC bit 8 last;
/// the initialization clocks set SYS_CTRL bit 27. The bits that are not named are kept.
pub proof fn law_host_set_up(
    inner: UsdhcInner,
    width: BusWidth,
    widened: Setup,
    reset: Setup,
    clocked: Setup,
    values: Seq<u32>,
)
    requires
        call_ensures(UsdhcInner::set_bus_width, (&inner, width), widened),
        call_ensures(UsdhcInner::reset_and_configure, (&inner,), reset),
        call_ensures(UsdhcInner::send_initial_clocks, (&inner,), clocked),
    ensures
        widened@.run(values).finished() ==> crate::sequence::updates_at(
            widened@.accesses(values),
            0,
            Reg::ProtCtrl,
            0x6,
            if width is Four {
                0x2
            } else {
                0
            },
        ),
        reset@.run(values).finished() ==> ({
            let log = reset@.accesses(values);
            let n = log.len() as int;
            &&& crate::sequence::updates_at(log, 0, Reg::SysCtrl, 0x0100_0000, 0x0100_0000)
            &&& crate::sequence::updates_at(log, n - 2, Reg::VendSpec, 0x100, 0x100)
        }),
        clocked@.run(values).finished() ==> crate::sequence::updates_at(
            clocked@.accesses(values),
            0,
            Reg::SysCtrl,
            0x0800_0000,
            0x0800_0000,
        ),
{
    if widened@.run(values).finished() {
        crate::sequence::law_bus_width(width, values);
    }
    if reset@.run(values).finished() {
        crate::sequence::law_reset(values);
    }
    if clocked@.run(values).finished() {
        crate::sequence::law_initial_clocks(values);
    }
}

} // verus!
