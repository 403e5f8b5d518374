//! The USDHC registers the driver touches, their fields, and the language in
//! which a register sequence asks for accesses.

use vstd::prelude::*;

verus! {

/// A register of the USDHC peripheral.
#[derive(Debug, Clone, Copy, PartialEq, Eq, Structural)]
pub enum Reg {
    /// Block attributes.
    BlkAtt,
    /// Command argument.
    CmdArg,
    /// Command transfer type; writing it issues the command.
    CmdXfrTyp,
    /// Command response, bits 31..0.
    CmdRsp0,
    /// Command response, bits 63..32.
    CmdRsp1,
    /// Command response, bits 95..64.
    CmdRsp2,
    /// Command response, bits 127..96.
    CmdRsp3,
    /// Data buffer access port.
    DataBuffAccPort,
    /// Present state.
    PresState,
    /// Protocol control.
    ProtCtrl,
    /// System control.
    SysCtrl,
    /// Interrupt status.
    IntStatus,
    /// Interrupt status enable.
    IntStatusEn,
    /// Interrupt signal enable.
    IntSignalEn,
    /// Watermark level.
    WtmkLvl,
    /// Mixer control.
    MixCtrl,
    /// Vendor specific register.
    VendSpec,
}

/// What a register sequence wants done next.
#[derive(Debug, Clone, Copy, PartialEq, Eq, Structural)]
pub enum Action {
    /// Read the register and hand the value back.
    Read(Reg),
    /// Write the value to the register.
    Write(Reg, u32),
    /// Nothing: the sequence has ended.
    Finished,
}

/// A register access that has taken place.
#[derive(Debug, Clone, Copy, PartialEq, Eq, Structural)]
pub enum Access {
    /// The register was read and gave the value.
    Read(Reg, u32),
    /// The value was written to the register.
    Write(Reg, u32),
}

impl Action {
    /// The access that performing this action amounts to, `value` being what a
    /// read gave.
    pub open spec fn performed(self, value: u32) -> Access
        recommends
            !(self is Finished),
    {
        match self {
            Action::Read(reg) => Access::Read(reg, value),
            Action::Write(reg, v) => Access::Write(reg, v),
            Action::Finished => arbitrary(),
        }
    }
}

/// The writes among `log`, oldest first.
pub open spec fn writes(log: Seq<Access>) -> Seq<(Reg, u32)>
    decreases log.len(),
{
    if log.len() == 0 {
        Seq::empty()
    } else {
        match log.last() {
            Access::Write(reg, v) => writes(log.drop_last()).push((reg, v)),
            Access::Read(_, _) => writes(log.drop_last()),
        }
    }
}

/// The values that reads of `reg` gave among `log`, oldest first.
pub open spec fn readings(log: Seq<Access>, reg: Reg) -> Seq<u32>
    decreases log.len(),
{
    if log.len() == 0 {
        Seq::empty()
    } else {
        match log.last() {
            Access::Read(r, v) if r == reg => readings(log.drop_last(), reg).push(v),
            _ => readings(log.drop_last(), reg),
        }
    }
}

/// How one more access changes the writes and the readings of a log.
pub(crate) proof fn lemma_log_push(log: Seq<Access>, access: Access)
    ensures
        access matches Access::Write(reg, v) ==> writes(log.push(access)) == writes(log).push(
            (reg, v),
        ),
        access is Read ==> writes(log.push(access)) == writes(log),
        forall|reg: Reg|
            #![trigger readings(log.push(access), reg)]
            readings(log.push(access), reg) == (match access {
                Access::Read(r, v) if r == reg => readings(log, reg).push(v),
                _ => readings(log, reg),
            }),
{
    assert(log.push(access).drop_last() =~= log);
}

/// The value a field update writes: the bits of `mask` replaced by `bits`.
pub open spec fn updated(value: u32, mask: u32, bits: u32) -> u32 {
    (value & !mask) | bits
}

/// PRES_STATE.CIHB: the command line is in use.
pub const CIHB: u32 = 0x0000_0001;

/// PRES_STATE.CDIHB: the data lines are in use.
pub const CDIHB: u32 = 0x0000_0002;

/// PRES_STATE.SDSTB: the SD clock is stable.
pub const SDSTB: u32 = 0x0000_0008;

/// INT_STATUS.CC: command complete.
pub const INT_CC: u32 = 0x0000_0001;

/// INT_STATUS.TC: transfer complete.
pub const INT_TC: u32 = 0x0000_0002;

/// INT_STATUS.BWR: buffer write ready.
pub const INT_BWR: u32 = 0x0000_0010;

/// INT_STATUS.BRR: buffer read ready.
pub const INT_BRR: u32 = 0x0000_0020;

/// INT_STATUS.CTOE: command timeout error.
pub const INT_CTOE: u32 = 0x0001_0000;

/// INT_STATUS.CCE: command CRC error.
pub const INT_CCE: u32 = 0x0002_0000;

/// INT_STATUS.DTOE: data timeout error.
pub const INT_DTOE: u32 = 0x0010_0000;

/// INT_STATUS.DCE: data CRC error.
pub const INT_DCE: u32 = 0x0020_0000;

/// SYS_CTRL.DVS: divisor.
pub const DVS_MASK: u32 = 0x0000_00F0;

/// SYS_CTRL.SDCLKFS: SD clock frequency select.
pub const SDCLKFS_MASK: u32 = 0x0000_FF00;

/// SYS_CTRL.DTOCV: data timeout counter value.
pub const DTOCV_MASK: u32 = 0x000F_0000;

/// SYS_CTRL.RSTA: software reset for everything.
pub const RSTA: u32 = 0x0100_0000;

/// SYS_CTRL.RSTC: software reset for the command line.
pub const RSTC: u32 = 0x0200_0000;

/// SYS_CTRL.RSTD: software reset for the data lines.
pub const RSTD: u32 = 0x0400_0000;

/// SYS_CTRL.INITA: send the 80 initialization clocks.
pub const INITA: u32 = 0x0800_0000;

/// CMD_XFR_TYP.CCCEN: check the CRC of the response.
pub const CCCEN: u32 = 0x0008_0000;

/// CMD_XFR_TYP.CICEN: check the command index of the response.
pub const CICEN: u32 = 0x0010_0000;

/// CMD_XFR_TYP.DPSEL: data is present.
pub const DPSEL: u32 = 0x0020_0000;

/// CMD_XFR_TYP.CMDINX: command index.
pub const CMDINX_MASK: u32 = 0x3F00_0000;

/// MIX_CTRL.DTDSEL: data goes from the card to the host.
pub const DTDSEL: u32 = 0x0000_0010;

/// VEND_SPEC.FRC_SDCLK_ON: force the card clock on.
pub const FRC_SDCLK_ON: u32 = 0x0000_0100;

/// PROT_CTRL.DTW: data transfer width.
pub const DTW_MASK: u32 = 0x0000_0006;

} // verus!
