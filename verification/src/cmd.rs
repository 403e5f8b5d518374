//! SD commands: indices, OCR flags and response types.

use vstd::prelude::*;
use crate::reg::{CCCEN, CICEN, CMDINX_MASK};

verus! {

pub const CMD0_GO_IDLE_STATE: u32 = 0;

pub const CMD2_ALL_SEND_CID: u32 = 2;

pub const CMD3_SEND_RELATIVE_ADDR: u32 = 3;

pub const CMD7_SELECT_CARD: u32 = 7;

pub const CMD8_SEND_IF_COND: u32 = 8;

pub const CMD9_SEND_CSD: u32 = 9;

pub const CMD13_SEND_STATUS: u32 = 13;

pub const CMD16_SET_BLOCKLEN: u32 = 16;

pub const CMD17_READ_SINGLE_BLOCK: u32 = 17;

pub const CMD24_WRITE_SINGLE_BLOCK: u32 = 24;

pub const CMD55_APP_CMD: u32 = 55;

pub const ACMD6_SET_BUS_WIDTH: u32 = 6;

pub const ACMD41_SD_SEND_OP_COND: u32 = 41;

/// OCR bit 30: high capacity support.
pub const OCR_HCS: u32 = 0x4000_0000;

/// OCR bit 31: set once the card has powered up.
pub const OCR_BUSY: u32 = 0x8000_0000;

/// INT_STATUS error mask (bits 16 to 28).
pub const USDHC_INT_ERROR_MASK: u32 = 0x1FFF_0000;

/// Number of ACMD41 attempts during card initialization.
pub const USDHC_ACMD41_RETRIES: u32 = 1000;

/// Command configuration: response type, CRC and index checks.
#[derive(Debug, Clone, Copy, PartialEq, Eq, Structural)]
pub enum UsdCmdFlags {
    /// No response (CMD0).
    NoResponse,
    /// 48-bit response with CRC and index check (most commands).
    R1,
    /// 48-bit response with busy signal (CMD7, CMD12, etc.).
    R1B,
    /// 136-bit response, no CRC/index check (CMD2, CMD9).
    R2,
    /// 48-bit OCR response, no CRC/index check (ACMD41).
    R3,
    /// 48-bit response with CRC and index check (CMD3).
    R6,
    /// 48-bit response with CRC and index check (CMD8).
    R7,
}

impl UsdCmdFlags {
    /// The RSPTYP field: 0 for no response, 1 for 136 bits, 2 for 48 bits and
    /// 3 for 48 bits with busy.
    pub open spec fn rsptyp(self) -> int {
        match self {
            UsdCmdFlags::NoResponse => 0,
            UsdCmdFlags::R2 => 1,
            UsdCmdFlags::R1 | UsdCmdFlags::R3 | UsdCmdFlags::R6 | UsdCmdFlags::R7 => 2,
            UsdCmdFlags::R1B => 3,
        }
    }

    /// Whether the CRC and the index of the response are checked.
    pub open spec fn checked(self) -> bool {
        match self {
            UsdCmdFlags::NoResponse | UsdCmdFlags::R2 | UsdCmdFlags::R3 => false,
            UsdCmdFlags::R1 | UsdCmdFlags::R1B | UsdCmdFlags::R6 | UsdCmdFlags::R7 => true,
        }
    }

    /// CMD_XFR_TYP for a command without data: CMDINX in bits 29..24, CICEN in
    /// bit 20, CCCEN in bit 19 and RSPTYP in bits 17..16.
    pub open spec fn xfr_typ(self, cmd_index: u32) -> int {
        let checks: int = if self.checked() {
            1
        } else {
            0
        };
        (cmd_index % 64) * 0x100_0000 + checks * 0x10_0000 + checks * 0x8_0000 + self.rsptyp()
            * 0x1_0000
    }

    /// The value of CMD_XFR_TYP that issues `cmd_index` with this response type.
    pub fn write_cmd_xfr_typ(self, cmd_index: u32) -> (value: u32)
        ensures
            value == self.xfr_typ(cmd_index),
    {
        let index: u32 = (cmd_index << 24) & CMDINX_MASK;
        proof {
            assert(index == (cmd_index % 64) * 0x100_0000) by (bit_vector)
                requires
                    index == (cmd_index << 24) & 0x3F00_0000u32,
            ;
            assert((index | 0x2_0000u32 | 0x8_0000u32 | 0x10_0000u32) == index + 0x1A_0000 && (index
                | 0x3_0000u32 | 0x8_0000u32 | 0x10_0000u32) == index + 0x1B_0000 && (index
                | 0x1_0000u32) == index + 0x1_0000 && (index | 0x2_0000u32) == index + 0x2_0000)
                by (bit_vector)
                requires
                    index == (cmd_index << 24) & 0x3F00_0000u32,
            ;
        }
        match self {
            UsdCmdFlags::NoResponse => index,
            UsdCmdFlags::R1 | UsdCmdFlags::R6 | UsdCmdFlags::R7 => index | 0x2_0000 | CCCEN | CICEN,
            UsdCmdFlags::R1B => index | 0x3_0000 | CCCEN | CICEN,
            UsdCmdFlags::R2 => index | 0x1_0000,
            UsdCmdFlags::R3 => index | 0x2_0000,
        }
    }
}

/// What CMD_XFR_TYP holds, field by field: the low six bits of the command index in
/// bits 29..24, the response type in bits 17..16, both checks in bits 20 and 19
/// exactly where a response has a CRC and an index, and nothing else.
pub proof fn law_xfr_typ_fields(flags: UsdCmdFlags, cmd_index: u32)
    ensures
        ({
            let value = flags.xfr_typ(cmd_index) as u32;
            let rsptyp = (value >> 16) & 0x3;
            &&& flags.xfr_typ(cmd_index) == value
            &&& value >> 24 == cmd_index & 0x3F
            &&& value & 0x00E4_FFFF == 0
            &&& match flags {
                UsdCmdFlags::NoResponse => rsptyp == 0 && value & 0x0018_0000 == 0,
                UsdCmdFlags::R2 => rsptyp == 1 && value & 0x0018_0000 == 0,
                UsdCmdFlags::R3 => rsptyp == 2 && value & 0x0018_0000 == 0,
                UsdCmdFlags::R1 | UsdCmdFlags::R6 | UsdCmdFlags::R7 => rsptyp == 2 && value
                    & 0x0018_0000 == 0x0018_0000,
                UsdCmdFlags::R1B => rsptyp == 3 && value & 0x0018_0000 == 0x0018_0000,
            }
        }),
{
    let value = flags.xfr_typ(cmd_index) as u32;
    let low: u32 = (flags.rsptyp() * 0x1_0000 + if flags.checked() {
        0x18_0000int
    } else {
        0
    }) as u32;
    assert(value == (cmd_index % 64) * 0x100_0000 + low);
    assert(value >> 24 == cmd_index & 0x3F && value & 0x00E4_FFFF == low & 0x00E4_FFFF && (value
        >> 16) & 0x3 == (low >> 16) & 0x3 && value & 0x0018_0000 == low & 0x0018_0000)
        by (bit_vector)
        requires
            value == (cmd_index % 64) * 0x100_0000 + low,
            low < 0x20_0000,
    ;
    assert(0u32 & 0x00E4_FFFF == 0 && 0x1_0000u32 & 0x00E4_FFFF == 0 && 0x2_0000u32 & 0x00E4_FFFF
        == 0 && 0x1A_0000u32 & 0x00E4_FFFF == 0 && 0x1B_0000u32 & 0x00E4_FFFF == 0 && (0u32 >> 16)
        & 0x3 == 0 && (0x1_0000u32 >> 16) & 0x3 == 1 && (0x2_0000u32 >> 16) & 0x3 == 2 && (
    0x1A_0000u32 >> 16) & 0x3 == 2 && (0x1B_0000u32 >> 16) & 0x3 == 3 && 0u32 & 0x18_0000 == 0
        && 0x1_0000u32 & 0x18_0000 == 0 && 0x2_0000u32 & 0x18_0000 == 0 && 0x1A_0000u32 & 0x18_0000
        == 0x18_0000 && 0x1B_0000u32 & 0x18_0000 == 0x18_0000) by (bit_vector);
}

} // verus!
