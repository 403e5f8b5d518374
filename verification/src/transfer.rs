//! Commands and block transfers as sequences of register accesses.
//!
//! A [`Transfer`] decides, from the values that register reads gave, which
//! register to touch next and how the transfer ends. Whoever owns the
//! peripheral performs each [`Action`] and hands the reading back.
//!
//! On any error the command and data lines are reset before the transfer ends, so
//! that the peripheral can be used again.

use vstd::prelude::*;
use crate::cmd::{UsdCmdFlags, USDHC_INT_ERROR_MASK};
use crate::error::SdError;
use crate::host::CmdResponse;
use crate::reg::{
    Action, Reg, CDIHB, CIHB, DPSEL, DTDSEL, INT_BRR, INT_BWR, INT_CC, INT_CCE, INT_CTOE, INT_DCE,
    INT_DTOE, INT_TC, RSTC, RSTD,
};

verus! {

/// Busy readings that are tolerated before a command is issued, and idle ones
/// before a data command completes.
pub const COMMAND_POLLS: u32 = 100_000;

/// Idle readings that are tolerated before the data buffer is ready.
pub const BUFFER_POLLS: u32 = 150_000_000;

/// Idle readings that are tolerated before a read completes.
pub const READ_DONE_POLLS: u32 = 10_000_000;

/// Idle readings that are tolerated before a write completes.
pub const WRITE_DONE_POLLS: u32 = 150_000_000;

/// Words in a block.
pub const BLOCK_WORDS: u32 = 128;

/// BLK_ATT for a single block: BLKSIZE 512 in bits 12..0, BLKCNT 1 in bits 31..16.
pub const ONE_BLOCK: u32 = 0x0001_0200;

/// What a transfer moves.
#[derive(Debug, Clone, Copy, PartialEq, Eq, Structural)]
pub enum Kind {
    /// A command and its response.
    Command(UsdCmdFlags),
    /// A command and 512 bytes from the card.
    ReadBlock,
    /// A command and 512 bytes to the card.
    WriteBlock,
}

/// What a transfer was asked to do.
#[derive(Debug, Clone, Copy, PartialEq, Eq, Structural)]
pub struct Request {
    pub kind: Kind,
    pub cmd_index: u32,
    pub arg: u32,
}

/// What a transfer waits for.
#[derive(Debug, Clone, Copy, PartialEq, Eq, Structural)]
pub enum Phase {
    /// Waiting for the lines to be free.
    Lines,
    /// Waiting for the command to complete.
    Command,
    /// Waiting for the data buffer.
    Buffer,
    /// Waiting for the transfer to complete.
    Complete,
}

/// Why the lines are reset.
#[derive(Debug, Clone, Copy, PartialEq, Eq, Structural)]
pub enum Cause {
    /// The status showed an error during a wait.
    Status { phase: Phase, status: u32 },
    /// A wait was in vain.
    GaveUp { phase: Phase },
}

/// Where a transfer stands: each stage but the last is one register access.
#[derive(Debug, Clone, Copy, PartialEq, Eq)]
pub enum Stage {
    /// Read PRES_STATE: is the command line free?
    CmdLine { left: u32 },
    /// Read PRES_STATE: are the data lines free?
    DataLine { left: u32 },
    /// Clear every status flag.
    ClearStatus,
    /// Write BLK_ATT.
    BlockAttr,
    /// Write MIX_CTRL.
    Mixer,
    /// Write CMD_ARG.
    Argument,
    /// Write CMD_XFR_TYP.
    Issue,
    /// Read INT_STATUS: has the command failed?
    CmdStatus { left: u32 },
    /// Read INT_STATUS: has the command completed?
    CmdFlag { left: u32 },
    /// Acknowledge command completion.
    CmdAck,
    /// Read CMD_RSP0.
    Response0,
    /// Read CMD_RSP1.
    Response1,
    /// Read CMD_RSP2.
    Response2,
    /// Read CMD_RSP3.
    Response3,
    /// Read INT_STATUS: has the data transfer failed?
    BufStatus { left: u32 },
    /// Read INT_STATUS: is the data buffer ready?
    BufFlag { left: u32 },
    /// Move word `index` through the data port.
    Data { index: u32 },
    /// Acknowledge buffer readiness.
    BufAck,
    /// Read INT_STATUS: has the transfer completed?
    DoneFlag { left: u32 },
    /// Read INT_STATUS: has the transfer failed?
    DoneStatus { left: u32 },
    /// Acknowledge transfer completion.
    DoneAck,
    /// Acknowledge the error status.
    ErrAck { phase: Phase, status: u32 },
    /// Read SYS_CTRL before the line resets are set in it.
    ResetRead { cause: Cause },
    /// Write SYS_CTRL with RSTC and RSTD set.
    ResetWrite { cause: Cause, sys_ctrl: u32 },
    /// Read SYS_CTRL: is the command line reset over?
    CmdReset { cause: Cause },
    /// Read SYS_CTRL: is the data line reset over?
    DataReset { cause: Cause },
    /// The transfer is over.
    Finished(Result<(), SdError>),
}

/// Byte `k` of `word`, byte 0 being the least significant.
pub open spec fn byte_of(word: u32, k: int) -> u8 {
    ((word >> ((8 * k) as u32)) & 0xFF) as u8
}

/// The word that holds four bytes, least significant first.
pub open spec fn word_of(b0: u8, b1: u8, b2: u8, b3: u8) -> u32 {
    (b0 as u32) | ((b1 as u32) << 8) | ((b2 as u32) << 16) | ((b3 as u32) << 24)
}

/// Word `i` of a block, in little-endian order.
pub open spec fn block_word(buf: Seq<u8>, i: int) -> u32 {
    word_of(buf[4 * i], buf[4 * i + 1], buf[4 * i + 2], buf[4 * i + 3])
}

/// `buf` with word `i` replaced, in little-endian order.
pub open spec fn with_word(buf: Seq<u8>, i: int, word: u32) -> Seq<u8> {
    buf.update(4 * i, byte_of(word, 0)).update(4 * i + 1, byte_of(word, 1)).update(
        4 * i + 2,
        byte_of(word, 2),
    ).update(4 * i + 3, byte_of(word, 3))
}

impl Request {
    /// The value of CMD_XFR_TYP: a data command has data present (bit 21) and a
    /// checked 48-bit response.
    pub open spec fn xfr_typ(self) -> int {
        match self.kind {
            Kind::Command(flags) => flags.xfr_typ(self.cmd_index),
            _ => UsdCmdFlags::R1.xfr_typ(self.cmd_index) + 0x20_0000,
        }
    }

    /// The value of MIX_CTRL: a single block without DMA, from the card exactly
    /// for a read.
    pub open spec fn mixer(self) -> u32 {
        if self.kind is ReadBlock {
            DTDSEL
        } else {
            0
        }
    }

    /// The INT_STATUS flag that says the data buffer is ready.
    pub open spec fn ready_flag(self) -> u32 {
        if self.kind is ReadBlock {
            INT_BRR
        } else {
            INT_BWR
        }
    }

    /// Idle readings tolerated before the transfer completes.
    pub open spec fn done_polls(self) -> u32 {
        if self.kind is ReadBlock {
            READ_DONE_POLLS
        } else {
            WRITE_DONE_POLLS
        }
    }

    /// Whether data moves.
    pub open spec fn moves_data(self) -> bool {
        !(self.kind is Command)
    }
}

impl Cause {
    /// The wait that came to nothing.
    pub open spec fn phase(self) -> Phase {
        match self {
            Cause::Status { phase, .. } => phase,
            Cause::GaveUp { phase } => phase,
        }
    }

    fn error(self) -> (error: SdError)
        ensures
            error == error_of(self),
    {
        match self {
            Cause::GaveUp { .. } => SdError::Timeout,
            Cause::Status { status, .. } => if status & (INT_CTOE | INT_DTOE) != 0 {
                SdError::Timeout
            } else if status & (INT_CCE | INT_DCE) != 0 {
                SdError::CrcError
            } else {
                SdError::CommandFailed(status)
            },
        }
    }
}

/// The error that `cause` stands for: a wait in vain is a timeout, and an error
/// status is told apart by its flags, a timeout of the command or of the data before
/// a CRC error of either.
pub open spec fn error_of(cause: Cause) -> SdError {
    match cause {
        Cause::GaveUp { .. } => SdError::Timeout,
        Cause::Status { status, .. } => if status & (INT_CTOE | INT_DTOE) != 0 {
            SdError::Timeout
        } else if status & (INT_CCE | INT_DCE) != 0 {
            SdError::CrcError
        } else {
            SdError::CommandFailed(status)
        },
    }
}

/// The stage after an idle poll: poll again while polls are left, then give up.
pub open spec fn poll_again(left: u32, phase: Phase, again: Stage) -> Stage {
    if left == 0 {
        Stage::ResetRead { cause: Cause::GaveUp { phase } }
    } else {
        again
    }
}

/// A transfer as a value.
#[verifier::ext_equal]
pub struct TransferModel {
    pub request: Request,
    pub stage: Stage,
    /// The response registers as read.
    pub raw: CmdResponse,
    /// The 512 bytes that are moved.
    pub buf: Seq<u8>,
}

impl TransferModel {
    /// A transfer that has not touched a register yet.
    pub open spec fn start(request: Request, buf: Seq<u8>) -> TransferModel {
        TransferModel {
            request,
            stage: Stage::CmdLine { left: COMMAND_POLLS },
            raw: CmdResponse { rsp0: 0, rsp1: 0, rsp2: 0, rsp3: 0 },
            buf,
        }
    }

    /// The access that the current stage asks for.
    pub open spec fn action(self) -> Action {
        match self.stage {
            Stage::CmdLine { .. } | Stage::DataLine { .. } => Action::Read(Reg::PresState),
            Stage::ClearStatus => Action::Write(Reg::IntStatus, 0xFFFF_FFFF),
            Stage::BlockAttr => Action::Write(Reg::BlkAtt, ONE_BLOCK),
            Stage::Mixer => Action::Write(Reg::MixCtrl, self.request.mixer()),
            Stage::Argument => Action::Write(Reg::CmdArg, self.request.arg),
            Stage::Issue => Action::Write(Reg::CmdXfrTyp, self.request.xfr_typ() as u32),
            Stage::CmdStatus { .. }
            | Stage::CmdFlag { .. }
            | Stage::BufStatus { .. }
            | Stage::BufFlag { .. }
            | Stage::DoneFlag { .. }
            | Stage::DoneStatus { .. } => Action::Read(Reg::IntStatus),
            Stage::CmdAck => Action::Write(Reg::IntStatus, INT_CC),
            Stage::Response0 => Action::Read(Reg::CmdRsp0),
            Stage::Response1 => Action::Read(Reg::CmdRsp1),
            Stage::Response2 => Action::Read(Reg::CmdRsp2),
            Stage::Response3 => Action::Read(Reg::CmdRsp3),
            Stage::Data { index } => if self.request.kind is ReadBlock {
                Action::Read(Reg::DataBuffAccPort)
            } else {
                Action::Write(Reg::DataBuffAccPort, block_word(self.buf, index as int))
            },
            Stage::BufAck => Action::Write(Reg::IntStatus, self.request.ready_flag()),
            Stage::DoneAck => Action::Write(Reg::IntStatus, INT_TC),
            Stage::ErrAck { status, .. } => Action::Write(Reg::IntStatus, status),
            Stage::ResetRead { .. } | Stage::CmdReset { .. } | Stage::DataReset { .. } =>
                Action::Read(Reg::SysCtrl),
            Stage::ResetWrite { sys_ctrl, .. } => Action::Write(
                Reg::SysCtrl,
                crate::reg::updated(sys_ctrl, RSTC | RSTD, RSTC | RSTD),
            ),
            Stage::Finished(_) => Action::Finished,
        }
    }

    /// The stage that follows once the access was made and `value` read.
    pub open spec fn next_stage(self, value: u32) -> Stage {
        let failed = value & USDHC_INT_ERROR_MASK != 0;
        match self.stage {
            Stage::CmdLine { left } => if value & CIHB != 0 {
                poll_again(left, Phase::Lines, Stage::CmdLine { left: (left - 1) as u32 })
            } else if self.request.moves_data() {
                Stage::DataLine { left }
            } else {
                Stage::ClearStatus
            },
            Stage::DataLine { left } => if value & CDIHB != 0 {
                poll_again(left, Phase::Lines, Stage::CmdLine { left: (left - 1) as u32 })
            } else {
                Stage::ClearStatus
            },
            Stage::ClearStatus => if self.request.moves_data() {
                Stage::BlockAttr
            } else {
                Stage::Argument
            },
            Stage::BlockAttr => Stage::Mixer,
            Stage::Mixer => Stage::Argument,
            Stage::Argument => Stage::Issue,
            Stage::Issue => Stage::CmdStatus { left: COMMAND_POLLS },
            Stage::CmdStatus { left } => if failed {
                Stage::ErrAck { phase: Phase::Command, status: value }
            } else {
                Stage::CmdFlag { left }
            },
            Stage::CmdFlag { left } => if value & INT_CC != 0 {
                Stage::CmdAck
            } else if self.request.moves_data() {
                poll_again(left, Phase::Command, Stage::CmdStatus { left: (left - 1) as u32 })
            } else {
                Stage::CmdStatus { left }
            },
            Stage::CmdAck => if self.request.moves_data() {
                Stage::BufStatus { left: BUFFER_POLLS }
            } else {
                Stage::Response0
            },
            Stage::Response0 => if self.request.kind == Kind::Command(UsdCmdFlags::R2) {
                Stage::Response1
            } else {
                Stage::Finished(Ok(()))
            },
            Stage::Response1 => Stage::Response2,
            Stage::Response2 => Stage::Response3,
            Stage::Response3 => Stage::Finished(Ok(())),
            Stage::BufStatus { left } => if failed {
                Stage::ErrAck { phase: Phase::Buffer, status: value }
            } else {
                Stage::BufFlag { left }
            },
            Stage::BufFlag { left } => if value & self.request.ready_flag() != 0 {
                Stage::Data { index: 0 }
            } else {
                poll_again(left, Phase::Buffer, Stage::BufStatus { left: (left - 1) as u32 })
            },
            Stage::Data { index } => if index + 1 < BLOCK_WORDS {
                Stage::Data { index: (index + 1) as u32 }
            } else {
                Stage::BufAck
            },
            Stage::BufAck => Stage::DoneFlag { left: self.request.done_polls() },
            Stage::DoneFlag { left } => if value & INT_TC != 0 {
                Stage::DoneAck
            } else {
                Stage::DoneStatus { left }
            },
            Stage::DoneStatus { left } => if failed {
                Stage::ErrAck { phase: Phase::Complete, status: value }
            } else {
                poll_again(left, Phase::Complete, Stage::DoneFlag { left: (left - 1) as u32 })
            },
            Stage::DoneAck => Stage::Finished(Ok(())),
            Stage::ErrAck { phase, status } => Stage::ResetRead {
                cause: Cause::Status { phase, status },
            },
            Stage::ResetRead { cause } => Stage::ResetWrite { cause, sys_ctrl: value },
            Stage::ResetWrite { cause, .. } => Stage::CmdReset { cause },
            Stage::CmdReset { cause } => if value & RSTC != 0 {
                Stage::CmdReset { cause }
            } else {
                Stage::DataReset { cause }
            },
            Stage::DataReset { cause } => if value & RSTD != 0 {
                Stage::DataReset { cause }
            } else {
                Stage::Finished(Err(error_of(cause)))
            },
            Stage::Finished(result) => Stage::Finished(result),
        }
    }

    /// The response registers once the access was made and `value` read.
    pub open spec fn next_raw(self, value: u32) -> CmdResponse {
        match self.stage {
            Stage::Response0 => (CmdResponse { rsp0: value, ..self.raw }),
            Stage::Response1 => (CmdResponse { rsp1: value, ..self.raw }),
            Stage::Response2 => (CmdResponse { rsp2: value, ..self.raw }),
            Stage::Response3 => (CmdResponse { rsp3: value, ..self.raw }),
            _ => self.raw,
        }
    }

    /// The block once the access was made and `value` read.
    pub open spec fn next_buf(self, value: u32) -> Seq<u8> {
        match self.stage {
            Stage::Data { index } if self.request.kind is ReadBlock => with_word(
                self.buf,
                index as int,
                value,
            ),
            _ => self.buf,
        }
    }

    /// The response of a finished command. The peripheral keeps a 136-bit
    /// response without its last eight bits; they read as zero.
    pub open spec fn is_response(self, resp: CmdResponse) -> bool {
        if self.request.kind == Kind::Command(UsdCmdFlags::R2) {
            resp.bits() == self.raw.bits() << 8
        } else {
            resp == (CmdResponse { rsp0: self.raw.rsp0, rsp1: 0, rsp2: 0, rsp3: 0 })
        }
    }

    /// The transfer once the access was made and `value` read.
    pub open spec fn advance(self, value: u32) -> TransferModel {
        TransferModel {
            request: self.request,
            stage: self.next_stage(value),
            raw: self.next_raw(value),
            buf: self.next_buf(value),
        }
    }
}

/// A command or block transfer in progress.
pub struct Transfer {
    request: Request,
    stage: Stage,
    raw: CmdResponse,
    buf: [u8; 512],
}

impl View for Transfer {
    type V = TransferModel;

    closed spec fn view(&self) -> TransferModel {
        TransferModel { request: self.request, stage: self.stage, raw: self.raw, buf: self.buf@ }
    }
}

impl Transfer {
    /// A data stage moves one of the words of the block.
    pub open spec fn wf(&self) -> bool {
        &&& self@.buf.len() == 512
        &&& self@.stage matches Stage::Data { index } ==> index < BLOCK_WORDS
    }

    /// Prepare a transfer; `buf` is what a write moves and what a read fills.
    pub fn new(request: Request, buf: [u8; 512]) -> (t: Transfer)
        ensures
            t.wf(),
            t@ == TransferModel::start(request, buf@),
    {
        Transfer {
            request,
            stage: Stage::CmdLine { left: COMMAND_POLLS },
            raw: CmdResponse { rsp0: 0, rsp1: 0, rsp2: 0, rsp3: 0 },
            buf,
        }
    }

    fn moves_data(&self) -> (b: bool)
        ensures
            b == self@.request.moves_data(),
    {
        match self.request.kind {
            Kind::Command(_) => false,
            _ => true,
        }
    }

    fn reads_block(&self) -> (b: bool)
        ensures
            b == (self@.request.kind is ReadBlock),
    {
        match self.request.kind {
            Kind::ReadBlock => true,
            _ => false,
        }
    }

    fn ready_flag(&self) -> (flag: u32)
        ensures
            flag == self@.request.ready_flag(),
    {
        if self.reads_block() {
            INT_BRR
        } else {
            INT_BWR
        }
    }

    fn xfr_typ(&self) -> (value: u32)
        ensures
            value == self@.request.xfr_typ(),
    {
        match self.request.kind {
            Kind::Command(flags) => flags.write_cmd_xfr_typ(self.request.cmd_index),
            _ => {
                let base: u32 = UsdCmdFlags::R1.write_cmd_xfr_typ(self.request.cmd_index);
                let index: u32 = self.request.cmd_index % 64;
                assert(base == index * 0x100_0000 + 0x1A_0000);
                assert(base | 0x20_0000u32 == base + 0x20_0000) by (bit_vector)
                    requires
                        index < 64,
                        base == index * 0x100_0000 + 0x1A_0000,
                ;
                base | DPSEL
            },
        }
    }

    fn data_word(&self, index: u32) -> (word: u32)
        requires
            index < BLOCK_WORDS,
        ensures
            word == block_word(self@.buf, index as int),
    {
        let i: usize = 4 * index as usize;
        (self.buf[i] as u32) | ((self.buf[i + 1] as u32) << 8) | ((self.buf[i + 2] as u32) << 16)
            | ((self.buf[i + 3] as u32) << 24)
    }

    fn store_word(&mut self, index: u32, word: u32)
        requires
            index < BLOCK_WORDS,
        ensures
            final(self)@ == (TransferModel {
                buf: with_word(old(self)@.buf, index as int, word),
                ..old(self)@
            }),
    {
        let i: usize = 4 * index as usize;
        assert(word >> 0u32 == word) by (bit_vector);
        self.buf[i] = (word & 0xFF) as u8;
        self.buf[i + 1] = ((word >> 8) & 0xFF) as u8;
        self.buf[i + 2] = ((word >> 16) & 0xFF) as u8;
        self.buf[i + 3] = ((word >> 24) & 0xFF) as u8;
    }

    /// The register access to make next.
    pub fn action(&self) -> (action: Action)
        requires
            self.wf(),
        ensures
            action == self@.action(),
    {
        match self.stage {
            Stage::CmdLine { .. } | Stage::DataLine { .. } => Action::Read(Reg::PresState),
            Stage::ClearStatus => Action::Write(Reg::IntStatus, 0xFFFF_FFFF),
            Stage::BlockAttr => Action::Write(Reg::BlkAtt, ONE_BLOCK),
            Stage::Mixer => Action::Write(
                Reg::MixCtrl,
                if self.reads_block() {
                    DTDSEL
                } else {
                    0
                },
            ),
            Stage::Argument => Action::Write(Reg::CmdArg, self.request.arg),
            Stage::Issue => Action::Write(Reg::CmdXfrTyp, self.xfr_typ()),
            Stage::CmdStatus { .. }
            | Stage::CmdFlag { .. }
            | Stage::BufStatus { .. }
            | Stage::BufFlag { .. }
            | Stage::DoneFlag { .. }
            | Stage::DoneStatus { .. } => Action::Read(Reg::IntStatus),
            Stage::CmdAck => Action::Write(Reg::IntStatus, INT_CC),
            Stage::Response0 => Action::Read(Reg::CmdRsp0),
            Stage::Response1 => Action::Read(Reg::CmdRsp1),
            Stage::Response2 => Action::Read(Reg::CmdRsp2),
            Stage::Response3 => Action::Read(Reg::CmdRsp3),
            Stage::Data { index } => if self.reads_block() {
                Action::Read(Reg::DataBuffAccPort)
            } else {
                Action::Write(Reg::DataBuffAccPort, self.data_word(index))
            },
            Stage::BufAck => Action::Write(Reg::IntStatus, self.ready_flag()),
            Stage::DoneAck => Action::Write(Reg::IntStatus, INT_TC),
            Stage::ErrAck { status, .. } => Action::Write(Reg::IntStatus, status),
            Stage::ResetRead { .. } | Stage::CmdReset { .. } | Stage::DataReset { .. } =>
                Action::Read(Reg::SysCtrl),
            Stage::ResetWrite { sys_ctrl, .. } => Action::Write(
                Reg::SysCtrl,
                (sys_ctrl & !(RSTC | RSTD)) | (RSTC | RSTD),
            ),
            Stage::Finished(_) => Action::Finished,
        }
    }

    /// Tell the transfer that its access was made; `value` is what a read gave
    /// and is ignored after a write.
    pub fn advance(&mut self, value: u32)
        requires
            old(self).wf(),
        ensures
            final(self).wf(),
            final(self)@ == old(self)@.advance(value),
    {
        let failed = value & USDHC_INT_ERROR_MASK != 0;
        let stage = match self.stage {
            Stage::CmdLine { left } => if value & CIHB != 0 {
                match left.checked_sub(1) {
                    Some(left) => Stage::CmdLine { left },
                    None => Stage::ResetRead { cause: Cause::GaveUp { phase: Phase::Lines } },
                }
            } else if self.moves_data() {
                Stage::DataLine { left }
            } else {
                Stage::ClearStatus
            },
            Stage::DataLine { left } => if value & CDIHB != 0 {
                match left.checked_sub(1) {
                    Some(left) => Stage::CmdLine { left },
                    None => Stage::ResetRead { cause: Cause::GaveUp { phase: Phase::Lines } },
                }
            } else {
                Stage::ClearStatus
            },
            Stage::ClearStatus => if self.moves_data() {
                Stage::BlockAttr
            } else {
                Stage::Argument
            },
            Stage::BlockAttr => Stage::Mixer,
            Stage::Mixer => Stage::Argument,
            Stage::Argument => Stage::Issue,
            Stage::Issue => Stage::CmdStatus { left: COMMAND_POLLS },
            Stage::CmdStatus { left } => if failed {
                Stage::ErrAck { phase: Phase::Command, status: value }
            } else {
                Stage::CmdFlag { left }
            },
            Stage::CmdFlag { left } => if value & INT_CC != 0 {
                Stage::CmdAck
            } else if self.moves_data() {
                match left.checked_sub(1) {
                    Some(left) => Stage::CmdStatus { left },
                    None => Stage::ResetRead { cause: Cause::GaveUp { phase: Phase::Command } },
                }
            } else {
                Stage::CmdStatus { left }
            },
            Stage::CmdAck => if self.moves_data() {
                Stage::BufStatus { left: BUFFER_POLLS }
            } else {
                Stage::Response0
            },
            Stage::Response0 => {
                self.raw.rsp0 = value;
                match self.request.kind {
                    Kind::Command(UsdCmdFlags::R2) => Stage::Response1,
                    _ => Stage::Finished(Ok(())),
                }
            },
            Stage::Response1 => {
                self.raw.rsp1 = value;
                Stage::Response2
            },
            Stage::Response2 => {
                self.raw.rsp2 = value;
                Stage::Response3
            },
            Stage::Response3 => {
                self.raw.rsp3 = value;
                Stage::Finished(Ok(()))
            },
            Stage::BufStatus { left } => if failed {
                Stage::ErrAck { phase: Phase::Buffer, status: value }
            } else {
                Stage::BufFlag { left }
            },
            Stage::BufFlag { left } => if value & self.ready_flag() != 0 {
                Stage::Data { index: 0 }
            } else {
                match left.checked_sub(1) {
                    Some(left) => Stage::BufStatus { left },
                    None => Stage::ResetRead { cause: Cause::GaveUp { phase: Phase::Buffer } },
                }
            },
            Stage::Data { index } => {
                if self.reads_block() {
                    self.store_word(index, value);
                }
                if index + 1 < BLOCK_WORDS {
                    Stage::Data { index: index + 1 }
                } else {
                    Stage::BufAck
                }
            },
            Stage::BufAck => Stage::DoneFlag {
                left: if self.reads_block() {
                    READ_DONE_POLLS
                } else {
                    WRITE_DONE_POLLS
                },
            },
            Stage::DoneFlag { left } => if value & INT_TC != 0 {
                Stage::DoneAck
            } else {
                Stage::DoneStatus { left }
            },
            Stage::DoneStatus { left } => if failed {
                Stage::ErrAck { phase: Phase::Complete, status: value }
            } else {
                match left.checked_sub(1) {
                    Some(left) => Stage::DoneFlag { left },
                    None => Stage::ResetRead { cause: Cause::GaveUp { phase: Phase::Complete } },
                }
            },
            Stage::DoneAck => Stage::Finished(Ok(())),
            Stage::ErrAck { phase, status } => Stage::ResetRead {
                cause: Cause::Status { phase, status },
            },
            Stage::ResetRead { cause } => Stage::ResetWrite { cause, sys_ctrl: value },
            Stage::ResetWrite { cause, .. } => Stage::CmdReset { cause },
            Stage::CmdReset { cause } => if value & RSTC != 0 {
                Stage::CmdReset { cause }
            } else {
                Stage::DataReset { cause }
            },
            Stage::DataReset { cause } => if value & RSTD != 0 {
                Stage::DataReset { cause }
            } else {
                Stage::Finished(Err(cause.error()))
            },
            Stage::Finished(result) => Stage::Finished(result),
        };
        self.stage = stage;
    }

    /// How the transfer ended, once it has.
    pub fn outcome(&self) -> (result: Option<Result<(), SdError>>)
        ensures
            result == (match self@.stage {
                Stage::Finished(r) => Some(r),
                _ => None,
            }),
    {
        match self.stage {
            Stage::Finished(result) => Some(result),
            _ => None,
        }
    }

    /// The response of a finished command.
    pub fn response(&self) -> (resp: CmdResponse)
        ensures
            self@.is_response(resp),
    {
        let r0: u32 = self.raw.rsp0;
        match self.request.kind {
            Kind::Command(UsdCmdFlags::R2) => {
                let r1: u32 = self.raw.rsp1;
                let r2: u32 = self.raw.rsp2;
                let r3: u32 = self.raw.rsp3;
                let resp = CmdResponse {
                    rsp0: r0 << 8,
                    rsp1: (r1 << 8) | (r0 >> 24),
                    rsp2: (r2 << 8) | (r1 >> 24),
                    rsp3: (r3 << 8) | (r2 >> 24),
                };
                assert(((((r3 << 8) | (r2 >> 24)) as u128) << 96 | (((r2 << 8) | (r1
                    >> 24)) as u128) << 64 | (((r1 << 8) | (r0 >> 24)) as u128) << 32 | ((r0
                    << 8) as u128)) == ((r3 as u128) << 96 | (r2 as u128) << 64 | (r1 as u128) << 32
                    | (r0 as u128)) << 8) by (bit_vector);
                resp
            },
            _ => CmdResponse { rsp0: r0, rsp1: 0, rsp2: 0, rsp3: 0 },
        }
    }

    /// The block that was moved.
    pub fn block(&self) -> (buf: &[u8; 512])
        ensures
            buf@ == self@.buf,
    {
        &self.buf
    }
}

} // verus!
