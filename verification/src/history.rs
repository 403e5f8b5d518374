//! What the register accesses of a transfer look like from its first to its
//! last, whatever the peripheral answers.

use vstd::prelude::*;
use crate::cmd::{UsdCmdFlags, USDHC_INT_ERROR_MASK};
use crate::error::SdError;
use crate::reg::{Access, Action, Reg, CDIHB, CIHB, INT_CC, INT_TC, RSTC, RSTD};
use crate::transfer::{
    Cause, Kind, Phase, Request, Stage, Transfer, TransferModel, BLOCK_WORDS, BUFFER_POLLS,
    COMMAND_POLLS, ONE_BLOCK,
};

verus! {

impl TransferModel {
    /// The transfer after the readings `values`, oldest first.
    pub open spec fn run(self, values: Seq<u32>) -> TransferModel
        decreases values.len(),
    {
        if values.len() == 0 {
            self
        } else {
            self.run(values.drop_last()).advance(values.last())
        }
    }

    /// The accesses that the readings `values` lead through.
    pub open spec fn accesses(self, values: Seq<u32>) -> Seq<Access>
        decreases values.len(),
    {
        if values.len() == 0 {
            Seq::empty()
        } else {
            let before = self.run(values.drop_last());
            if before.stage is Finished {
                self.accesses(values.drop_last())
            } else {
                self.accesses(values.drop_last()).push(before.action().performed(values.last()))
            }
        }
    }
}

impl Request {
    /// The writes that issue the request: clear the status, describe the data
    /// if there is any, then the argument and the command.
    pub open spec fn setup(self) -> Seq<(Reg, u32)> {
        if self.moves_data() {
            seq![
                (Reg::IntStatus, 0xFFFF_FFFFu32),
                (Reg::BlkAtt, ONE_BLOCK),
                (Reg::MixCtrl, self.mixer()),
                (Reg::CmdArg, self.arg),
                (Reg::CmdXfrTyp, self.xfr_typ() as u32),
            ]
        } else {
            seq![
                (Reg::IntStatus, 0xFFFF_FFFFu32),
                (Reg::CmdArg, self.arg),
                (Reg::CmdXfrTyp, self.xfr_typ() as u32),
            ]
        }
    }

    /// The writes up to the acknowledged completion of the command.
    pub open spec fn completed(self) -> Seq<(Reg, u32)> {
        self.setup().push((Reg::IntStatus, INT_CC))
    }

    /// The writes up to the point where `n` words of `buf` have moved.
    pub open spec fn moved(self, buf: Seq<u8>, n: nat) -> Seq<(Reg, u32)> {
        if self.kind is WriteBlock {
            self.completed() + Seq::new(
                n,
                |i: int| (Reg::DataBuffAccPort, crate::transfer::block_word(buf, i)),
            )
        } else {
            self.completed()
        }
    }

    /// The writes up to the acknowledgement of the data buffer.
    pub open spec fn buffered(self, buf: Seq<u8>) -> Seq<(Reg, u32)> {
        self.moved(buf, BLOCK_WORDS as nat).push((Reg::IntStatus, self.ready_flag()))
    }

    /// The writes before a wait.
    pub open spec fn before(self, phase: Phase, buf: Seq<u8>) -> Seq<(Reg, u32)> {
        match phase {
            Phase::Lines => Seq::empty(),
            Phase::Command => self.setup(),
            Phase::Buffer => self.completed(),
            Phase::Complete => self.buffered(buf),
        }
    }
}

/// What led to the reset of the lines: `wrote` is what had been written by then.
///
/// Either the status showed an error during a wait, and was acknowledged, or more
/// than the tolerated number of readings was made in vain: of PRES_STATE, the last
/// of which shows a busy line, or of INT_STATUS.
pub open spec fn interrupted(
    request: Request,
    buf: Seq<u8>,
    cause: Cause,
    wrote: Seq<(Reg, u32)>,
    log: Seq<Access>,
) -> bool {
    let lines = crate::reg::readings(log, Reg::PresState);
    let polls = crate::reg::readings(log, Reg::IntStatus).len();
    match cause {
        Cause::Status { phase, status } => {
            &&& status & USDHC_INT_ERROR_MASK != 0
            &&& phase != Phase::Lines
            &&& phase != Phase::Command ==> request.moves_data()
            &&& wrote == request.before(phase, buf).push((Reg::IntStatus, status))
        },
        Cause::GaveUp { phase } => {
            &&& phase != Phase::Lines ==> request.moves_data()
            &&& wrote == request.before(phase, buf)
            &&& match phase {
                Phase::Lines => lines.len() > COMMAND_POLLS && lines.last() & (CIHB | CDIHB) != 0,
                Phase::Command => polls > COMMAND_POLLS,
                Phase::Buffer => polls > BUFFER_POLLS,
                Phase::Complete => polls > request.done_polls(),
            }
        },
    }
}

/// Both line resets were set in SYS_CTRL, which was otherwise left as it had
/// read, because of `cause`; nothing was written after that.
pub open spec fn line_resets_set(
    request: Request,
    buf: Seq<u8>,
    cause: Cause,
    log: Seq<Access>,
) -> bool {
    let wrote = crate::reg::writes(log);
    let sys = crate::reg::readings(log, Reg::SysCtrl);
    &&& wrote.len() > 0
    &&& sys.len() > 0
    &&& interrupted(request, buf, cause, wrote.drop_last(), log)
    &&& wrote.last() == (Reg::SysCtrl, crate::reg::updated(sys[0], RSTC | RSTD, RSTC | RSTD))
}

/// After the line resets were set, the command line reset was seen over.
pub open spec fn cmd_line_reset(log: Seq<Access>) -> bool {
    let sys = crate::reg::readings(log, Reg::SysCtrl);
    exists|i: int| 1 <= i < sys.len() && #[trigger] sys[i] & RSTC == 0
}

/// After the line resets were set, both were seen over.
pub open spec fn lines_reset(log: Seq<Access>) -> bool {
    let sys = crate::reg::readings(log, Reg::SysCtrl);
    &&& cmd_line_reset(log)
    &&& sys.last() & RSTD == 0
}

/// How many words a transfer had read from the data port when `cause` ended it: a
/// read all of them if it was waiting to complete, and else none.
pub open spec fn words_before(request: Request, cause: Cause) -> nat {
    if request.kind is ReadBlock && cause.phase() == Phase::Complete {
        BLOCK_WORDS as nat
    } else {
        0
    }
}

/// How a transfer that was begun with the block `buf` and stands at `m` has failed
/// with `error` after `log`: something interrupted it, both lines were reset, and
/// the error is the one that this stands for. Unless it was waiting to complete,
/// nothing has moved and the block is as it was.
pub open spec fn failure(m: TransferModel, buf: Seq<u8>, error: SdError, log: Seq<Access>) -> bool {
    exists|cause: Cause|
        {
            &&& #[trigger] line_resets_set(m.request, buf, cause, log)
            &&& lines_reset(log)
            &&& error == crate::transfer::error_of(cause)
            &&& crate::reg::readings(log, Reg::DataBuffAccPort).len() == words_before(
                m.request,
                cause,
            )
            &&& cause.phase() != Phase::Complete ==> m.buf == buf
        }
}

/// What `log` must have been for a transfer, begun with the block `buf`, to
/// stand at the stage of `m`.
pub open spec fn history(m: TransferModel, buf: Seq<u8>, log: Seq<Access>) -> bool {
    &&& writes_history(m, buf, log)
    &&& flags_history(m, log)
    &&& data_history(m, buf, log)
    &&& response_history(m, log)
}

/// The part of `history` about the registers written and the errors found.
pub open spec fn writes_history(m: TransferModel, buf: Seq<u8>, log: Seq<Access>) -> bool {
    let request = m.request;
    let setup = request.setup();
    let wrote = crate::reg::writes(log);
    let sys = crate::reg::readings(log, Reg::SysCtrl);
    let lines = crate::reg::readings(log, Reg::PresState);
    let polls = crate::reg::readings(log, Reg::IntStatus).len();
    &&& !recovering(m.stage) && !(m.stage matches Stage::Finished(Err(_))) ==> sys.len() == 0
    &&& match m.stage {
        Stage::CmdLine { left } | Stage::DataLine { left } => {
            &&& wrote == Seq::<(Reg, u32)>::empty()
            &&& lines.len() >= COMMAND_POLLS - left
            &&& left <= COMMAND_POLLS
            &&& m.stage is DataLine ==> request.moves_data()
        },
        Stage::ClearStatus => wrote == Seq::<(Reg, u32)>::empty(),
        Stage::BlockAttr => request.moves_data() && wrote == setup.take(1),
        Stage::Mixer => request.moves_data() && wrote == setup.take(2),
        Stage::Argument => wrote == setup.take(setup.len() - 2),
        Stage::Issue => wrote == setup.take(setup.len() - 1),
        Stage::CmdStatus { left } | Stage::CmdFlag { left } => {
            &&& wrote == setup
            &&& left <= COMMAND_POLLS
            &&& request.moves_data() ==> polls >= COMMAND_POLLS - left
        },
        Stage::CmdAck => wrote == setup,
        Stage::Response0 | Stage::Response1 | Stage::Response2 | Stage::Response3 => {
            &&& !request.moves_data()
            &&& wrote == request.completed()
        },
        Stage::BufStatus { left } | Stage::BufFlag { left } => {
            &&& request.moves_data()
            &&& wrote == request.completed()
            &&& left <= BUFFER_POLLS
            &&& polls >= BUFFER_POLLS - left
        },
        Stage::Data { index } => {
            &&& request.moves_data()
            &&& index < BLOCK_WORDS
            &&& wrote == request.moved(buf, index as nat)
        },
        Stage::BufAck => {
            &&& request.moves_data()
            &&& wrote == request.moved(buf, BLOCK_WORDS as nat)
        },
        Stage::DoneFlag { left } | Stage::DoneStatus { left } => {
            &&& request.moves_data()
            &&& wrote == request.buffered(buf)
            &&& left <= request.done_polls()
            &&& polls >= request.done_polls() - left
        },
        Stage::DoneAck => {
            &&& request.moves_data()
            &&& wrote == request.buffered(buf)
        },
        Stage::ErrAck { phase, status } => {
            &&& phase != Phase::Lines
            &&& phase != Phase::Command ==> request.moves_data()
            &&& status & USDHC_INT_ERROR_MASK != 0
            &&& wrote == request.before(phase, buf)
            &&& sys.len() == 0
        },
        Stage::ResetRead { cause } => {
            &&& interrupted(request, buf, cause, wrote, log)
            &&& sys.len() == 0
        },
        Stage::ResetWrite { cause, sys_ctrl } => {
            &&& interrupted(request, buf, cause, wrote, log)
            &&& sys == seq![sys_ctrl]
        },
        Stage::CmdReset { cause } => line_resets_set(request, buf, cause, log),
        Stage::DataReset { cause } => {
            &&& line_resets_set(request, buf, cause, log)
            &&& cmd_line_reset(log)
        },
        Stage::Finished(Ok(())) => if request.moves_data() {
            wrote == request.buffered(buf).push((Reg::IntStatus, INT_TC))
        } else {
            wrote == request.completed()
        },
        Stage::Finished(Err(e)) => failure(m, buf, e, log),
    }
}

/// The lines that the request needs were free when PRES_STATE was last read: the
/// command line, and the data lines for a block transfer.
pub open spec fn lines_free(request: Request, log: Seq<Access>) -> bool {
    let lines = crate::reg::readings(log, Reg::PresState);
    let n = lines.len() as int;
    if request.moves_data() {
        n >= 2 && lines[n - 2] & CIHB == 0 && lines[n - 1] & CDIHB == 0
    } else {
        n >= 1 && lines[n - 1] & CIHB == 0
    }
}

/// INT_STATUS has shown `flag`.
pub open spec fn seen(log: Seq<Access>, flag: u32) -> bool {
    let status = crate::reg::readings(log, Reg::IntStatus);
    exists|i: int| 0 <= i < status.len() && #[trigger] status[i] & flag != 0
}

/// INT_STATUS showed `flag` when it was last read.
pub open spec fn showing(log: Seq<Access>, flag: u32) -> bool {
    let status = crate::reg::readings(log, Reg::IntStatus);
    status.len() > 0 && status.last() & flag != 0
}

/// The last access was a reading of INT_STATUS that showed `flag`.
pub open spec fn just_shown(log: Seq<Access>, flag: u32) -> bool {
    &&& log.len() > 0
    &&& log.last() matches Access::Read(Reg::IntStatus, v) && v & flag != 0
}

/// Whether the request has been issued at `stage`, or is about to be.
pub open spec fn issues(stage: Stage) -> bool {
    &&& !(stage is CmdLine) && !(stage is DataLine)
    &&& !recovering(stage)
    &&& !(stage matches Stage::Finished(Err(_)))
}

/// Whether the command has completed at `stage`.
pub open spec fn command_done(stage: Stage) -> bool {
    match stage {
        Stage::CmdAck
        | Stage::Response0
        | Stage::Response1
        | Stage::Response2
        | Stage::Response3
        | Stage::BufStatus { .. }
        | Stage::BufFlag { .. } => true,
        _ => buffer_ready(stage),
    }
}

/// Whether the data buffer has been ready at `stage`, if data moves.
pub open spec fn buffer_ready(stage: Stage) -> bool {
    match stage {
        Stage::Data { .. }
        | Stage::BufAck
        | Stage::DoneFlag { .. }
        | Stage::DoneStatus { .. } => true,
        _ => transfer_done(stage),
    }
}

/// Whether the transfer has completed at `stage`.
pub open spec fn transfer_done(stage: Stage) -> bool {
    stage is DoneAck || stage matches Stage::Finished(Ok(_))
}

/// The part of `history` about what was waited for: the request is issued on free
/// lines only, and each stage is reached only after the flag that it depends on was
/// seen. The flag is in the last reading: the command's completion at its response,
/// the buffer's readiness at the data, and the completion of a block, read after its
/// last word, at the end.
pub open spec fn flags_history(m: TransferModel, log: Seq<Access>) -> bool {
    let lines = crate::reg::readings(log, Reg::PresState);
    &&& m.stage is DataLine ==> lines.len() > 0 && lines.last() & CIHB == 0
    &&& issues(m.stage) ==> lines_free(m.request, log)
    &&& command_done(m.stage) ==> seen(log, INT_CC)
    &&& buffer_ready(m.stage) && m.request.moves_data() ==> seen(log, m.request.ready_flag())
    &&& transfer_done(m.stage) && m.request.moves_data() ==> seen(log, INT_TC)
    &&& match m.stage {
        Stage::CmdAck => just_shown(log, INT_CC),
        Stage::Response0 | Stage::Response1 | Stage::Response2 | Stage::Response3 => showing(
            log,
            INT_CC,
        ),
        Stage::Data { index } => {
            &&& showing(log, m.request.ready_flag())
            &&& index == 0 ==> just_shown(log, m.request.ready_flag())
        },
        Stage::BufAck => showing(log, m.request.ready_flag()),
        Stage::DoneAck => just_shown(log, INT_TC) && showing(log, INT_TC),
        Stage::Finished(Ok(())) => completion(m.request, log),
        _ => true,
    }
}

/// A transfer was seen to complete: the last reading of the status of a command shows
/// its completion; a block's was the last access but one, and was acknowledged.
pub open spec fn completion(request: Request, log: Seq<Access>) -> bool {
    if request.moves_data() {
        &&& showing(log, INT_TC)
        &&& log.len() > 0
        &&& log.last() == Access::Write(Reg::IntStatus, INT_TC)
        &&& just_shown(log.drop_last(), INT_TC)
    } else {
        showing(log, INT_CC)
    }
}

/// How many data words have moved, at `stage`.
pub open spec fn words_moved(stage: Stage) -> nat {
    match stage {
        Stage::Data { index } => index as nat,
        Stage::BufAck
        | Stage::DoneFlag { .. }
        | Stage::DoneStatus { .. }
        | Stage::DoneAck
        | Stage::ErrAck { phase: Phase::Complete, .. }
        | Stage::Finished(Ok(_)) => BLOCK_WORDS as nat,
        Stage::ResetRead { cause }
        | Stage::ResetWrite { cause, .. }
        | Stage::CmdReset { cause }
        | Stage::DataReset { cause } => if cause.phase() == Phase::Complete {
            BLOCK_WORDS as nat
        } else {
            0
        },
        _ => 0,
    }
}

/// The part of `history` about the block: what a read has taken from the data
/// port stands in it in little-endian order, and nothing else has changed.
pub open spec fn data_history(m: TransferModel, buf: Seq<u8>, log: Seq<Access>) -> bool {
    let words = crate::reg::readings(log, Reg::DataBuffAccPort);
    &&& buf.len() == 512
    &&& if m.request.kind is ReadBlock {
        &&& !(m.stage matches Stage::Finished(Err(_))) ==> words.len() == words_moved(m.stage)
        &&& words.len() <= BLOCK_WORDS
        &&& filled(m.buf, buf, words)
    } else {
        &&& words == Seq::<u32>::empty()
        &&& m.buf == buf
    }
}

/// `now` is `was` with its first words replaced by `words`.
pub open spec fn filled(now: Seq<u8>, was: Seq<u8>, words: Seq<u32>) -> bool {
    &&& now.len() == was.len()
    &&& forall|j: int, k: int|
        #![trigger now[4 * j + k]]
        0 <= j < words.len() && 0 <= k < 4 ==> now[4 * j + k] == crate::transfer::byte_of(
            words[j],
            k,
        )
    &&& forall|i: int| 4 * words.len() <= i < was.len() ==> #[trigger] now[i] == was[i]
}

/// The part of `history` about the response registers.
pub open spec fn response_history(m: TransferModel, log: Seq<Access>) -> bool {
    let r0 = crate::reg::readings(log, Reg::CmdRsp0);
    let r1 = crate::reg::readings(log, Reg::CmdRsp1);
    let r2 = crate::reg::readings(log, Reg::CmdRsp2);
    let r3 = crate::reg::readings(log, Reg::CmdRsp3);
    let none = Seq::<u32>::empty();
    let wide = m.request.kind == Kind::Command(UsdCmdFlags::R2);
    match m.stage {
        Stage::Response1 => wide && r0 == seq![m.raw.rsp0] && r1 == none && r2 == none && r3
            == none,
        Stage::Response2 => wide && r0 == seq![m.raw.rsp0] && r1 == seq![m.raw.rsp1] && r2 == none
            && r3 == none,
        Stage::Response3 => wide && r0 == seq![m.raw.rsp0] && r1 == seq![m.raw.rsp1] && r2
            == seq![m.raw.rsp2] && r3 == none,
        Stage::Finished(Ok(())) => if wide {
            r0 == seq![m.raw.rsp0] && r1 == seq![m.raw.rsp1] && r2 == seq![m.raw.rsp2] && r3
                == seq![m.raw.rsp3]
        } else if !m.request.moves_data() {
            r0 == seq![m.raw.rsp0] && r1 == none && r2 == none && r3 == none
        } else {
            true
        },
        _ => r0 == none && r1 == none && r2 == none && r3 == none,
    }
}

/// Whether `stage` belongs to the recovery from an error.
pub open spec fn recovering(stage: Stage) -> bool {
    ||| stage is ErrAck
    ||| stage is ResetRead
    ||| stage is ResetWrite
    ||| stage is CmdReset
    ||| stage is DataReset
}

proof fn lemma_writes_step(m: TransferModel, buf: Seq<u8>, log: Seq<Access>, value: u32)
    requires
        history(m, buf, log),
        !(m.stage is Finished),
        !recovering(m.stage),
    ensures
        writes_history(m.advance(value), buf, log.push(m.action().performed(value))),
{
    let access = m.action().performed(value);
    let request = m.request;
    let setup = request.setup();
    crate::reg::lemma_log_push(log, access);
    assert(log.push(access).last() == access);
    match m.stage {
        Stage::CmdLine { left } => {
            assert(value & CIHB != 0 ==> value & (CIHB | CDIHB) != 0) by (bit_vector);
        },
        Stage::DataLine { left } => {
            assert(value & CDIHB != 0 ==> value & (CIHB | CDIHB) != 0) by (bit_vector);
        },
        Stage::ClearStatus => {
            assert(setup.take(1) =~= Seq::<(Reg, u32)>::empty().push(
                (Reg::IntStatus, 0xFFFF_FFFFu32),
            ));
        },
        Stage::BlockAttr => {
            assert(setup.take(2) =~= setup.take(1).push((Reg::BlkAtt, ONE_BLOCK)));
        },
        Stage::Mixer => {
            assert(setup.take(3) =~= setup.take(2).push((Reg::MixCtrl, request.mixer())));
        },
        Stage::Argument => {
            assert(setup.take(setup.len() - 1) =~= setup.take(setup.len() - 2).push(
                (Reg::CmdArg, request.arg),
            ));
        },
        Stage::Issue => {
            assert(setup =~= setup.take(setup.len() - 1).push(
                (Reg::CmdXfrTyp, request.xfr_typ() as u32),
            ));
        },
        Stage::BufFlag { left } => {
            assert(request.moved(buf, 0) =~= request.completed());
        },
        Stage::Data { index } => {
            assert(request.kind is WriteBlock ==> request.moved(buf, (index + 1) as nat)
                =~= request.moved(buf, index as nat).push(
                (Reg::DataBuffAccPort, crate::transfer::block_word(buf, index as int)),
            ));
        },
        _ => {},
    }
}

/// One more reading of SYS_CTRL does not change what led to the reset of the lines,
/// nor whether the command line has been reset.
proof fn lemma_recovery_stands(
    request: Request,
    buf: Seq<u8>,
    cause: Cause,
    log: Seq<Access>,
    value: u32,
)
    ensures
        line_resets_set(request, buf, cause, log) ==> line_resets_set(
            request,
            buf,
            cause,
            log.push(Access::Read(Reg::SysCtrl, value)),
        ),
        cmd_line_reset(log) ==> cmd_line_reset(log.push(Access::Read(Reg::SysCtrl, value))),
{
    let after = log.push(Access::Read(Reg::SysCtrl, value));
    crate::reg::lemma_log_push(log, Access::Read(Reg::SysCtrl, value));
    let sys = crate::reg::readings(log, Reg::SysCtrl);
    let sys_after = crate::reg::readings(after, Reg::SysCtrl);
    if cmd_line_reset(log) {
        let i = choose|i: int| 1 <= i < sys.len() && #[trigger] sys[i] & RSTC == 0;
        assert(sys_after[i] & RSTC == 0);
    }
}

/// A block into which nothing was read is as it was.
proof fn lemma_nothing_moved(m: TransferModel, buf: Seq<u8>, log: Seq<Access>)
    requires
        data_history(m, buf, log),
        crate::reg::readings(log, Reg::DataBuffAccPort).len() == 0,
    ensures
        m.buf == buf,
{
    assert(m.buf =~= buf);
}

proof fn lemma_recovery_step(m: TransferModel, buf: Seq<u8>, log: Seq<Access>, value: u32)
    requires
        history(m, buf, log),
        recovering(m.stage),
    ensures
        writes_history(m.advance(value), buf, log.push(m.action().performed(value))),
{
    let access = m.action().performed(value);
    let after = log.push(access);
    let request = m.request;
    crate::reg::lemma_log_push(log, access);
    assert(after.last() == access);
    let sys = crate::reg::readings(log, Reg::SysCtrl);
    let sys_after = crate::reg::readings(after, Reg::SysCtrl);
    match m.stage {
        Stage::ResetRead { cause } => {
            assert(sys_after =~= seq![value]);
        },
        Stage::ResetWrite { cause, sys_ctrl } => {
            assert(crate::reg::writes(after).drop_last() =~= crate::reg::writes(log));
            assert(line_resets_set(request, buf, cause, after));
        },
        Stage::CmdReset { cause } => {
            lemma_recovery_stands(request, buf, cause, log, value);
            if value & RSTC == 0 {
                assert(sys_after[sys.len() as int] & RSTC == 0);
            }
        },
        Stage::DataReset { cause } => {
            lemma_recovery_stands(request, buf, cause, log, value);
            if value & RSTD == 0 {
                assert(lines_reset(after));
                if cause.phase() != Phase::Complete {
                    lemma_nothing_moved(m, buf, log);
                }
                assert(failure(
                    m.advance(value),
                    buf,
                    crate::transfer::error_of(cause),
                    after,
                ));
            }
        },
        _ => {},
    }
}

proof fn lemma_seen_push(log: Seq<Access>, access: Access, flag: u32)
    ensures
        seen(log, flag) ==> seen(log.push(access), flag),
        access matches Access::Read(Reg::IntStatus, v) && v & flag != 0 ==> seen(
            log.push(access),
            flag,
        ),
{
    crate::reg::lemma_log_push(log, access);
    let status = crate::reg::readings(log, Reg::IntStatus);
    let after = crate::reg::readings(log.push(access), Reg::IntStatus);
    if seen(log, flag) {
        let i = choose|i: int| 0 <= i < status.len() && #[trigger] status[i] & flag != 0;
        assert(after[i] & flag != 0);
    }
    if access matches Access::Read(Reg::IntStatus, v) && v & flag != 0 {
        assert(after[status.len() as int] & flag != 0);
    }
}

proof fn lemma_flags_step(m: TransferModel, buf: Seq<u8>, log: Seq<Access>, value: u32)
    requires
        history(m, buf, log),
        !(m.stage is Finished),
    ensures
        flags_history(m.advance(value), log.push(m.action().performed(value))),
{
    let access = m.action().performed(value);
    crate::reg::lemma_log_push(log, access);
    lemma_seen_push(log, access, INT_CC);
    lemma_seen_push(log, access, m.request.ready_flag());
    lemma_seen_push(log, access, INT_TC);
    assert(log.push(access).last() == access);
    assert(log.push(access).drop_last() =~= log);
}

proof fn lemma_data_step(m: TransferModel, buf: Seq<u8>, log: Seq<Access>, value: u32)
    requires
        history(m, buf, log),
        !(m.stage is Finished),
    ensures
        data_history(m.advance(value), buf, log.push(m.action().performed(value))),
{
    let access = m.action().performed(value);
    let after = log.push(access);
    crate::reg::lemma_log_push(log, access);
    let words = crate::reg::readings(log, Reg::DataBuffAccPort);
    let words_after = crate::reg::readings(after, Reg::DataBuffAccPort);
    if m.request.kind is ReadBlock && m.stage is Data {
        let n = words.len();
        let now = m.advance(value).buf;
        assert(words_after == words.push(value));
        assert forall|j: int, k: int|
            #![trigger now[4 * j + k]]
            0 <= j < words_after.len() && 0 <= k < 4 implies now[4 * j + k]
            == crate::transfer::byte_of(words_after[j], k) by {
            if j < n {
                assert(m.buf[4 * j + k] == crate::transfer::byte_of(words[j], k));
            }
        }
    } else {
        assert(words_after == words);
    }
}

proof fn lemma_response_step(m: TransferModel, buf: Seq<u8>, log: Seq<Access>, value: u32)
    requires
        history(m, buf, log),
        !(m.stage is Finished),
    ensures
        response_history(m.advance(value), log.push(m.action().performed(value))),
{
    let access = m.action().performed(value);
    let after = log.push(access);
    crate::reg::lemma_log_push(log, access);
    assert(Seq::<u32>::empty().push(value) =~= seq![value]);
    let r0 = crate::reg::readings(after, Reg::CmdRsp0);
    let r1 = crate::reg::readings(after, Reg::CmdRsp1);
    let r2 = crate::reg::readings(after, Reg::CmdRsp2);
    let r3 = crate::reg::readings(after, Reg::CmdRsp3);
}

/// Whatever the peripheral answers, at every point of a transfer the accesses
/// made so far are those that its stage stands for: the request is issued in one
/// fixed order and only on free lines, each stage is reached only after the flag
/// that it depends on was seen, every error leads through the reset of the lines,
/// and a finished transfer ended as its readings say.
pub proof fn law_transfer_history(request: Request, buf: Seq<u8>, values: Seq<u32>)
    requires
        buf.len() == 512,
    ensures
        history(
            TransferModel::start(request, buf).run(values),
            buf,
            TransferModel::start(request, buf).accesses(values),
        ),
        TransferModel::start(request, buf).run(values).request == request,
    decreases values.len(),
{
    let start = TransferModel::start(request, buf);
    if values.len() > 0 {
        let m = start.run(values.drop_last());
        let log = start.accesses(values.drop_last());
        law_transfer_history(request, buf, values.drop_last());
        if !(m.stage is Finished) {
            if recovering(m.stage) {
                lemma_recovery_step(m, buf, log, values.last());
            } else {
                lemma_writes_step(m, buf, log, values.last());
            }
            lemma_flags_step(m, buf, log, values.last());
            lemma_data_step(m, buf, log, values.last());
            lemma_response_step(m, buf, log, values.last());
        } else {
            assert(m.advance(values.last()) == m);
        }
    }
}

/// A transfer that succeeds has been issued in full, on free lines, and was seen to
/// complete: its command, and for a block its buffer and, after the last word, its
/// data.
pub proof fn law_success_was_seen(request: Request, buf: Seq<u8>, values: Seq<u32>)
    requires
        buf.len() == 512,
        TransferModel::start(request, buf).run(values).stage == Stage::Finished(Ok(())),
    ensures
        ({
            let log = TransferModel::start(request, buf).accesses(values);
            &&& lines_free(request, log)
            &&& seen(log, INT_CC)
            &&& request.setup().is_prefix_of(crate::reg::writes(log))
            &&& request.moves_data() ==> seen(log, request.ready_flag())
            &&& completion(request, log)
        }),
{
    law_transfer_history(request, buf, values);
    let start = TransferModel::start(request, buf);
    let wrote = crate::reg::writes(start.accesses(values));
    assert(request.setup() =~= wrote.subrange(0, request.setup().len() as int));
}

/// A transfer never ends in an error before both the command and the data line
/// have been reset: the last write set both line resets in SYS_CTRL and left its
/// other bits alone, and both were seen over after that.
pub proof fn law_error_resets_lines(request: Request, buf: Seq<u8>, values: Seq<u32>)
    requires
        buf.len() == 512,
        TransferModel::start(request, buf).run(values).stage matches Stage::Finished(Err(_)),
    ensures
        ({
            let log = TransferModel::start(request, buf).accesses(values);
            let wrote = crate::reg::writes(log);
            let sys = crate::reg::readings(log, Reg::SysCtrl);
            &&& wrote.len() > 0
            &&& sys.len() > 0
            &&& wrote.last() == (
                Reg::SysCtrl,
                crate::reg::updated(sys[0], RSTC | RSTD, RSTC | RSTD),
            )
            &&& lines_reset(log)
        }),
{
    law_transfer_history(request, buf, values);
}

/// The wait that `stage` reads the status in.
pub open spec fn waits_in(stage: Stage) -> Option<Phase> {
    match stage {
        Stage::CmdStatus { .. } => Some(Phase::Command),
        Stage::BufStatus { .. } => Some(Phase::Buffer),
        Stage::DoneStatus { .. } => Some(Phase::Complete),
        _ => None,
    }
}

/// A transfer that finds an error status fails because of it: it ends in the error
/// that this very status stands for, and not before the status was acknowledged and
/// the lines were reset. Unless it was waiting to complete, its block is as it was.
pub proof fn law_error_status_is_fatal(
    request: Request,
    buf: Seq<u8>,
    values: Seq<u32>,
    status: u32,
    later: Seq<u32>,
)
    requires
        buf.len() == 512,
        waits_in(TransferModel::start(request, buf).run(values).stage) is Some,
        status & USDHC_INT_ERROR_MASK != 0,
        TransferModel::start(request, buf).run(values.push(status) + later).stage is Finished,
    ensures
        ({
            let all = values.push(status) + later;
            let log = TransferModel::start(request, buf).accesses(all);
            let phase = waits_in(TransferModel::start(request, buf).run(values).stage).unwrap();
            let cause = Cause::Status { phase, status };
            let m = TransferModel::start(request, buf).run(all);
            &&& m.stage == Stage::Finished(Err(crate::transfer::error_of(cause)))
            &&& line_resets_set(request, buf, cause, log)
            &&& lines_reset(log)
            &&& phase != Phase::Complete ==> m.buf == buf
        }),
{
    lemma_recovery_goes_on(request, buf, values, status, later);
}

/// Whether `stage` recovers from `cause`.
spec fn recovers(stage: Stage, cause: Cause) -> bool {
    match stage {
        Stage::ErrAck { phase, status } => cause == (Cause::Status { phase, status }),
        Stage::ResetRead { cause: c }
        | Stage::ResetWrite { cause: c, .. }
        | Stage::CmdReset { cause: c }
        | Stage::DataReset { cause: c } => c == cause,
        _ => false,
    }
}

proof fn lemma_recovery_goes_on(
    request: Request,
    buf: Seq<u8>,
    values: Seq<u32>,
    status: u32,
    later: Seq<u32>,
)
    requires
        buf.len() == 512,
        waits_in(TransferModel::start(request, buf).run(values).stage) is Some,
        status & USDHC_INT_ERROR_MASK != 0,
    ensures
        ({
            let all = values.push(status) + later;
            let m = TransferModel::start(request, buf).run(all);
            let log = TransferModel::start(request, buf).accesses(all);
            let phase = waits_in(TransferModel::start(request, buf).run(values).stage).unwrap();
            let cause = Cause::Status { phase, status };
            ||| recovers(m.stage, cause)
            ||| {
                &&& m.stage == Stage::Finished(Err(crate::transfer::error_of(cause)))
                &&& line_resets_set(request, buf, cause, log)
                &&& lines_reset(log)
                &&& phase != Phase::Complete ==> m.buf == buf
            }
        }),
    decreases later.len(),
{
    let start = TransferModel::start(request, buf);
    let all = values.push(status) + later;
    let phase = waits_in(start.run(values).stage).unwrap();
    let cause = Cause::Status { phase, status };
    if later.len() == 0 {
        assert(all =~= values.push(status));
        assert(all.drop_last() =~= values);
    } else {
        lemma_recovery_goes_on(request, buf, values, status, later.drop_last());
        let prev = values.push(status) + later.drop_last();
        assert(all.drop_last() =~= prev);
        assert(all.last() == later.last());
        let m = start.run(prev);
        let log = start.accesses(prev);
        law_transfer_history(request, buf, prev);
        if recovers(m.stage, cause) && m.advance(all.last()).stage is Finished {
            let value = all.last();
            lemma_recovery_stands(request, buf, cause, log, value);
            crate::reg::lemma_log_push(log, Access::Read(Reg::SysCtrl, value));
            if phase != Phase::Complete {
                lemma_nothing_moved(m, buf, log);
            }
        }
    }
}

/// A transfer that gave up waiting ends in a timeout and moves nothing more.
proof fn lemma_given_up(m: TransferModel, phase: Phase, later: Seq<u32>)
    requires
        m.stage == (Stage::ResetRead { cause: Cause::GaveUp { phase } }),
    ensures
        recovers(m.run(later).stage, Cause::GaveUp { phase }) || m.run(later).stage
            == Stage::Finished(Err(SdError::Timeout)),
        m.run(later).buf == m.buf,
    decreases later.len(),
{
    if later.len() > 0 {
        lemma_given_up(m, phase, later.drop_last());
    }
}

/// Some readings and then others.
pub(crate) proof fn lemma_run_more(m: TransferModel, values: Seq<u32>, later: Seq<u32>)
    ensures
        m.run(values + later) == m.run(values).run(later),
    decreases later.len(),
{
    if later.len() == 0 {
        assert(values + later =~= values);
    } else {
        lemma_run_more(m, values, later.drop_last());
        assert((values + later).drop_last() =~= values + later.drop_last());
    }
}

/// A command line that stays busy is polled once more than the tolerated number of
/// times, and nothing is written meanwhile; the transfer can then only end in a
/// timeout, with its block as it was.
pub proof fn law_busy_line_times_out(
    request: Request,
    buf: Seq<u8>,
    busy: Seq<u32>,
    later: Seq<u32>,
)
    requires
        busy.len() <= COMMAND_POLLS + 1,
        forall|i: int| 0 <= i < busy.len() ==> #[trigger] busy[i] & CIHB != 0,
    ensures
        crate::reg::writes(TransferModel::start(request, buf).accesses(busy)) == Seq::<
            (Reg, u32),
        >::empty(),
        !(TransferModel::start(request, buf).run(busy).stage is Finished),
        busy.len() == COMMAND_POLLS + 1 && TransferModel::start(request, buf).run(
            busy + later,
        ).stage is Finished ==> TransferModel::start(request, buf).run(busy + later).stage
            == Stage::Finished(Err(SdError::Timeout)),
        busy.len() == COMMAND_POLLS + 1 ==> TransferModel::start(request, buf).run(
            busy + later,
        ).buf == buf,
{
    lemma_busy_line(request, buf, busy);
    if busy.len() == COMMAND_POLLS + 1 {
        let start = TransferModel::start(request, buf);
        lemma_run_more(start, busy, later);
        lemma_given_up(start.run(busy), Phase::Lines, later);
    }
}

proof fn lemma_busy_line(request: Request, buf: Seq<u8>, busy: Seq<u32>)
    requires
        busy.len() <= COMMAND_POLLS + 1,
        forall|i: int| 0 <= i < busy.len() ==> #[trigger] busy[i] & CIHB != 0,
    ensures
        TransferModel::start(request, buf).run(busy).stage == if busy.len() <= COMMAND_POLLS {
            Stage::CmdLine { left: (COMMAND_POLLS - busy.len()) as u32 }
        } else {
            Stage::ResetRead { cause: Cause::GaveUp { phase: Phase::Lines } }
        },
        TransferModel::start(request, buf).run(busy).buf == buf,
        crate::reg::writes(TransferModel::start(request, buf).accesses(busy)) == Seq::<
            (Reg, u32),
        >::empty(),
    decreases busy.len(),
{
    if busy.len() > 0 {
        let start = TransferModel::start(request, buf);
        lemma_busy_line(request, buf, busy.drop_last());
        let m = start.run(busy.drop_last());
        assert(busy.last() & CIHB != 0);
        crate::reg::lemma_log_push(
            start.accesses(busy.drop_last()),
            m.action().performed(busy.last()),
        );
    }
}

/// Data lines that stay busy while the command line is free are polled, two readings
/// each, once more than the tolerated number of times, and nothing is written
/// meanwhile; a block transfer can then only end in a timeout, with its block as it
/// was.
pub proof fn law_busy_data_lines_time_out(
    request: Request,
    buf: Seq<u8>,
    busy: Seq<u32>,
    later: Seq<u32>,
)
    requires
        request.moves_data(),
        busy.len() <= 2 * (COMMAND_POLLS + 1),
        forall|i: int|
            0 <= i < busy.len() ==> #[trigger] busy[i] & CIHB == 0 && busy[i] & CDIHB != 0,
    ensures
        crate::reg::writes(TransferModel::start(request, buf).accesses(busy)) == Seq::<
            (Reg, u32),
        >::empty(),
        !(TransferModel::start(request, buf).run(busy).stage is Finished),
        busy.len() == 2 * (COMMAND_POLLS + 1) && TransferModel::start(request, buf).run(
            busy + later,
        ).stage is Finished ==> TransferModel::start(request, buf).run(busy + later).stage
            == Stage::Finished(Err(SdError::Timeout)),
        busy.len() == 2 * (COMMAND_POLLS + 1) ==> TransferModel::start(request, buf).run(
            busy + later,
        ).buf == buf,
{
    lemma_busy_data_lines(request, buf, busy);
    if busy.len() == 2 * (COMMAND_POLLS + 1) {
        let start = TransferModel::start(request, buf);
        lemma_run_more(start, busy, later);
        lemma_given_up(start.run(busy), Phase::Lines, later);
    }
}

proof fn lemma_busy_data_lines(request: Request, buf: Seq<u8>, busy: Seq<u32>)
    requires
        request.moves_data(),
        busy.len() <= 2 * (COMMAND_POLLS + 1),
        forall|i: int|
            0 <= i < busy.len() ==> #[trigger] busy[i] & CIHB == 0 && busy[i] & CDIHB != 0,
    ensures
        ({
            let left = (COMMAND_POLLS - busy.len() as int / 2) as u32;
            TransferModel::start(request, buf).run(busy).stage == if busy.len() == 2 * (
            COMMAND_POLLS + 1) {
                Stage::ResetRead { cause: Cause::GaveUp { phase: Phase::Lines } }
            } else if busy.len() % 2 == 0 {
                Stage::CmdLine { left }
            } else {
                Stage::DataLine { left }
            }
        }),
        TransferModel::start(request, buf).run(busy).buf == buf,
        TransferModel::start(request, buf).run(busy).request == request,
        crate::reg::writes(TransferModel::start(request, buf).accesses(busy)) == Seq::<
            (Reg, u32),
        >::empty(),
    decreases busy.len(),
{
    if busy.len() > 0 {
        let start = TransferModel::start(request, buf);
        let prev = busy.drop_last();
        assert forall|i: int| 0 <= i < prev.len() implies #[trigger] prev[i] & CIHB == 0 && prev[i]
            & CDIHB != 0 by {
            assert(prev[i] == busy[i]);
        }
        lemma_busy_data_lines(request, buf, prev);
        let m = start.run(prev);
        assert(busy.last() == busy[busy.len() - 1]);
        assert(busy.last() & CIHB == 0 && busy.last() & CDIHB != 0);
        crate::reg::lemma_log_push(start.accesses(prev), m.action().performed(busy.last()));
    }
}

/// Whether the readings `values` bring `m`, which waits for its command, its data
/// buffer or its completion, nothing that it waits for.
pub open spec fn idle(m: TransferModel, values: Seq<u32>) -> bool {
    forall|i: int|
        0 <= i < values.len() ==> {
            &&& #[trigger] values[i] & USDHC_INT_ERROR_MASK == 0
            &&& m.stage is CmdStatus ==> values[i] & INT_CC == 0
            &&& m.stage is BufStatus ==> values[i] & m.request.ready_flag() == 0
            &&& m.stage is DoneFlag ==> values[i] & INT_TC == 0
        }
}

/// A block transfer whose command, data buffer or completion does not come
/// through polls, two readings each, as long as polls are left and then once
/// more; after that it can only end in a timeout, with its block as it was.
pub proof fn law_idle_polls_time_out(
    m: TransferModel,
    left: u32,
    values: Seq<u32>,
    later: Seq<u32>,
)
    requires
        ({
            ||| m.stage == (Stage::CmdStatus { left }) && m.request.moves_data()
            ||| m.stage == (Stage::BufStatus { left })
            ||| m.stage == (Stage::DoneFlag { left })
        }),
        values.len() <= 2 * (left + 1),
        idle(m, values),
    ensures
        !(m.run(values).stage is Finished),
        values.len() == 2 * (left + 1) && m.run(values + later).stage is Finished ==> m.run(
            values + later,
        ).stage == Stage::Finished(Err(SdError::Timeout)),
        values.len() == 2 * (left + 1) ==> m.run(values + later).buf == m.buf,
{
    lemma_idle_polls(m, left, values);
    if values.len() == 2 * (left + 1) {
        lemma_run_more(m, values, later);
        lemma_given_up(m.run(values), polled_phase(m.stage), later);
    }
}

/// What `stage` polls for.
spec fn polled_phase(stage: Stage) -> Phase {
    match stage {
        Stage::CmdStatus { .. } => Phase::Command,
        Stage::BufStatus { .. } => Phase::Buffer,
        _ => Phase::Complete,
    }
}

proof fn lemma_idle_polls(m: TransferModel, left: u32, values: Seq<u32>)
    requires
        ({
            ||| m.stage == (Stage::CmdStatus { left }) && m.request.moves_data()
            ||| m.stage == (Stage::BufStatus { left })
            ||| m.stage == (Stage::DoneFlag { left })
        }),
        values.len() <= 2 * (left + 1),
        idle(m, values),
    ensures
        m.run(values).request == m.request,
        m.run(values).buf == m.buf,
        m.run(values).stage == if values.len() == 2 * (left + 1) {
            Stage::ResetRead { cause: Cause::GaveUp { phase: polled_phase(m.stage) } }
        } else {
            let now = (left - values.len() as int / 2) as u32;
            let half = values.len() % 2 == 1;
            match m.stage {
                Stage::CmdStatus { .. } => if half {
                    Stage::CmdFlag { left: now }
                } else {
                    Stage::CmdStatus { left: now }
                },
                Stage::BufStatus { .. } => if half {
                    Stage::BufFlag { left: now }
                } else {
                    Stage::BufStatus { left: now }
                },
                _ => if half {
                    Stage::DoneStatus { left: now }
                } else {
                    Stage::DoneFlag { left: now }
                },
            }
        },
    decreases values.len(),
{
    if values.len() > 0 {
        let prev = values.drop_last();
        assert(idle(m, prev)) by {
            assert forall|i: int| 0 <= i < prev.len() implies #[trigger] prev[i] == values[i] by {}
        }
        lemma_idle_polls(m, left, prev);
        assert(values.last() == values[values.len() - 1]);
        assert(values.last() & USDHC_INT_ERROR_MASK == 0);
    }
}

/// Four bytes put into a word come out of it again.
pub(crate) proof fn lemma_word_bytes(b0: u8, b1: u8, b2: u8, b3: u8)
    ensures
        crate::transfer::byte_of(crate::transfer::word_of(b0, b1, b2, b3), 0) == b0,
        crate::transfer::byte_of(crate::transfer::word_of(b0, b1, b2, b3), 1) == b1,
        crate::transfer::byte_of(crate::transfer::word_of(b0, b1, b2, b3), 2) == b2,
        crate::transfer::byte_of(crate::transfer::word_of(b0, b1, b2, b3), 3) == b3,
{
    let w = crate::transfer::word_of(b0, b1, b2, b3);
    assert((((w >> 0u32) & 0xFF) as u8) == b0 && (((w >> 8u32) & 0xFF) as u8) == b1 && (((w
        >> 16u32) & 0xFF) as u8) == b2 && (((w >> 24u32) & 0xFF) as u8) == b3) by (bit_vector)
        requires
            w == (b0 as u32) | ((b1 as u32) << 8) | ((b2 as u32) << 16) | ((b3 as u32) << 24),
    ;
}

/// A block that went out through the data port comes back from it: a finished
/// read that was given the words which a finished write put out holds the block
/// that was written.
pub proof fn law_block_round_trip(
    write: Request,
    data: Seq<u8>,
    write_values: Seq<u32>,
    read: Request,
    buf: Seq<u8>,
    read_values: Seq<u32>,
)
    requires
        write.kind is WriteBlock,
        read.kind is ReadBlock,
        data.len() == 512,
        buf.len() == 512,
        TransferModel::start(write, data).run(write_values).stage == Stage::Finished(Ok(())),
        TransferModel::start(read, buf).run(read_values).stage == Stage::Finished(Ok(())),
        ({
            let out = crate::reg::writes(TransferModel::start(write, data).accesses(write_values));
            let words = crate::reg::readings(
                TransferModel::start(read, buf).accesses(read_values),
                Reg::DataBuffAccPort,
            );
            let first = write.completed().len();
            forall|i: int|
                0 <= i < BLOCK_WORDS ==> out[first + i] == (
                    Reg::DataBuffAccPort,
                    #[trigger] words[i],
                )
        }),
    ensures
        TransferModel::start(read, buf).run(read_values).buf == data,
{
    law_transfer_history(write, data, write_values);
    law_transfer_history(read, buf, read_values);
    let now = TransferModel::start(read, buf).run(read_values).buf;
    let out = crate::reg::writes(TransferModel::start(write, data).accesses(write_values));
    let words = crate::reg::readings(
        TransferModel::start(read, buf).accesses(read_values),
        Reg::DataBuffAccPort,
    );
    let first = write.completed().len();
    assert forall|i: int| 0 <= i < 512 implies now[i] == data[i] by {
        let j = i / 4;
        let k = i % 4;
        assert(out[first + j] == (
            Reg::DataBuffAccPort,
            crate::transfer::block_word(data, j),
        ));
        assert(words[j] == crate::transfer::block_word(data, j));
        lemma_word_bytes(data[4 * j], data[4 * j + 1], data[4 * j + 2], data[4 * j + 3]);
        assert(now[4 * j + k] == crate::transfer::byte_of(words[j], k));
    }
    assert(now =~= data);
}

/// A transfer and its model keep step: a new one has not read anything, its action is
/// the next access, being told of that access is one more reading, and it is over when
/// there is no access left to make.
pub proof fn law_transfer_steps(
    request: Request,
    buf: [u8; 512],
    values: Seq<u32>,
    fresh: Transfer,
    transfer: &mut Transfer,
    action: Action,
    value: u32,
    result: Option<Result<(), SdError>>,
)
    requires
        call_ensures(Transfer::new, (request, buf), fresh),
        old(transfer)@ == TransferModel::start(request, buf@).run(values),
        call_ensures(Transfer::action, (&*old(transfer),), action),
        call_ensures(Transfer::outcome, (&*old(transfer),), result),
        call_ensures(Transfer::advance, (transfer, value), ()),
    ensures
        ({
            let start = TransferModel::start(request, buf@);
            &&& fresh@ == start
            &&& final(transfer)@ == start.run(values.push(value))
            &&& result is None ==> start.accesses(values.push(value)) == start.accesses(
                values,
            ).push(action.performed(value))
            &&& result is Some <==> action is Finished
            &&& result is Some ==> start.accesses(values.push(value)) == start.accesses(values)
        }),
{
    assert(values.push(value).drop_last() =~= values);
}

} // verus!
