//! What a command or block transfer comes to, in numbers: which bits it writes, which
//! it waits for and how long, and what it makes of the readings.

use vstd::prelude::*;
use crate::cmd::UsdCmdFlags;
use crate::error::SdError;
use crate::host::CmdResponse;
use crate::inner::UsdhcInner;
use crate::reg::{Access, Reg};
use crate::transfer::{Cause, Kind, Phase, Request, Stage, Transfer, TransferModel};

verus! {

/// The response of a command that succeeded. One of 48 bits, which is every one but R2,
/// is CMD_RSP0 as it read and zeros. One of 136 bits, R2, is the four registers moved
/// up by eight bits.
pub proof fn law_response(
    inner: UsdhcInner,
    cmd_index: u32,
    arg: u32,
    flags: UsdCmdFlags,
    sent: Transfer,
    values: Seq<u32>,
    done: Transfer,
    resp: CmdResponse,
)
    requires
        call_ensures(UsdhcInner::send_cmd, (&inner, cmd_index, arg, flags), sent),
        done@ == sent@.run(values),
        call_ensures(Transfer::outcome, (&done,), Some(Ok(()))),
        call_ensures(Transfer::response, (&done,), resp),
    ensures
        ({
            let log = sent@.accesses(values);
            let r0 = crate::reg::readings(log, Reg::CmdRsp0);
            let r1 = crate::reg::readings(log, Reg::CmdRsp1);
            let r2 = crate::reg::readings(log, Reg::CmdRsp2);
            let r3 = crate::reg::readings(log, Reg::CmdRsp3);
            &&& r0.len() == 1
            &&& !(flags is R2) ==> {
                &&& resp.rsp0 == r0[0]
                &&& resp.rsp1 == 0 && resp.rsp2 == 0 && resp.rsp3 == 0
                &&& r1.len() == 0 && r2.len() == 0 && r3.len() == 0
            }
            &&& flags is R2 ==> {
                &&& r1.len() == 1 && r2.len() == 1 && r3.len() == 1
                &&& resp.rsp0 == r0[0] << 8
                &&& resp.rsp1 == (r1[0] << 8) | (r0[0] >> 24)
                &&& resp.rsp2 == (r2[0] << 8) | (r1[0] >> 24)
                &&& resp.rsp3 == (r3[0] << 8) | (r2[0] >> 24)
            }
        }),
{
    let request = Request { kind: Kind::Command(flags), cmd_index, arg };
    crate::history::law_transfer_history(request, sent@.buf, values);
    let m = done@;
    if flags is R2 {
        let (a, b, c, d) = (m.raw.rsp0, m.raw.rsp1, m.raw.rsp2, m.raw.rsp3);
        let (e, f, g, h) = (resp.rsp0, resp.rsp1, resp.rsp2, resp.rsp3);
        assert(e == a << 8 && f == (b << 8) | (a >> 24) && g == (c << 8) | (b >> 24) && h == (d
            << 8) | (c >> 24)) by (bit_vector)
            requires
                (h as u128) << 96 | (g as u128) << 64 | (f as u128) << 32 | (e as u128) == ((
                d as u128) << 96 | (c as u128) << 64 | (b as u128) << 32 | (a as u128)) << 8,
        ;
    }
}

/// What a command that succeeded wrote: all flags cleared, the argument, the command,
/// whose index is in bits 29..24 and which has no data (bit 21), and the acknowledged
/// completion. PRES_STATE last read with the command line free (bit 0), INT_STATUS last
/// read with the command complete (bit 0).
pub proof fn law_command_writes(
    inner: UsdhcInner,
    cmd_index: u32,
    arg: u32,
    flags: UsdCmdFlags,
    sent: Transfer,
    values: Seq<u32>,
    done: Transfer,
)
    requires
        call_ensures(UsdhcInner::send_cmd, (&inner, cmd_index, arg, flags), sent),
        done@ == sent@.run(values),
        call_ensures(Transfer::outcome, (&done,), Some(Ok(()))),
    ensures
        ({
            let log = sent@.accesses(values);
            let wrote = crate::reg::writes(log);
            let lines = crate::reg::readings(log, Reg::PresState);
            let status = crate::reg::readings(log, Reg::IntStatus);
            &&& wrote.len() == 4
            &&& wrote[0] == (Reg::IntStatus, 0xFFFF_FFFFu32)
            &&& wrote[1] == (Reg::CmdArg, arg)
            &&& wrote[2].0 == Reg::CmdXfrTyp && issues_command(wrote[2].1, cmd_index, flags, false)
            &&& wrote[3] == (Reg::IntStatus, 1u32)
            &&& lines.len() > 0 && lines.last() & 1 == 0
            &&& status.len() > 0 && status.last() & 1 != 0
        }),
{
    let request = Request { kind: Kind::Command(flags), cmd_index, arg };
    crate::history::law_transfer_history(request, sent@.buf, values);
    lemma_issues(request, flags);
}

/// CMD_XFR_TYP for a command: index, response type, checks, and whether data follows.
pub open spec fn issues_command(
    value: u32,
    cmd_index: u32,
    flags: UsdCmdFlags,
    data: bool,
) -> bool {
    let rsptyp = (value >> 16) & 0x3;
    let checks = value & 0x0018_0000;
    &&& value >> 24 == cmd_index & 0x3F
    &&& value & 0x00C4_FFFF == 0
    &&& (value & 0x0020_0000 != 0) == data
    &&& match flags {
        UsdCmdFlags::NoResponse => rsptyp == 0 && checks == 0,
        UsdCmdFlags::R2 => rsptyp == 1 && checks == 0,
        UsdCmdFlags::R3 => rsptyp == 2 && checks == 0,
        UsdCmdFlags::R1 | UsdCmdFlags::R6 | UsdCmdFlags::R7 => rsptyp == 2 && checks
            == 0x0018_0000,
        UsdCmdFlags::R1B => rsptyp == 3 && checks == 0x0018_0000,
    }
}

proof fn lemma_issues(request: Request, flags: UsdCmdFlags)
    requires
        request.kind matches Kind::Command(f) ==> f == flags,
        request.moves_data() ==> flags == UsdCmdFlags::R1,
    ensures
        issues_command(
            request.xfr_typ() as u32,
            request.cmd_index,
            flags,
            request.moves_data(),
        ),
{
    crate::cmd::law_xfr_typ_fields(flags, request.cmd_index);
    let base = flags.xfr_typ(request.cmd_index) as u32;
    assert(base & 0x00C4_FFFF == 0 && base & 0x0020_0000 == 0) by (bit_vector)
        requires
            base & 0x00E4_FFFF == 0,
    ;
    if request.moves_data() {
        let value = request.xfr_typ() as u32;
        assert(base <= 0xFFDF_FFFF) by (bit_vector)
            requires
                base & 0x0020_0000 == 0,
        ;
        assert(value == base + 0x20_0000);
        assert(value >> 24 == base >> 24 && value & 0x00C4_FFFF == base & 0x00C4_FFFF && value
            & 0x0020_0000 != 0 && (value >> 16) & 0x3 == (base >> 16) & 0x3 && value & 0x0018_0000
            == base & 0x0018_0000) by (bit_vector)
            requires
                value == base + 0x20_0000,
                base & 0x0020_0000 == 0,
        ;
    }
}

/// The accesses by which a block transfer was issued and seen to complete, apart from
/// the data: the writes before the data, which are the cleared flags, one block of 512
/// bytes, the direction (bit 4, `mixer`), the argument, a checked 48-bit command with
/// data and its acknowledged completion; and free lines, a complete command and the
/// ready flag among the readings.
pub open spec fn issues_block(
    log: Seq<Access>,
    cmd_index: u32,
    arg: u32,
    mixer: u32,
    ready: u32,
) -> bool {
    let wrote = crate::reg::writes(log);
    let lines = crate::reg::readings(log, Reg::PresState);
    let n = lines.len() as int;
    &&& wrote.len() >= 6
    &&& wrote[0] == (Reg::IntStatus, 0xFFFF_FFFFu32)
    &&& wrote[1] == (Reg::BlkAtt, 0x0001_0200u32)
    &&& wrote[2] == (Reg::MixCtrl, mixer)
    &&& wrote[3] == (Reg::CmdArg, arg)
    &&& wrote[4].0 == Reg::CmdXfrTyp && issues_command(
        wrote[4].1,
        cmd_index,
        UsdCmdFlags::R1,
        true,
    )
    &&& wrote[5] == (Reg::IntStatus, 1u32)
    &&& n >= 2 && lines[n - 2] & 1 == 0 && lines[n - 1] & 2 == 0
    &&& crate::history::seen(log, 1)
    &&& crate::history::seen(log, ready)
}

/// The last two accesses: the status showed the transfer complete (bit 1), and that was
/// acknowledged.
pub open spec fn completes_block(log: Seq<Access>) -> bool {
    let n = log.len() as int;
    &&& n >= 2
    &&& log[n - 2] matches Access::Read(Reg::IntStatus, v) && v & 2 != 0
    &&& log[n - 1] == Access::Write(Reg::IntStatus, 2)
}

/// A block that was read: it was issued and seen to complete, and its bytes are those
/// of the 128 words that the data port gave, the least significant byte of each first.
pub proof fn law_read_block(
    inner: UsdhcInner,
    cmd_index: u32,
    arg: u32,
    buf: [u8; 512],
    sent: Transfer,
    values: Seq<u32>,
    done: Transfer,
    block: [u8; 512],
)
    requires
        call_ensures(UsdhcInner::read_block, (&inner, cmd_index, arg, &buf), sent),
        done@ == sent@.run(values),
        call_ensures(Transfer::outcome, (&done,), Some(Ok(()))),
        call_ensures(Transfer::block, (&done,), &block),
    ensures
        ({
            let log = sent@.accesses(values);
            let wrote = crate::reg::writes(log);
            let words = crate::reg::readings(log, Reg::DataBuffAccPort);
            &&& issues_block(log, cmd_index, arg, 0x10, 0x20)
            &&& completes_block(log)
            &&& wrote.len() == 8
            &&& wrote[6] == (Reg::IntStatus, 0x20u32)
            &&& words.len() == 128
            &&& forall|i: int|
                0 <= i < 128 ==> #[trigger] words[i] == block@[4 * i] + 0x100 * block@[4 * i + 1]
                    + 0x1_0000 * block@[4 * i + 2] + 0x100_0000 * block@[4 * i + 3]
        }),
{
    let request = Request { kind: Kind::ReadBlock, cmd_index, arg };
    crate::history::law_transfer_history(request, buf@, values);
    lemma_issues(request, UsdCmdFlags::R1);
    let log = sent@.accesses(values);
    let words = crate::reg::readings(log, Reg::DataBuffAccPort);
    assert(log.drop_last().last() == log[log.len() - 2]);
    lemma_words_in_bytes(done@.buf, buf@, words);
}

proof fn lemma_words_in_bytes(block: Seq<u8>, was: Seq<u8>, words: Seq<u32>)
    requires
        was.len() == 512,
        words.len() == 128,
        crate::history::filled(block, was, words),
    ensures
        forall|i: int|
            0 <= i < 128 ==> #[trigger] words[i] == block[4 * i] + 0x100 * block[4 * i + 1]
                + 0x1_0000 * block[4 * i + 2] + 0x100_0000 * block[4 * i + 3],
{
    assert forall|i: int| 0 <= i < 128 implies #[trigger] words[i] == block[4 * i] + 0x100 * block[4
        * i + 1] + 0x1_0000 * block[4 * i + 2] + 0x100_0000 * block[4 * i + 3] by {
        assert(block[4 * i + 0] == crate::transfer::byte_of(words[i], 0));
        assert(block[4 * i + 1] == crate::transfer::byte_of(words[i], 1));
        assert(block[4 * i + 2] == crate::transfer::byte_of(words[i], 2));
        assert(block[4 * i + 3] == crate::transfer::byte_of(words[i], 3));
        let w = words[i];
        assert(w == (((w >> 0u32) & 0xFF) as u8) + 0x100 * (((w >> 8u32) & 0xFF) as u8) + 0x1_0000
            * (((w >> 16u32) & 0xFF) as u8) + 0x100_0000 * (((w >> 24u32) & 0xFF) as u8))
            by (bit_vector);
    }
}

/// A block that was written: it was issued and seen to complete, and its bytes went to
/// the data port as 128 words, the least significant byte of each first. It is as it
/// was.
pub proof fn law_write_block(
    inner: UsdhcInner,
    cmd_index: u32,
    arg: u32,
    block: [u8; 512],
    sent: Transfer,
    values: Seq<u32>,
    done: Transfer,
)
    requires
        call_ensures(UsdhcInner::write_block, (&inner, cmd_index, arg, &block), sent),
        done@ == sent@.run(values),
        call_ensures(Transfer::outcome, (&done,), Some(Ok(()))),
    ensures
        ({
            let log = sent@.accesses(values);
            let wrote = crate::reg::writes(log);
            &&& issues_block(log, cmd_index, arg, 0, 0x10)
            &&& completes_block(log)
            &&& wrote.len() == 136
            &&& wrote[134] == (Reg::IntStatus, 0x10u32)
            &&& done@.buf == block@
            &&& forall|i: int|
                0 <= i < 128 ==> {
                    &&& (#[trigger] wrote[6 + i]).0 == Reg::DataBuffAccPort
                    &&& wrote[6 + i].1 == block@[4 * i] + 0x100 * block@[4 * i + 1] + 0x1_0000
                        * block@[4 * i + 2] + 0x100_0000 * block@[4 * i + 3]
                }
        }),
{
    let request = Request { kind: Kind::WriteBlock, cmd_index, arg };
    crate::history::law_transfer_history(request, block@, values);
    lemma_issues(request, UsdCmdFlags::R1);
    let log = sent@.accesses(values);
    let wrote = crate::reg::writes(log);
    assert(log.drop_last().last() == log[log.len() - 2]);
    assert forall|i: int| 0 <= i < 128 implies {
        &&& (#[trigger] wrote[6 + i]).0 == Reg::DataBuffAccPort
        &&& wrote[6 + i].1 == block@[4 * i] + 0x100 * block@[4 * i + 1] + 0x1_0000 * block@[4 * i
            + 2] + 0x100_0000 * block@[4 * i + 3]
    } by {
        assert(wrote[6 + i] == (Reg::DataBuffAccPort, crate::transfer::block_word(block@, i)));
        let (a, b, c, d) = (block@[4 * i], block@[4 * i + 1], block@[4 * i + 2], block@[4 * i + 3]);
        assert((a as u32) | ((b as u32) << 8) | ((c as u32) << 16) | ((d as u32) << 24) == a + 0x100
            * b + 0x1_0000 * c + 0x100_0000 * d) by (bit_vector);
    }
}

/// The error that an error status stands for: a timeout if bit 16 (command) or bit 20
/// (data) is set, else a CRC error if bit 17 (command) or bit 21 (data) is, else the
/// status itself.
pub open spec fn classed(status: u32, error: SdError) -> bool {
    if status & 0x0011_0000 != 0 {
        error == SdError::Timeout
    } else if status & 0x0022_0000 != 0 {
        error == SdError::CrcError
    } else {
        error == SdError::CommandFailed(status)
    }
}

pub(crate) proof fn lemma_classed(phase: Phase, status: u32)
    ensures
        classed(status, crate::transfer::error_of(Cause::Status { phase, status })),
{
    assert((0x1_0000u32 | 0x10_0000) == 0x11_0000 && (0x2_0000u32 | 0x20_0000) == 0x22_0000)
        by (bit_vector);
}

/// A transfer that failed. Its last write sets bits 25 and 26 of SYS_CTRL and leaves the
/// others as they read, and both read clear after that. Before it comes either the
/// acknowledgement of a status with one of bits 16 to 28 set, of the kind that the
/// error says; or more readings than are tolerated came to nothing, which is a timeout:
/// 100000 of PRES_STATE before anything was written; and for a block 100000 of
/// INT_STATUS for its command, 150000000 for its buffer, and 10000000 for the completion
/// of a read, 150000000 for that of a write. The block is as it was, unless it was read
/// before the failure, and then holds the 128 words that the data port gave.
pub proof fn law_failed_transfer(
    request: Request,
    buf: Seq<u8>,
    values: Seq<u32>,
    error: SdError,
)
    requires
        buf.len() == 512,
        TransferModel::start(request, buf).run(values).stage == Stage::Finished(Err(error)),
    ensures
        ({
            let log = TransferModel::start(request, buf).accesses(values);
            let wrote = crate::reg::writes(log);
            let n = wrote.len() as int;
            let sys = crate::reg::readings(log, Reg::SysCtrl);
            let lines = crate::reg::readings(log, Reg::PresState);
            let polls = crate::reg::readings(log, Reg::IntStatus).len();
            let words = crate::reg::readings(log, Reg::DataBuffAccPort);
            let now = TransferModel::start(request, buf).run(values).buf;
            let block = !(request.kind is Command);
            &&& words.len() == 0 || request.kind is ReadBlock && words.len() == 128
            &&& words.len() == 0 ==> now == buf
            &&& words.len() == 128 ==> forall|i: int|
                0 <= i < 128 ==> #[trigger] words[i] == now[4 * i] + 0x100 * now[4 * i + 1]
                    + 0x1_0000 * now[4 * i + 2] + 0x100_0000 * now[4 * i + 3]
            &&& n >= 1
            &&& sys.len() >= 2
            &&& wrote[n - 1] == (Reg::SysCtrl, sys[0] | 0x0600_0000)
            &&& exists|i: int| 1 <= i < sys.len() && #[trigger] sys[i] & 0x0200_0000 == 0
            &&& sys.last() & 0x0400_0000 == 0
            &&& {
                ||| {
                    &&& n >= 2
                    &&& wrote[n - 2].0 == Reg::IntStatus
                    &&& wrote[n - 2].1 & 0x1FFF_0000 != 0
                    &&& classed(wrote[n - 2].1, error)
                }
                ||| {
                    &&& error == SdError::Timeout
                    &&& n == 1
                    &&& lines.len() > 100_000
                    &&& lines.last() & 0x3 != 0
                }
                ||| error == SdError::Timeout && block && n == 6 && polls > 100_000
                ||| error == SdError::Timeout && block && n == 7 && polls > 150_000_000
                ||| error == SdError::Timeout && request.kind is ReadBlock && n == 8 && polls
                    > 10_000_000
                ||| error == SdError::Timeout && request.kind is WriteBlock && n == 136 && polls
                    > 150_000_000
            }
        }),
{
    crate::history::law_transfer_history(request, buf, values);
    let log = TransferModel::start(request, buf).accesses(values);
    let m = TransferModel::start(request, buf).run(values);
    let wrote = crate::reg::writes(log);
    let sys = crate::reg::readings(log, Reg::SysCtrl);
    let cause = choose|cause: Cause|
        {
            &&& #[trigger] crate::history::line_resets_set(m.request, buf, cause, log)
            &&& crate::history::lines_reset(log)
            &&& error == crate::transfer::error_of(cause)
            &&& crate::reg::readings(log, Reg::DataBuffAccPort).len()
                == crate::history::words_before(m.request, cause)
            &&& cause.phase() != Phase::Complete ==> m.buf == buf
        };
    let v = sys[0];
    assert((v & !(0x0200_0000u32 | 0x0400_0000)) | (0x0200_0000u32 | 0x0400_0000) == v
        | 0x0600_0000 && (1u32 | 2) == 3) by (bit_vector);
    assert(wrote.drop_last().len() == wrote.len() - 1);
    match cause {
        Cause::Status { phase, status } => {
            lemma_classed(phase, status);
            assert(wrote.drop_last().last() == wrote[wrote.len() - 2]);
        },
        Cause::GaveUp { phase } => {},
    }
    let words = crate::reg::readings(log, Reg::DataBuffAccPort);
    if words.len() == 0 {
        assert(m.buf =~= buf);
    } else {
        lemma_words_in_bytes(m.buf, buf, words);
    }
}

/// A transfer that reads an error status, with one of bits 16 to 28 set, while it waits
/// for its command, its buffer or its completion ends in the error that the status
/// stands for, and in nothing else.
pub proof fn law_error_status(
    request: Request,
    buf: Seq<u8>,
    values: Seq<u32>,
    status: u32,
    later: Seq<u32>,
    result: Result<(), SdError>,
)
    requires
        buf.len() == 512,
        ({
            let stage = TransferModel::start(request, buf).run(values).stage;
            stage is CmdStatus || stage is BufStatus || stage is DoneStatus
        }),
        status & 0x1FFF_0000 != 0,
        TransferModel::start(request, buf).run(values.push(status) + later).stage
            == Stage::Finished(result),
    ensures
        result matches Err(error) && classed(status, error),
{
    crate::history::law_error_status_is_fatal(request, buf, values, status, later);
    let phase = crate::history::waits_in(
        TransferModel::start(request, buf).run(values).stage,
    ).unwrap();
    lemma_classed(phase, status);
}

/// CMD_XFR_TYP as it is computed for a command without data holds the command's index,
/// response type and checks.
pub proof fn law_written_xfr_typ(flags: UsdCmdFlags, cmd_index: u32, value: u32)
    requires
        call_ensures(UsdCmdFlags::write_cmd_xfr_typ, (flags, cmd_index), value),
    ensures
        issues_command(value, cmd_index, flags, false),
{
    lemma_issues(Request { kind: Kind::Command(flags), cmd_index, arg: 0 }, flags);
}

} // verus!
