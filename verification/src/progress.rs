//! How long a command or block transfer waits and when it ends, in numbers: what must
//! be read for it to succeed, and after how many readings it gives up.

use vstd::prelude::*;
use crate::cmd::UsdCmdFlags;
use crate::error::SdError;
use crate::transfer::{Cause, Kind, Phase, Request, Stage, TransferModel};

verus! {

/// The readings of PRES_STATE in `polls`. A poll is one reading if that shows the
/// command line busy (bit 0), and else two.
pub open spec fn line_polls(polls: Seq<(u32, u32)>) -> Seq<u32>
    decreases polls.len(),
{
    if polls.len() == 0 {
        Seq::empty()
    } else {
        let (a, b) = polls.last();
        if a & 1 != 0 {
            line_polls(polls.drop_last()).push(a)
        } else {
            line_polls(polls.drop_last()).push(a).push(b)
        }
    }
}

/// Every poll finds the command line busy (bit 0), or, where data is to move, the
/// data lines (bit 1).
pub open spec fn busy_lines(polls: Seq<(u32, u32)>, data: bool) -> bool {
    forall|i: int|
        0 <= i < polls.len() ==> {
            ||| #[trigger] polls[i].0 & 1 != 0
            ||| data && polls[i].1 & 2 != 0
        }
}

/// Polls of INT_STATUS that come to nothing, two readings each: one is looked at for an
/// error (bits 16 to 28), the other for `flag`. For a command and a buffer the error is
/// looked for first, for the completion of a block the flag.
pub open spec fn idle_polls(values: Seq<u32>, flag: u32, flag_first: bool) -> bool {
    &&& values.len() % 2 == 0
    &&& idle_readings(values, flag, flag_first)
}

/// The readings of such polls, of which the last may be half done.
pub open spec fn idle_readings(values: Seq<u32>, flag: u32, flag_first: bool) -> bool {
    forall|i: int|
        0 <= i < values.len() ==> if (i % 2 == 0) == flag_first {
            #[trigger] values[i] & flag == 0
        } else {
            values[i] & 0x1FFF_0000 == 0
        }
}

/// What is read of a transfer up to its command's completion: busy lines, the two
/// readings that find them free (one for a command), whatever stands for the values
/// written, idle polls, a status without an error, one with the completion (bit 0),
/// and its acknowledgement.
pub struct Issued {
    pub busy: Seq<(u32, u32)>,
    pub free: Seq<u32>,
    pub written: Seq<u32>,
    pub idle: Seq<u32>,
    pub status: u32,
    pub complete: u32,
    pub ack: u32,
}

impl Issued {
    /// The readings in order.
    pub open spec fn readings(self) -> Seq<u32> {
        line_polls(self.busy) + self.free + self.written + self.idle + seq![
            self.status,
            self.complete,
            self.ack,
        ]
    }

    /// Whether a transfer with or without data gets its command through: a command
    /// waits for it as long as it takes, a block at most 100000 polls.
    pub open spec fn holds(self, data: bool) -> bool {
        &&& self.busy.len() <= 100_000
        &&& busy_lines(self.busy, data)
        &&& self.free.len() == if data {
            2nat
        } else {
            1
        }
        &&& self.free[0] & 1 == 0
        &&& data ==> self.free[1] & 2 == 0
        &&& self.written.len() == if data {
            5nat
        } else {
            3
        }
        &&& idle_polls(self.idle, 1, false)
        &&& data ==> self.idle.len() <= 200_000
        &&& self.status & 0x1FFF_0000 == 0
        &&& self.complete & 1 != 0
    }
}

/// What is read of a block transfer from its command's completion on: idle polls, a
/// status without an error, one with the buffer ready, the words (or whatever stands
/// for them in a write), the acknowledgement, idle polls, a status with the completion
/// (bit 1) and its acknowledgement.
pub struct Carried {
    pub idle: Seq<u32>,
    pub status: u32,
    pub ready: u32,
    pub words: Seq<u32>,
    pub ack: u32,
    pub waiting: Seq<u32>,
    pub complete: u32,
    pub done: u32,
}

impl Carried {
    /// The readings up to the acknowledgement of the buffer.
    pub open spec fn moving(self) -> Seq<u32> {
        self.idle + seq![self.status, self.ready] + self.words + seq![self.ack]
    }

    /// The readings in order.
    pub open spec fn readings(self) -> Seq<u32> {
        self.moving() + self.waiting + seq![self.complete, self.done]
    }

    /// Whether the words of a block move. The buffer is ready by bit 5 for a read and
    /// bit 4 for a write, after 150000000 polls at most.
    pub open spec fn moves(self, read: bool) -> bool {
        let flag = if read {
            0x20u32
        } else {
            0x10
        };
        &&& idle_polls(self.idle, flag, false)
        &&& self.idle.len() <= 300_000_000
        &&& self.status & 0x1FFF_0000 == 0
        &&& self.ready & flag != 0
        &&& self.words.len() == 128
    }

    /// Whether a block gets through: a read completes after 10000000 polls at most, a
    /// write after 150000000.
    pub open spec fn holds(self, read: bool) -> bool {
        &&& self.moves(read)
        &&& idle_polls(self.waiting, 2, true)
        &&& self.waiting.len() <= if read {
            20_000_000int
        } else {
            300_000_000
        }
        &&& self.complete & 2 != 0
    }
}

/// The status is acknowledged and one response register is read, or four.
pub open spec fn response_readings(flags: UsdCmdFlags, values: Seq<u32>) -> bool {
    values.len() == if flags is R2 {
        4nat
    } else {
        1
    }
}

proof fn lemma_line_polls(request: Request, buf: Seq<u8>, polls: Seq<(u32, u32)>)
    requires
        polls.len() <= 100_001,
        busy_lines(polls, request.moves_data()),
    ensures
        ({
            let m = TransferModel::start(request, buf).run(line_polls(polls));
            &&& m.request == request
            &&& m.buf == buf
            &&& m.stage == if polls.len() <= 100_000 {
                Stage::CmdLine { left: (100_000 - polls.len()) as u32 }
            } else {
                Stage::ResetRead { cause: Cause::GaveUp { phase: Phase::Lines } }
            }
        }),
    decreases polls.len(),
{
    let start = TransferModel::start(request, buf);
    if polls.len() > 0 {
        let prev = polls.drop_last();
        assert(busy_lines(prev, request.moves_data())) by {
            assert forall|i: int| 0 <= i < prev.len() implies #[trigger] prev[i] == polls[i] by {}
        }
        lemma_line_polls(request, buf, prev);
        let (a, b) = polls.last();
        assert(polls[polls.len() - 1] == (a, b));
        let before = line_polls(prev);
        let first = before.push(a);
        assert(first.drop_last() =~= before);
        assert(start.run(first) == start.run(before).advance(a));
        if a & 1 == 0 {
            let second = first.push(b);
            assert(second.drop_last() =~= first);
            assert(start.run(second) == start.run(first).advance(b));
        }
    }
}

proof fn lemma_idle_before(values: Seq<u32>, flag: u32, flag_first: bool)
    requires
        values.len() > 0,
        idle_readings(values, flag, flag_first),
    ensures
        idle_readings(values.drop_last(), flag, flag_first),
        (values.len() % 2 == 1) == flag_first ==> values.last() & flag == 0,
        (values.len() % 2 == 1) != flag_first ==> values.last() & 0x1FFF_0000 == 0,
{
    let prev = values.drop_last();
    assert forall|i: int| 0 <= i < prev.len() implies #[trigger] prev[i] == values[i] by {}
    let last = values[values.len() - 1];
    assert((values.len() % 2 == 1) == flag_first ==> last & flag == 0);
}

/// The flag that `m` waits for.
spec fn awaited(m: TransferModel) -> u32 {
    match m.stage {
        Stage::CmdStatus { .. } => 1,
        Stage::BufStatus { .. } => if m.request.kind is ReadBlock {
            0x20
        } else {
            0x10
        },
        _ => 2,
    }
}

/// A block transfer polls as long as polls are left, and then gives up.
proof fn lemma_idle(m: TransferModel, left: u32, values: Seq<u32>)
    requires
        ({
            ||| m.stage == (Stage::CmdStatus { left }) && m.request.moves_data()
            ||| m.stage == (Stage::BufStatus { left })
            ||| m.stage == (Stage::DoneFlag { left })
        }),
        values.len() <= 2 * (left + 1),
        idle_readings(values, awaited(m), m.stage is DoneFlag),
    ensures
        m.run(values).request == m.request,
        m.run(values).buf == m.buf,
        m.run(values).stage == if values.len() == 2 * (left + 1) {
            Stage::ResetRead { cause: Cause::GaveUp { phase: waited(m.stage) } }
        } else {
            let now = (left - values.len() as int / 2) as u32;
            let half = values.len() % 2 == 1;
            match m.stage {
                Stage::CmdStatus { .. } => if half {
                    Stage::CmdFlag { left: now }
                } else {
                    Stage::CmdStatus { left: now }
                },
                Stage::BufStatus { .. } => if half {
                    Stage::BufFlag { left: now }
                } else {
                    Stage::BufStatus { left: now }
                },
                _ => if half {
                    Stage::DoneStatus { left: now }
                } else {
                    Stage::DoneFlag { left: now }
                },
            }
        },
    decreases values.len(),
{
    if values.len() > 0 {
        lemma_idle_before(values, awaited(m), m.stage is DoneFlag);
        lemma_idle(m, left, values.drop_last());
    }
}

/// What is waited for at `stage`.
spec fn waited(stage: Stage) -> Phase {
    match stage {
        Stage::CmdStatus { .. } => Phase::Command,
        Stage::BufStatus { .. } => Phase::Buffer,
        _ => Phase::Complete,
    }
}

/// A command that has no data is waited for without end.
proof fn lemma_command_idle(m: TransferModel, left: u32, values: Seq<u32>)
    requires
        m.stage == (Stage::CmdStatus { left }),
        !m.request.moves_data(),
        idle_readings(values, 1, false),
    ensures
        m.run(values).request == m.request,
        m.run(values).buf == m.buf,
        m.run(values).stage == if values.len() % 2 == 0 {
            Stage::CmdStatus { left }
        } else {
            Stage::CmdFlag { left }
        },
    decreases values.len(),
{
    if values.len() > 0 {
        let prev = values.drop_last();
        lemma_idle_before(values, 1, false);
        lemma_command_idle(m, left, prev);
    }
}

proof fn lemma_words(m: TransferModel, words: Seq<u32>)
    requires
        m.stage == (Stage::Data { index: 0 }),
        words.len() <= 128,
    ensures
        m.run(words).request == m.request,
        m.run(words).stage == if words.len() == 128 {
            Stage::BufAck
        } else {
            Stage::Data { index: words.len() as u32 }
        },
    decreases words.len(),
{
    if words.len() > 0 {
        lemma_words(m, words.drop_last());
    }
}

/// One, two and three readings.
proof fn lemma_few(m: TransferModel, a: u32, b: u32, c: u32)
    ensures
        m.run(seq![a]) == m.advance(a),
        m.run(seq![a, b]) == m.advance(a).advance(b),
        m.run(seq![a, b, c]) == m.advance(a).advance(b).advance(c),
{
    let none = Seq::<u32>::empty();
    assert(seq![a].drop_last() =~= none);
    assert(seq![a, b].drop_last() =~= seq![a]);
    assert(seq![a, b, c].drop_last() =~= seq![a, b]);
    assert(m.run(none) == m);
    assert(m.run(seq![a]) == m.advance(a));
    assert(m.run(seq![a, b]) == m.advance(a).advance(b));
}

/// The lines are found free and the command is written.
proof fn lemma_written(m: TransferModel, left: u32, free: Seq<u32>, written: Seq<u32>)
    requires
        m.stage == (Stage::CmdLine { left }),
        free.len() == if m.request.moves_data() {
            2nat
        } else {
            1
        },
        free[0] & 1 == 0,
        m.request.moves_data() ==> free[1] & 2 == 0,
        written.len() == if m.request.moves_data() {
            5nat
        } else {
            3
        },
    ensures
        m.run(free).run(written).request == m.request,
        m.run(free).run(written).buf == m.buf,
        m.run(free).run(written).stage == (Stage::CmdStatus { left: 100_000 }),
{
    lemma_few(m, free[0], free[1], 0);
    if m.request.moves_data() {
        assert(free =~= seq![free[0], free[1]]);
    } else {
        assert(free =~= seq![free[0]]);
    }
    let ready = m.run(free);
    assert(ready.stage == Stage::ClearStatus);
    let head = written.take(3);
    let tail = written.skip(3);
    assert(written =~= head + tail);
    crate::history::lemma_run_more(ready, head, tail);
    assert(head =~= seq![written[0], written[1], written[2]]);
    lemma_few(ready, written[0], written[1], written[2]);
    if m.request.moves_data() {
        assert(tail =~= seq![written[3], written[4]]);
        lemma_few(ready.run(head), written[3], written[4], 0);
    }
}

proof fn lemma_issued(request: Request, buf: Seq<u8>, issued: Issued)
    requires
        issued.holds(request.moves_data()),
    ensures
        ({
            let m = TransferModel::start(request, buf).run(issued.readings());
            &&& m.request == request
            &&& m.buf == buf
            &&& m.stage == if request.moves_data() {
                Stage::BufStatus { left: 150_000_000 }
            } else {
                Stage::Response0
            }
        }),
{
    let start = TransferModel::start(request, buf);
    let lines = line_polls(issued.busy);
    lemma_line_polls(request, buf, issued.busy);
    lemma_written(
        start.run(lines),
        (100_000 - issued.busy.len()) as u32,
        issued.free,
        issued.written,
    );
    crate::history::lemma_run_more(start, lines, issued.free);
    crate::history::lemma_run_more(start, lines + issued.free, issued.written);
    let written = lines + issued.free + issued.written;
    crate::history::lemma_run_more(start, written, issued.idle);
    let m = start.run(written);
    if request.moves_data() {
        lemma_idle(m, 100_000, issued.idle);
    } else {
        lemma_command_idle(m, 100_000, issued.idle);
    }
    let end = seq![issued.status, issued.complete, issued.ack];
    crate::history::lemma_run_more(start, written + issued.idle, end);
    lemma_few(start.run(written + issued.idle), issued.status, issued.complete, issued.ack);
}

proof fn lemma_moving(m: TransferModel, carried: Carried)
    requires
        m.request.moves_data(),
        m.stage == (Stage::BufStatus { left: 150_000_000 }),
        carried.moves(m.request.kind is ReadBlock),
    ensures
        m.run(carried.moving()).request == m.request,
        m.run(carried.moving()).stage == (Stage::DoneFlag {
            left: if m.request.kind is ReadBlock {
                10_000_000u32
            } else {
                150_000_000
            },
        }),
{
    lemma_idle(m, 150_000_000, carried.idle);
    let pair = seq![carried.status, carried.ready];
    crate::history::lemma_run_more(m, carried.idle, pair);
    lemma_few(m.run(carried.idle), carried.status, carried.ready, 0);
    let ready = carried.idle + pair;
    crate::history::lemma_run_more(m, ready, carried.words);
    lemma_words(m.run(ready), carried.words);
    crate::history::lemma_run_more(m, ready + carried.words, seq![carried.ack]);
    lemma_few(m.run(ready + carried.words), carried.ack, 0, 0);
}

/// A command whose lines come free and which completes without an error, however late,
/// ends in success once its response is read.
pub proof fn law_command_succeeds(
    flags: UsdCmdFlags,
    cmd_index: u32,
    arg: u32,
    buf: Seq<u8>,
    issued: Issued,
    response: Seq<u32>,
)
    requires
        issued.holds(false),
        response_readings(flags, response),
    ensures
        TransferModel::start(
            Request { kind: Kind::Command(flags), cmd_index, arg },
            buf,
        ).run(issued.readings() + response).stage == Stage::Finished(Ok(())),
{
    let request = Request { kind: Kind::Command(flags), cmd_index, arg };
    let start = TransferModel::start(request, buf);
    lemma_issued(request, buf, issued);
    crate::history::lemma_run_more(start, issued.readings(), response);
    let m = start.run(issued.readings());
    if flags is R2 {
        let head = seq![response[0], response[1], response[2]];
        assert(response =~= head + seq![response[3]]);
        crate::history::lemma_run_more(m, head, seq![response[3]]);
        lemma_few(m, response[0], response[1], response[2]);
        lemma_few(m.run(head), response[3], 0, 0);
    } else {
        assert(response =~= seq![response[0]]);
        lemma_few(m, response[0], 0, 0);
    }
}

/// A block transfer that nothing fails and that is kept waiting no longer than it
/// tolerates ends in success: 100000 polls for its lines and for its command, 150000000
/// for its buffer, and for its completion 10000000 if it reads and 150000000 if it
/// writes.
pub proof fn law_block_succeeds(
    request: Request,
    buf: Seq<u8>,
    issued: Issued,
    carried: Carried,
)
    requires
        !(request.kind is Command),
        issued.holds(true),
        carried.holds(request.kind is ReadBlock),
    ensures
        TransferModel::start(request, buf).run(issued.readings() + carried.readings()).stage
            == Stage::Finished(Ok(())),
{
    let start = TransferModel::start(request, buf);
    lemma_issued(request, buf, issued);
    let m = start.run(issued.readings());
    crate::history::lemma_run_more(start, issued.readings(), carried.readings());
    lemma_moving(m, carried);
    let waits = m.run(carried.moving());
    crate::history::lemma_run_more(m, carried.moving(), carried.waiting);
    let left = if request.kind is ReadBlock {
        10_000_000u32
    } else {
        150_000_000
    };
    lemma_idle(waits, left, carried.waiting);
    let end = seq![carried.complete, carried.done];
    crate::history::lemma_run_more(m, carried.moving() + carried.waiting, end);
    lemma_few(m.run(carried.moving() + carried.waiting), carried.complete, carried.done, 0);
}

/// The readings by which the lines are reset: SYS_CTRL, whatever stands for the value
/// written, SYS_CTRL as long as bit 25 is set and once more, and as long as bit 26 is
/// set and once more.
pub open spec fn line_resets(
    sys: u32,
    written: u32,
    cmd: Seq<u32>,
    cmd_over: u32,
    data: Seq<u32>,
    data_over: u32,
) -> Seq<u32> {
    seq![sys, written] + cmd + seq![cmd_over] + data + seq![data_over]
}

/// Whether these are such readings.
pub open spec fn resets_over(cmd: Seq<u32>, cmd_over: u32, data: Seq<u32>, data_over: u32) -> bool {
    &&& forall|i: int| 0 <= i < cmd.len() ==> #[trigger] cmd[i] & 0x0200_0000 != 0
    &&& cmd_over & 0x0200_0000 == 0
    &&& forall|i: int| 0 <= i < data.len() ==> #[trigger] data[i] & 0x0400_0000 != 0
    &&& data_over & 0x0400_0000 == 0
}

proof fn lemma_cmd_reset(m: TransferModel, cause: Cause, values: Seq<u32>)
    requires
        m.stage == (Stage::CmdReset { cause }),
        forall|i: int| 0 <= i < values.len() ==> #[trigger] values[i] & 0x0200_0000 != 0,
    ensures
        m.run(values).stage == m.stage,
    decreases values.len(),
{
    if values.len() > 0 {
        lemma_cmd_reset(m, cause, values.drop_last());
        assert(values[values.len() - 1] & 0x0200_0000 != 0);
    }
}

proof fn lemma_data_reset(m: TransferModel, cause: Cause, values: Seq<u32>)
    requires
        m.stage == (Stage::DataReset { cause }),
        forall|i: int| 0 <= i < values.len() ==> #[trigger] values[i] & 0x0400_0000 != 0,
    ensures
        m.run(values).stage == m.stage,
    decreases values.len(),
{
    if values.len() > 0 {
        lemma_data_reset(m, cause, values.drop_last());
        assert(values[values.len() - 1] & 0x0400_0000 != 0);
    }
}

proof fn lemma_recovery_ends(
    m: TransferModel,
    cause: Cause,
    sys: u32,
    written: u32,
    cmd: Seq<u32>,
    cmd_over: u32,
    data: Seq<u32>,
    data_over: u32,
)
    requires
        m.stage == (Stage::ResetRead { cause }),
        resets_over(cmd, cmd_over, data, data_over),
    ensures
        m.run(line_resets(sys, written, cmd, cmd_over, data, data_over)).stage == Stage::Finished(
            Err(crate::transfer::error_of(cause)),
        ),
{
    let head = seq![sys, written];
    lemma_few(m, sys, written, 0);
    crate::history::lemma_run_more(m, head, cmd);
    lemma_cmd_reset(m.run(head), cause, cmd);
    crate::history::lemma_run_more(m, head + cmd, seq![cmd_over]);
    lemma_few(m.run(head + cmd), cmd_over, 0, 0);
    let first = head + cmd + seq![cmd_over];
    crate::history::lemma_run_more(m, first, data);
    lemma_data_reset(m.run(first), cause, data);
    crate::history::lemma_run_more(m, first + data, seq![data_over]);
    lemma_few(m.run(first + data), data_over, 0, 0);
}

/// A transfer whose lines are busy gives up at the poll after the 100000th: it then
/// resets the lines and ends in a timeout.
pub proof fn law_busy_lines_end(
    request: Request,
    buf: Seq<u8>,
    busy: Seq<(u32, u32)>,
    sys: u32,
    written: u32,
    cmd: Seq<u32>,
    cmd_over: u32,
    data: Seq<u32>,
    data_over: u32,
)
    requires
        busy.len() == 100_001,
        busy_lines(busy, !(request.kind is Command)),
        resets_over(cmd, cmd_over, data, data_over),
    ensures
        TransferModel::start(request, buf).run(
            line_polls(busy) + line_resets(sys, written, cmd, cmd_over, data, data_over),
        ).stage == Stage::Finished(Err(SdError::Timeout)),
{
    let start = TransferModel::start(request, buf);
    let resets = line_resets(sys, written, cmd, cmd_over, data, data_over);
    lemma_line_polls(request, buf, busy);
    crate::history::lemma_run_more(start, line_polls(busy), resets);
    let cause = Cause::GaveUp { phase: Phase::Lines };
    lemma_recovery_ends(
        start.run(line_polls(busy)),
        cause,
        sys,
        written,
        cmd,
        cmd_over,
        data,
        data_over,
    );
}

/// A block transfer gives up the wait for its command at the poll after the 100000th,
/// that for its buffer at the poll after the 150000000th, and that for its completion
/// at the poll after the 10000000th if it reads and the 150000000th if it writes. It
/// then resets the lines and ends in a timeout.
pub proof fn law_idle_polls_end(
    request: Request,
    buf: Seq<u8>,
    issued: Issued,
    carried: Carried,
    idle: Seq<u32>,
    sys: u32,
    written: u32,
    cmd: Seq<u32>,
    cmd_over: u32,
    data: Seq<u32>,
    data_over: u32,
)
    requires
        !(request.kind is Command),
        issued.holds(true),
        carried.moves(request.kind is ReadBlock),
        resets_over(cmd, cmd_over, data, data_over),
    ensures
        ({
            let start = TransferModel::start(request, buf);
            let read = request.kind is ReadBlock;
            let resets = line_resets(sys, written, cmd, cmd_over, data, data_over);
            let command = line_polls(issued.busy) + issued.free + issued.written;
            let moved = issued.readings() + carried.moving();
            let timeout = Stage::Finished(Err(SdError::Timeout));
            &&& idle_polls(idle, 1, false) && idle.len() == 200_002 ==> start.run(
                command + idle + resets,
            ).stage == timeout
            &&& idle_polls(
                idle,
                if read {
                    0x20u32
                } else {
                    0x10
                },
                false,
            ) && idle.len() == 300_000_002 ==> start.run(issued.readings() + idle + resets).stage
                == timeout
            &&& idle_polls(idle, 2, true) && idle.len() == (if read {
                20_000_002int
            } else {
                300_000_002
            }) ==> start.run(moved + idle + resets).stage == timeout
        }),
{
    let start = TransferModel::start(request, buf);
    let read = request.kind is ReadBlock;
    let resets = line_resets(sys, written, cmd, cmd_over, data, data_over);
    let lines = line_polls(issued.busy);
    let command = lines + issued.free + issued.written;
    let moved = issued.readings() + carried.moving();
    if idle_polls(idle, 1, false) && idle.len() == 200_002 {
        lemma_line_polls(request, buf, issued.busy);
        lemma_written(
            start.run(lines),
            (100_000 - issued.busy.len()) as u32,
            issued.free,
            issued.written,
        );
        crate::history::lemma_run_more(start, lines, issued.free);
        crate::history::lemma_run_more(start, lines + issued.free, issued.written);
        crate::history::lemma_run_more(start, command, idle);
        lemma_idle(start.run(command), 100_000, idle);
        crate::history::lemma_run_more(start, command + idle, resets);
        let cause = Cause::GaveUp { phase: Phase::Command };
        lemma_recovery_ends(
            start.run(command + idle),
            cause,
            sys,
            written,
            cmd,
            cmd_over,
            data,
            data_over,
        );
    }
    lemma_issued(request, buf, issued);
    let m = start.run(issued.readings());
    if idle_polls(
        idle,
        if read {
            0x20u32
        } else {
            0x10
        },
        false,
    ) && idle.len() == 300_000_002 {
        crate::history::lemma_run_more(start, issued.readings(), idle);
        lemma_idle(m, 150_000_000, idle);
        crate::history::lemma_run_more(start, issued.readings() + idle, resets);
        let cause = Cause::GaveUp { phase: Phase::Buffer };
        lemma_recovery_ends(m.run(idle), cause, sys, written, cmd, cmd_over, data, data_over);
    }
    let left = if read {
        10_000_000u32
    } else {
        150_000_000
    };
    if idle_polls(idle, 2, true) && idle.len() == 2 * (left + 1) {
        lemma_moving(m, carried);
        crate::history::lemma_run_more(start, issued.readings(), carried.moving());
        crate::history::lemma_run_more(start, moved, idle);
        lemma_idle(start.run(moved), left, idle);
        crate::history::lemma_run_more(start, moved + idle, resets);
        let cause = Cause::GaveUp { phase: Phase::Complete };
        lemma_recovery_ends(
            start.run(moved + idle),
            cause,
            sys,
            written,
            cmd,
            cmd_over,
            data,
            data_over,
        );
    }
}

/// A status with an error that comes while a transfer waits for its command, its buffer
/// or its completion is acknowledged, the lines are reset, and the transfer ends in the
/// error that the status stands for.
pub proof fn law_error_status_ends(
    request: Request,
    buf: Seq<u8>,
    values: Seq<u32>,
    status: u32,
    ack: u32,
    sys: u32,
    written: u32,
    cmd: Seq<u32>,
    cmd_over: u32,
    data: Seq<u32>,
    data_over: u32,
)
    requires
        ({
            let stage = TransferModel::start(request, buf).run(values).stage;
            stage is CmdStatus || stage is BufStatus || stage is DoneStatus
        }),
        status & 0x1FFF_0000 != 0,
        resets_over(cmd, cmd_over, data, data_over),
    ensures
        TransferModel::start(request, buf).run(
            values + seq![status, ack] + line_resets(
                sys,
                written,
                cmd,
                cmd_over,
                data,
                data_over,
            ),
        ).stage matches Stage::Finished(Err(error)) && crate::outcome::classed(status, error),
{
    let start = TransferModel::start(request, buf);
    let m = start.run(values);
    let resets = line_resets(sys, written, cmd, cmd_over, data, data_over);
    crate::history::lemma_run_more(start, values, seq![status, ack]);
    lemma_few(m, status, ack, 0);
    crate::history::lemma_run_more(start, values + seq![status, ack], resets);
    let phase = waited(m.stage);
    crate::outcome::lemma_classed(phase, status);
    let cause = Cause::Status { phase, status };
    let now = m.run(seq![status, ack]);
    lemma_recovery_ends(now, cause, sys, written, cmd, cmd_over, data, data_over);
}

} // verus!
