//! Peripheral set-up as sequences of register accesses: reset, initialization
//! clocks, clock divisors and bus width.

use vstd::prelude::*;
use crate::host::BusWidth;
use crate::reg::{
    Access, Action, Reg, DTOCV_MASK, DTW_MASK, DVS_MASK, FRC_SDCLK_ON, INITA, RSTA, SDCLKFS_MASK,
    SDSTB,
};

verus! {

/// PROT_CTRL after reset: 1-bit mode, little-endian.
pub const ONE_BIT_LITTLE_ENDIAN: u32 = 0x0000_0020;

/// WTMK_LVL: 128 words, a full block, in both directions.
pub const FULL_BLOCK_WATERMARK: u32 = 0x0080_0080;

/// INT_STATUS_EN: the flags that are polled, CC, TC, BWR, BRR and the command and
/// data errors.
pub const POLLED_FLAGS: u32 = 0x007F_0033;

/// SYS_CTRL.DTOCV for the longest data timeout in use.
pub const DATA_TIMEOUT: u32 = 0x000E_0000;

/// PROT_CTRL.DTW for four data lines.
pub const DTW_FOUR: u32 = 0x0000_0002;

/// One step of a set-up sequence.
#[derive(Debug, Clone, Copy, PartialEq, Eq, Structural)]
pub enum RegOp {
    /// Write the register.
    Put { reg: Reg, value: u32 },
    /// Replace the bits of `mask` in the register by `bits`.
    Update { reg: Reg, mask: u32, bits: u32 },
    /// Poll the register until the bits of `mask` are clear.
    AwaitClear { reg: Reg, mask: u32 },
    /// Poll the register until a bit of `mask` is set.
    AwaitSet { reg: Reg, mask: u32 },
}

/// A set-up sequence.
#[derive(Debug, Clone, Copy, PartialEq, Eq, Structural)]
pub enum Sequence {
    /// Reset the peripheral and configure it for polled single-block transfers.
    Reset,
    /// Send the 80 initialization clocks.
    InitialClocks,
    /// Set the clock divisors, with the card clock gated meanwhile.
    Clock { sdclkfs: u32, dvs: u32 },
    /// Set the bus width.
    Width(BusWidth),
}

impl Sequence {
    /// The divisors of a clock sequence fit their fields.
    pub open spec fn wf(self) -> bool {
        self matches Sequence::Clock { sdclkfs, dvs } ==> sdclkfs <= 255 && dvs <= 15
    }

    /// The steps of the sequence.
    pub open spec fn ops(self) -> Seq<RegOp> {
        match self {
            Sequence::Reset => seq![
                RegOp::Update { reg: Reg::SysCtrl, mask: RSTA, bits: RSTA },
                RegOp::AwaitClear { reg: Reg::SysCtrl, mask: RSTA },
                RegOp::Update { reg: Reg::SysCtrl, mask: DTOCV_MASK, bits: DATA_TIMEOUT },
                RegOp::Put { reg: Reg::ProtCtrl, value: ONE_BIT_LITTLE_ENDIAN },
                RegOp::Put { reg: Reg::WtmkLvl, value: FULL_BLOCK_WATERMARK },
                RegOp::Put { reg: Reg::IntStatusEn, value: POLLED_FLAGS },
                RegOp::Put { reg: Reg::IntSignalEn, value: 0 },
                RegOp::Update { reg: Reg::VendSpec, mask: FRC_SDCLK_ON, bits: FRC_SDCLK_ON },
            ],
            Sequence::InitialClocks => seq![
                RegOp::Update { reg: Reg::SysCtrl, mask: INITA, bits: INITA },
                RegOp::AwaitClear { reg: Reg::SysCtrl, mask: INITA },
            ],
            Sequence::Clock { sdclkfs, dvs } => seq![
                RegOp::Update { reg: Reg::VendSpec, mask: FRC_SDCLK_ON, bits: 0 },
                RegOp::Update {
                    reg: Reg::SysCtrl,
                    mask: SDCLKFS_MASK | DVS_MASK,
                    bits: (sdclkfs * 0x100 + dvs * 0x10) as u32,
                },
                RegOp::AwaitSet { reg: Reg::PresState, mask: SDSTB },
                RegOp::Update { reg: Reg::VendSpec, mask: FRC_SDCLK_ON, bits: FRC_SDCLK_ON },
            ],
            Sequence::Width(width) => seq![
                RegOp::Update {
                    reg: Reg::ProtCtrl,
                    mask: DTW_MASK,
                    bits: match width {
                        BusWidth::One => 0,
                        BusWidth::Four => DTW_FOUR,
                    },
                },
            ],
        }
    }

    /// Step `pos` of the sequence, if there is one.
    pub fn op(&self, pos: u32) -> (op: Option<RegOp>)
        requires
            self.wf(),
        ensures
            op == (if pos < self.ops().len() {
                Some(self.ops()[pos as int])
            } else {
                None
            }),
    {
        match self {
            Sequence::Reset => match pos {
                0 => Some(RegOp::Update { reg: Reg::SysCtrl, mask: RSTA, bits: RSTA }),
                1 => Some(RegOp::AwaitClear { reg: Reg::SysCtrl, mask: RSTA }),
                2 => Some(
                    RegOp::Update { reg: Reg::SysCtrl, mask: DTOCV_MASK, bits: DATA_TIMEOUT },
                ),
                3 => Some(RegOp::Put { reg: Reg::ProtCtrl, value: ONE_BIT_LITTLE_ENDIAN }),
                4 => Some(RegOp::Put { reg: Reg::WtmkLvl, value: FULL_BLOCK_WATERMARK }),
                5 => Some(RegOp::Put { reg: Reg::IntStatusEn, value: POLLED_FLAGS }),
                6 => Some(RegOp::Put { reg: Reg::IntSignalEn, value: 0 }),
                7 => Some(
                    RegOp::Update { reg: Reg::VendSpec, mask: FRC_SDCLK_ON, bits: FRC_SDCLK_ON },
                ),
                _ => None,
            },
            Sequence::InitialClocks => match pos {
                0 => Some(RegOp::Update { reg: Reg::SysCtrl, mask: INITA, bits: INITA }),
                1 => Some(RegOp::AwaitClear { reg: Reg::SysCtrl, mask: INITA }),
                _ => None,
            },
            Sequence::Clock { sdclkfs, dvs } => match pos {
                0 => Some(RegOp::Update { reg: Reg::VendSpec, mask: FRC_SDCLK_ON, bits: 0 }),
                1 => {
                    let bits: u32 = ((*sdclkfs << 8) & SDCLKFS_MASK) | ((*dvs << 4) & DVS_MASK);
                    assert(bits == *sdclkfs * 0x100 + *dvs * 0x10) by (bit_vector)
                        requires
                            bits == ((*sdclkfs << 8) & 0xFF00u32) | ((*dvs << 4) & 0xF0u32),
                            *sdclkfs <= 255,
                            *dvs <= 15,
                    ;
                    Some(
                        RegOp::Update { reg: Reg::SysCtrl, mask: SDCLKFS_MASK | DVS_MASK, bits },
                    )
                },
                2 => Some(RegOp::AwaitSet { reg: Reg::PresState, mask: SDSTB }),
                3 => Some(
                    RegOp::Update { reg: Reg::VendSpec, mask: FRC_SDCLK_ON, bits: FRC_SDCLK_ON },
                ),
                _ => None,
            },
            Sequence::Width(width) => match pos {
                0 => {
                    let bits: u32 = match width {
                        BusWidth::One => 0,
                        BusWidth::Four => DTW_FOUR,
                    };
                    Some(RegOp::Update { reg: Reg::ProtCtrl, mask: DTW_MASK, bits })
                },
                _ => None,
            },
        }
    }
}

/// A set-up sequence in progress, as a value.
#[verifier::ext_equal]
pub struct SetupModel {
    pub sequence: Sequence,
    /// The step to take next.
    pub pos: nat,
    /// The register's value, between the two accesses of an update.
    pub pending: Option<u32>,
}

impl SetupModel {
    /// A sequence that has not touched a register yet.
    pub open spec fn start(sequence: Sequence) -> SetupModel {
        SetupModel { sequence, pos: 0, pending: None }
    }

    /// Whether every step has been taken.
    pub open spec fn finished(self) -> bool {
        self.pos >= self.sequence.ops().len()
    }

    /// The access to make next.
    pub open spec fn action(self) -> Action {
        if self.finished() {
            Action::Finished
        } else {
            match self.sequence.ops()[self.pos as int] {
                RegOp::Put { reg, value } => Action::Write(reg, value),
                RegOp::Update { reg, mask, bits } => match self.pending {
                    None => Action::Read(reg),
                    Some(value) => Action::Write(reg, crate::reg::updated(value, mask, bits)),
                },
                RegOp::AwaitClear { reg, .. } | RegOp::AwaitSet { reg, .. } => Action::Read(reg),
            }
        }
    }

    /// The sequence once the access was made and `value` read.
    pub open spec fn advance(self, value: u32) -> SetupModel {
        let step = SetupModel { pos: self.pos + 1, pending: None, ..self };
        if self.finished() {
            self
        } else {
            match self.sequence.ops()[self.pos as int] {
                RegOp::Put { .. } => step,
                RegOp::Update { .. } => if self.pending is None {
                    SetupModel { pending: Some(value), ..self }
                } else {
                    step
                },
                RegOp::AwaitClear { mask, .. } => if value & mask == 0 {
                    step
                } else {
                    self
                },
                RegOp::AwaitSet { mask, .. } => if value & mask != 0 {
                    step
                } else {
                    self
                },
            }
        }
    }

    /// The sequence after the readings `values`, oldest first.
    pub open spec fn run(self, values: Seq<u32>) -> SetupModel
        decreases values.len(),
    {
        if values.len() == 0 {
            self
        } else {
            self.run(values.drop_last()).advance(values.last())
        }
    }

    /// The accesses that the readings `values` lead through.
    pub open spec fn accesses(self, values: Seq<u32>) -> Seq<Access>
        decreases values.len(),
    {
        if values.len() == 0 {
            Seq::empty()
        } else {
            let before = self.run(values.drop_last());
            if before.finished() {
                self.accesses(values.drop_last())
            } else {
                self.accesses(values.drop_last()).push(before.action().performed(values.last()))
            }
        }
    }
}

/// A set-up sequence in progress.
pub struct Setup {
    sequence: Sequence,
    pos: u32,
    pending: Option<u32>,
}

impl View for Setup {
    type V = SetupModel;

    closed spec fn view(&self) -> SetupModel {
        SetupModel { sequence: self.sequence, pos: self.pos as nat, pending: self.pending }
    }
}

impl Setup {
    /// The divisors fit, and the sequence has not gone past its end.
    pub open spec fn wf(&self) -> bool {
        &&& self@.sequence.wf()
        &&& self@.pos <= self@.sequence.ops().len()
    }

    /// Prepare a sequence.
    pub fn new(sequence: Sequence) -> (s: Setup)
        requires
            sequence.wf(),
        ensures
            s.wf(),
            s@ == SetupModel::start(sequence),
    {
        Setup { sequence, pos: 0, pending: None }
    }

    /// The register access to make next.
    pub fn action(&self) -> (action: Action)
        requires
            self.wf(),
        ensures
            action == self@.action(),
    {
        match self.sequence.op(self.pos) {
            None => Action::Finished,
            Some(RegOp::Put { reg, value }) => Action::Write(reg, value),
            Some(RegOp::Update { reg, mask, bits }) => match self.pending {
                None => Action::Read(reg),
                Some(value) => Action::Write(reg, (value & !mask) | bits),
            },
            Some(RegOp::AwaitClear { reg, .. }) => Action::Read(reg),
            Some(RegOp::AwaitSet { reg, .. }) => Action::Read(reg),
        }
    }

    /// Tell the sequence that its access was made; `value` is what a read gave
    /// and is ignored after a write.
    pub fn advance(&mut self, value: u32)
        requires
            old(self).wf(),
        ensures
            final(self).wf(),
            final(self)@ == old(self)@.advance(value),
    {
        match self.sequence.op(self.pos) {
            None => {},
            Some(RegOp::Put { .. }) => {
                self.pos = self.pos + 1;
                self.pending = None;
            },
            Some(RegOp::Update { .. }) => {
                if self.pending.is_none() {
                    self.pending = Some(value);
                } else {
                    self.pos = self.pos + 1;
                    self.pending = None;
                }
            },
            Some(RegOp::AwaitClear { mask, .. }) => {
                if value & mask == 0 {
                    self.pos = self.pos + 1;
                    self.pending = None;
                }
            },
            Some(RegOp::AwaitSet { mask, .. }) => {
                if value & mask != 0 {
                    self.pos = self.pos + 1;
                    self.pending = None;
                }
            },
        }
    }
}

impl RegOp {
    /// The accesses by which the step is taken.
    pub open spec fn takes(self, log: Seq<Access>) -> bool {
        match self {
            RegOp::Put { reg, value } => log == seq![Access::Write(reg, value)],
            RegOp::Update { reg, mask, bits } => {
                &&& log.len() == 2
                &&& log[0] matches Access::Read(r, v) && r == reg && log[1] == Access::Write(
                    reg,
                    crate::reg::updated(v, mask, bits),
                )
            },
            RegOp::AwaitClear { reg, mask } => {
                &&& self.waits(log.drop_last())
                &&& log.len() > 0
                &&& log.last() matches Access::Read(r, v) && r == reg && v & mask == 0
            },
            RegOp::AwaitSet { reg, mask } => {
                &&& self.waits(log.drop_last())
                &&& log.len() > 0
                &&& log.last() matches Access::Read(r, v) && r == reg && v & mask != 0
            },
        }
    }

    /// The readings during which a poll does not come through.
    pub open spec fn waits(self, log: Seq<Access>) -> bool {
        match self {
            RegOp::AwaitClear { reg, mask } => forall|i: int|
                0 <= i < log.len() ==> (#[trigger] log[i] matches Access::Read(r, v) && r == reg
                    && v & mask != 0),
            RegOp::AwaitSet { reg, mask } => forall|i: int|
                0 <= i < log.len() ==> (#[trigger] log[i] matches Access::Read(r, v) && r == reg
                    && v & mask == 0),
            _ => log.len() == 0,
        }
    }
}

/// Whether `log` takes the steps `ops` one after the other.
pub open spec fn takes_all(ops: Seq<RegOp>, log: Seq<Access>) -> bool
    decreases ops.len(),
{
    if ops.len() == 0 {
        log.len() == 0
    } else {
        exists|k: int|
            {
                &&& 0 <= k <= log.len()
                &&& takes_all(ops.drop_last(), log.take(k))
                &&& #[trigger] ops.last().takes(log.skip(k))
            }
    }
}

/// What `log` must have been for a sequence to stand where `m` does: the steps
/// before `m.pos` were taken, then step `m.pos` was begun with `log.skip(k)`.
spec fn begun(m: SetupModel, log: Seq<Access>, k: int) -> bool {
    let ops = m.sequence.ops();
    &&& 0 <= k <= log.len()
    &&& m.pos <= ops.len()
    &&& takes_all(ops.take(m.pos as int), log.take(k))
    &&& if m.finished() {
        k == log.len()
    } else {
        match m.pending {
            Some(v) => ops[m.pos as int] matches RegOp::Update { reg, .. } && log.skip(k)
                == seq![Access::Read(reg, v)],
            None => ops[m.pos as int].waits(log.skip(k)),
        }
    }
}

proof fn lemma_step(m: SetupModel, log: Seq<Access>, value: u32, k: int) -> (k2: int)
    requires
        begun(m, log, k),
        !m.finished(),
    ensures
        begun(m.advance(value), log.push(m.action().performed(value)), k2),
{
    let ops = m.sequence.ops();
    let op = ops[m.pos as int];
    let access = m.action().performed(value);
    let after = log.push(access);
    let next = m.advance(value);
    assert(after.take(k) =~= log.take(k));
    assert(after.skip(k) =~= log.skip(k).push(access));
    if next.pos == m.pos {
        assert(op is Update ==> after.skip(k) =~= seq![access]);
        k
    } else {
        let done = ops.take((m.pos + 1) as int);
        assert(done.drop_last() =~= ops.take(m.pos as int));
        assert(done.last() == op);
        assert(after.take(after.len() as int) =~= after);
        let part = after.skip(k);
        assert(part.last() == access);
        assert(part.drop_last() =~= log.skip(k));
        assert(op.takes(part)) by {
            match op {
                RegOp::Put { reg, value: v } => {
                    assert(part =~= seq![access]);
                },
                _ => {},
            }
        }
        assert(takes_all(done, after)) by {
            assert(takes_all(done.drop_last(), after.take(k)));
            assert(done.last().takes(after.skip(k)));
        }
        assert(after.skip(after.len() as int) =~= Seq::<Access>::empty());
        after.len() as int
    }
}

proof fn lemma_begun(sequence: Sequence, values: Seq<u32>) -> (k: int)
    ensures
        begun(
            SetupModel::start(sequence).run(values),
            SetupModel::start(sequence).accesses(values),
            k,
        ),
        SetupModel::start(sequence).run(values).sequence == sequence,
    decreases values.len(),
{
    let start = SetupModel::start(sequence);
    if values.len() == 0 {
        assert(sequence.ops().take(0) =~= Seq::<RegOp>::empty());
        let none = Seq::<Access>::empty();
        assert(none.take(0) =~= none);
        assert(none.skip(0) =~= none);
        0
    } else {
        let k = lemma_begun(sequence, values.drop_last());
        let m = start.run(values.drop_last());
        let log = start.accesses(values.drop_last());
        if m.finished() {
            k
        } else {
            lemma_step(m, log, values.last(), k)
        }
    }
}

/// Whatever the peripheral answers, a sequence that has ended took its steps one
/// after the other and did nothing else.
pub proof fn law_finished_sequence(sequence: Sequence, values: Seq<u32>)
    requires
        SetupModel::start(sequence).run(values).finished(),
    ensures
        takes_all(sequence.ops(), SetupModel::start(sequence).accesses(values)),
{
    let start = SetupModel::start(sequence);
    let k = lemma_begun(sequence, values);
    let log = start.accesses(values);
    assert(sequence.ops().take(start.run(values).pos as int) =~= sequence.ops());
    assert(log.take(k) =~= log);
}

/// The accesses of a sequence part by part: `log` takes `ops` followed by `op`.
proof fn lemma_last_op(ops: Seq<RegOp>, op: RegOp, log: Seq<Access>) -> (k: int)
    requires
        takes_all(ops.push(op), log),
    ensures
        0 <= k <= log.len(),
        takes_all(ops, log.take(k)),
        op.takes(log.skip(k)),
{
    assert(ops.push(op).drop_last() =~= ops);
    assert(ops.push(op).last() == op);
    choose|k: int|
        {
            &&& 0 <= k <= log.len()
            &&& takes_all(ops, log.take(k))
            &&& #[trigger] op.takes(log.skip(k))
        }
}

/// `log` from `i` on reads `reg` and writes back what it read, with the bits of `mask`
/// replaced by `bits`.
pub open spec fn updates_at(log: Seq<Access>, i: int, reg: Reg, mask: u32, bits: u32) -> bool {
    &&& 0 <= i && i + 1 < log.len()
    &&& log[i] matches Access::Read(r, v) && r == reg && (log[i + 1] matches Access::Write(r2, w)
        && r2 == reg && w & mask == bits && w & !mask == v & !mask)
}

/// `log` from `i` up to `j` only reads `reg`, and `mask` is first clear (or, where
/// `set`, has first a bit set) at the last reading.
pub open spec fn polls_between(
    log: Seq<Access>,
    i: int,
    j: int,
    reg: Reg,
    mask: u32,
    set: bool,
) -> bool {
    &&& 0 <= i < j <= log.len()
    &&& forall|k: int|
        i <= k < j ==> (#[trigger] log[k] matches Access::Read(r, v) && r == reg && ((v & mask != 0)
            == (set == (k == j - 1))))
}

proof fn lemma_update_at(log: Seq<Access>, k: int, reg: Reg, mask: u32, bits: u32)
    requires
        0 <= k <= log.len(),
        (RegOp::Update { reg, mask, bits }).takes(log.skip(k)),
        bits & !mask == 0,
    ensures
        updates_at(log, k, reg, mask, bits),
        k + 2 == log.len(),
{
    let part = log.skip(k);
    assert(log[k] == part[0] && log[k + 1] == part[1]);
    let v = part[0]->Read_1;
    let w = (v & !mask) | bits;
    assert(w & mask == bits && w & !mask == v & !mask) by (bit_vector)
        requires
            w == (v & !mask) | bits,
            bits & !mask == 0,
    ;
}

proof fn lemma_polls_between(log: Seq<Access>, k: int, reg: Reg, mask: u32, set: bool)
    requires
        0 <= k <= log.len(),
        set ==> (RegOp::AwaitSet { reg, mask }).takes(log.skip(k)),
        !set ==> (RegOp::AwaitClear { reg, mask }).takes(log.skip(k)),
    ensures
        polls_between(log, k, log.len() as int, reg, mask, set),
{
    let part = log.skip(k);
    assert(part.last() == log[log.len() - 1]);
    assert forall|i: int| k <= i < log.len() implies (#[trigger] log[i] matches Access::Read(r, v)
        && r == reg && ((v & mask != 0) == (set == (i == log.len() - 1)))) by {
        assert(log[i] == part[i - k]);
        if i < log.len() - 1 {
            assert(part.drop_last()[i - k] == log[i]);
        }
    }
}

/// What is put into a field lies in it.
proof fn lemma_fields()
    ensures
        0x0800_0000u32 & !0x0800_0000u32 == 0,
        0u32 & !0x6u32 == 0,
        0x2u32 & !0x6u32 == 0,
        0x100u32 & !0x100u32 == 0,
        0x000E_0000u32 & !0x000F_0000u32 == 0,
        0x0100_0000u32 & !0x0100_0000u32 == 0,
{
    assert(0x0800_0000u32 & !0x0800_0000u32 == 0 && 0u32 & !0x6u32 == 0 && 0x2u32 & !0x6u32 == 0
        && 0x100u32 & !0x100u32 == 0 && 0x000E_0000u32 & !0x000F_0000u32 == 0 && 0x0100_0000u32
        & !0x0100_0000u32 == 0) by (bit_vector);
}

proof fn lemma_clock_bits(sdclkfs: u32, dvs: u32)
    requires
        sdclkfs <= 255,
        dvs <= 15,
    ensures
        ({
            let bits = (sdclkfs * 0x100 + dvs * 0x10) as u32;
            &&& (bits >> 8) & 0xFF == sdclkfs
            &&& (bits >> 4) & 0xF == dvs
            &&& bits & !(0xFF00u32 | 0xF0u32) == 0
            &&& bits & 0xFFFF_000F == 0
        }),
        0xFF00u32 | 0xF0u32 == 0xFFF0,
        0u32 & !0x100u32 == 0,
        0x100u32 & !0x100u32 == 0,
{
    let bits = (sdclkfs * 0x100 + dvs * 0x10) as u32;
    assert(0u32 & !0x100u32 == 0 && 0x100u32 & !0x100u32 == 0 && bits & !(0xFF00u32 | 0xF0u32) == 0
        && (bits >> 8) & 0xFF == sdclkfs && (bits >> 4) & 0xF == dvs && bits & 0xFFFF_000F == 0
        && 0xFF00u32 | 0xF0u32 == 0xFFF0) by (bit_vector)
        requires
            bits == sdclkfs * 0x100 + dvs * 0x10,
            sdclkfs <= 255,
            dvs <= 15,
    ;
}

/// The step of a clock change that sets the divisors: all of SDCLKFS goes to bits 15..8 of
/// SYS_CTRL and all of DVS to bits 7..4, and the step is confined to those.
pub proof fn law_divisor_step(sdclkfs: u32, dvs: u32, op: Option<RegOp>)
    requires
        sdclkfs <= 255,
        dvs <= 15,
        call_ensures(Sequence::op, (&Sequence::Clock { sdclkfs, dvs }, 1u32), op),
    ensures
        op matches Some(RegOp::Update { reg: Reg::SysCtrl, mask, bits }) && mask == 0xFFF0 && (bits
            >> 8) & 0xFF == sdclkfs && (bits >> 4) & 0xF == dvs && bits & 0xFFFF_000F == 0,
{
    lemma_clock_bits(sdclkfs, dvs);
}

/// A finished clock change, bit by bit: the card clock is gated (VEND_SPEC bit 8 clear),
/// then SYS_CTRL gets SDCLKFS in bits 15..8 and DVS in bits 7..4 and keeps its other
/// bits, then PRES_STATE is read until bit 3 shows a stable clock, then the card clock
/// is forced on again.
pub proof fn law_clock_change(sdclkfs: u32, dvs: u32, values: Seq<u32>)
    requires
        sdclkfs <= 255,
        dvs <= 15,
        SetupModel::start(Sequence::Clock { sdclkfs, dvs }).run(values).finished(),
    ensures
        ({
            let log = SetupModel::start(Sequence::Clock { sdclkfs, dvs }).accesses(values);
            let n = log.len() as int;
            &&& n >= 7
            &&& updates_at(log, 0, Reg::VendSpec, 0x100, 0)
            &&& log[2] matches Access::Read(Reg::SysCtrl, v) && (log[3] matches Access::Write(
                Reg::SysCtrl,
                w,
            ) && (w >> 8) & 0xFF == sdclkfs && (w >> 4) & 0xF == dvs && w & 0xFFFF_000F == v
                & 0xFFFF_000F)
            &&& polls_between(log, 4, n - 2, Reg::PresState, 0x8, true)
            &&& updates_at(log, n - 2, Reg::VendSpec, 0x100, 0x100)
        }),
{
    let sequence = Sequence::Clock { sdclkfs, dvs };
    law_finished_sequence(sequence, values);
    let log = SetupModel::start(sequence).accesses(values);
    let ops = sequence.ops();
    let ops3 = ops.take(3);
    let ops2 = ops.take(2);
    let ops1 = ops.take(1);
    let ops0 = Seq::<RegOp>::empty();
    assert(ops =~= ops3.push(ops[3]) && ops3 =~= ops2.push(ops[2]) && ops2 =~= ops1.push(ops[1])
        && ops1 =~= ops0.push(ops[0]));
    let k3 = lemma_last_op(ops3, ops[3], log);
    let log3 = log.take(k3);
    let k2 = lemma_last_op(ops2, ops[2], log3);
    let log2 = log3.take(k2);
    let k1 = lemma_last_op(ops1, ops[1], log2);
    let log1 = log2.take(k1);
    let k0 = lemma_last_op(ops0, ops[0], log1);
    let bits = (sdclkfs * 0x100 + dvs * 0x10) as u32;
    lemma_clock_bits(sdclkfs, dvs);
    lemma_update_at(log, k3, Reg::VendSpec, 0x100, 0x100);
    lemma_polls_between(log3, k2, Reg::PresState, 0x8, true);
    lemma_update_at(log2, k1, Reg::SysCtrl, 0xFF00u32 | 0xF0u32, bits);
    lemma_update_at(log1, k0, Reg::VendSpec, 0x100, 0);
    assert(k0 == 0 && k1 == 2 && k2 == 4);
    assert(log[0] == log1[0] && log[1] == log1[1] && log[2] == log2[2] && log[3] == log2[3]);
    assert(polls_between(log, 4, k3, Reg::PresState, 0x8, true)) by {
        assert forall|i: int| 4 <= i < k3 implies #[trigger] log[i] == log3[i] by {}
    }
    let v = log[2]->Read_1;
    let w = log[3]->Write_1;
    assert((w >> 8) & 0xFF == (bits >> 8) & 0xFF && (w >> 4) & 0xF == (bits >> 4) & 0xF && w
        & 0xFFFF_000F == v & 0xFFFF_000F) by (bit_vector)
        requires
            w & (0xFF00u32 | 0xF0u32) == bits,
            w & !(0xFF00u32 | 0xF0u32) == v & !(0xFF00u32 | 0xF0u32),
    ;
}

/// Finished initialization clocks: INITA (SYS_CTRL bit 27) is set, the other bits are
/// kept, and SYS_CTRL is read until the bit is clear.
pub proof fn law_initial_clocks(values: Seq<u32>)
    requires
        SetupModel::start(Sequence::InitialClocks).run(values).finished(),
    ensures
        ({
            let log = SetupModel::start(Sequence::InitialClocks).accesses(values);
            &&& updates_at(log, 0, Reg::SysCtrl, 0x0800_0000, 0x0800_0000)
            &&& polls_between(log, 2, log.len() as int, Reg::SysCtrl, 0x0800_0000, false)
        }),
{
    law_finished_sequence(Sequence::InitialClocks, values);
    let log = SetupModel::start(Sequence::InitialClocks).accesses(values);
    let ops = Sequence::InitialClocks.ops();
    let ops0 = Seq::<RegOp>::empty();
    let ops1 = ops.take(1);
    assert(ops =~= ops1.push(ops[1]) && ops1 =~= ops0.push(ops[0]));
    let k1 = lemma_last_op(ops1, ops[1], log);
    let log1 = log.take(k1);
    let k0 = lemma_last_op(ops0, ops[0], log1);
    lemma_polls_between(log, k1, Reg::SysCtrl, 0x0800_0000, false);
    lemma_fields();
    lemma_update_at(log1, k0, Reg::SysCtrl, 0x0800_0000, 0x0800_0000);
    assert(log[0] == log1[0] && log[1] == log1[1]);
}

/// A finished change of the bus width: PROT_CTRL bits 2..1 become 00 for one data line
/// and 01 for four, and the other bits are kept.
pub proof fn law_bus_width(width: BusWidth, values: Seq<u32>)
    requires
        SetupModel::start(Sequence::Width(width)).run(values).finished(),
    ensures
        ({
            let log = SetupModel::start(Sequence::Width(width)).accesses(values);
            &&& log.len() == 2
            &&& width == BusWidth::One ==> updates_at(log, 0, Reg::ProtCtrl, 0x6, 0)
            &&& width == BusWidth::Four ==> updates_at(log, 0, Reg::ProtCtrl, 0x6, 0x2)
        }),
{
    let sequence = Sequence::Width(width);
    law_finished_sequence(sequence, values);
    let log = SetupModel::start(sequence).accesses(values);
    let ops = sequence.ops();
    let ops0 = Seq::<RegOp>::empty();
    assert(ops =~= ops0.push(ops[0]));
    let k0 = lemma_last_op(ops0, ops[0], log);
    lemma_fields();
    if width == BusWidth::One {
        lemma_update_at(log, k0, Reg::ProtCtrl, 0x6, 0);
    } else {
        lemma_update_at(log, k0, Reg::ProtCtrl, 0x6, 0x2);
    }
}

/// A finished reset: RSTA (SYS_CTRL bit 24) is set and read until it is clear; then the
/// data timeout becomes 14 (SYS_CTRL bits 19..16), PROT_CTRL one data line and
/// little-endian, both watermarks 128 words, the polled flags are enabled and no
/// interrupts are; then the card clock is forced on (VEND_SPEC bit 8). Bits that are
/// not named are kept where a register is updated.
pub proof fn law_reset(values: Seq<u32>)
    requires
        SetupModel::start(Sequence::Reset).run(values).finished(),
    ensures
        ({
            let log = SetupModel::start(Sequence::Reset).accesses(values);
            let n = log.len() as int;
            &&& n >= 11
            &&& updates_at(log, 0, Reg::SysCtrl, 0x0100_0000, 0x0100_0000)
            &&& polls_between(log, 2, n - 8, Reg::SysCtrl, 0x0100_0000, false)
            &&& updates_at(log, n - 8, Reg::SysCtrl, 0x000F_0000, 0x000E_0000)
            &&& log[n - 6] == Access::Write(Reg::ProtCtrl, 0x20)
            &&& log[n - 5] == Access::Write(Reg::WtmkLvl, 0x0080_0080)
            &&& log[n - 4] == Access::Write(Reg::IntStatusEn, 0x007F_0033)
            &&& log[n - 3] == Access::Write(Reg::IntSignalEn, 0)
            &&& updates_at(log, n - 2, Reg::VendSpec, 0x100, 0x100)
        }),
{
    law_finished_sequence(Sequence::Reset, values);
    let log = SetupModel::start(Sequence::Reset).accesses(values);
    let n = log.len() as int;
    let ops = Sequence::Reset.ops();
    let ops0 = Seq::<RegOp>::empty();
    assert(ops =~= ops.take(7).push(ops[7]) && ops.take(7) =~= ops.take(6).push(ops[6])
        && ops.take(6) =~= ops.take(5).push(ops[5]) && ops.take(5) =~= ops.take(4).push(ops[4])
        && ops.take(4) =~= ops.take(3).push(ops[3]) && ops.take(3) =~= ops.take(2).push(ops[2])
        && ops.take(2) =~= ops.take(1).push(ops[1]) && ops.take(1) =~= ops0.push(ops[0]));
    let k7 = lemma_last_op(ops.take(7), ops[7], log);
    let log7 = log.take(k7);
    let k6 = lemma_last_op(ops.take(6), ops[6], log7);
    let log6 = log7.take(k6);
    let k5 = lemma_last_op(ops.take(5), ops[5], log6);
    let log5 = log6.take(k5);
    let k4 = lemma_last_op(ops.take(4), ops[4], log5);
    let log4 = log5.take(k4);
    let k3 = lemma_last_op(ops.take(3), ops[3], log4);
    let log3 = log4.take(k3);
    let k2 = lemma_last_op(ops.take(2), ops[2], log3);
    let log2 = log3.take(k2);
    let k1 = lemma_last_op(ops.take(1), ops[1], log2);
    let log1 = log2.take(k1);
    let k0 = lemma_last_op(ops0, ops[0], log1);
    lemma_fields();
    lemma_update_at(log, k7, Reg::VendSpec, 0x100, 0x100);
    assert(log7.skip(k6)[0] == log[k6] && log6.skip(k5)[0] == log[k5] && log5.skip(k4)[0] == log[k4]
        && log4.skip(k3)[0] == log[k3]);
    lemma_update_at(log3, k2, Reg::SysCtrl, 0x000F_0000, 0x000E_0000);
    assert(log3[k2] == log[k2] && log3[k2 + 1] == log[k2 + 1]);
    lemma_polls_between(log2, k1, Reg::SysCtrl, 0x0100_0000, false);
    lemma_update_at(log1, k0, Reg::SysCtrl, 0x0100_0000, 0x0100_0000);
    assert(log1[0] == log[0] && log1[1] == log[1]);
    assert(polls_between(log, 2, k2, Reg::SysCtrl, 0x0100_0000, false)) by {
        assert forall|i: int| 2 <= i < k2 implies #[trigger] log[i] == log2[i] by {}
    }
}

/// Set-up goes on as soon as what it waits for shows: a poll is over at the first
/// reading that shows it, and every other step at once.
pub proof fn law_setup_goes_on(m: SetupModel, value: u32)
    requires
        !m.finished(),
    ensures
        match m.sequence.ops()[m.pos as int] {
            RegOp::AwaitClear { mask, .. } => value & mask == 0 ==> m.advance(value).pos == m.pos
                + 1,
            RegOp::AwaitSet { mask, .. } => value & mask != 0 ==> m.advance(value).pos == m.pos
                + 1,
            RegOp::Put { .. } => m.advance(value).pos == m.pos + 1,
            RegOp::Update { .. } => m.pending is None ==> m.advance(value).advance(value).pos
                == m.pos + 1,
        },
{
}

/// Some readings and then others.
proof fn lemma_run_on(m: SetupModel, values: Seq<u32>, later: Seq<u32>)
    ensures
        m.run(values + later) == m.run(values).run(later),
    decreases later.len(),
{
    if later.len() == 0 {
        assert(values + later =~= values);
    } else {
        lemma_run_on(m, values, later.drop_last());
        assert((values + later).drop_last() =~= values + later.drop_last());
    }
}

/// The sequence before step `pos`.
spec fn before_step(sequence: Sequence, pos: nat) -> SetupModel {
    SetupModel { sequence, pos, pending: None }
}

/// An update is taken by two readings, and is half done after one.
proof fn lemma_updated(sequence: Sequence, pos: nat, a: u32, b: u32)
    requires
        pos < sequence.ops().len(),
        sequence.ops()[pos as int] is Update,
    ensures
        before_step(sequence, pos).run(seq![a, b]) == before_step(sequence, pos + 1),
        !before_step(sequence, pos).run(seq![a]).finished(),
{
    let m = before_step(sequence, pos);
    let none = Seq::<u32>::empty();
    assert(seq![a].drop_last() =~= none);
    assert(seq![a, b].drop_last() =~= seq![a]);
    assert(m.run(none) == m);
    assert(m.run(seq![a]) == m.advance(a));
    assert(m.run(seq![a, b]) == m.advance(a).advance(b));
}

/// A write is taken by one reading.
proof fn lemma_put(sequence: Sequence, pos: nat, a: u32)
    requires
        pos < sequence.ops().len(),
        sequence.ops()[pos as int] is Put,
    ensures
        before_step(sequence, pos).run(seq![a]) == before_step(sequence, pos + 1),
{
    let m = before_step(sequence, pos);
    let none = Seq::<u32>::empty();
    assert(seq![a].drop_last() =~= none);
    assert(m.run(none) == m);
}

/// A poll is taken by readings that do not end it and then one that does.
proof fn lemma_polled(
    sequence: Sequence,
    pos: nat,
    mask: u32,
    set: bool,
    values: Seq<u32>,
    last: u32,
)
    requires
        pos < sequence.ops().len(),
        ({
            let op = sequence.ops()[pos as int];
            ||| set && (op matches RegOp::AwaitSet { mask: x, .. } && x == mask)
            ||| !set && (op matches RegOp::AwaitClear { mask: x, .. } && x == mask)
        }),
        forall|i: int| 0 <= i < values.len() ==> (#[trigger] values[i] & mask == 0) == set,
        (last & mask == 0) != set,
    ensures
        before_step(sequence, pos).run(values) == before_step(sequence, pos),
        before_step(sequence, pos).run(values + seq![last]) == before_step(sequence, pos + 1),
    decreases values.len(),
{
    let m = before_step(sequence, pos);
    if values.len() > 0 {
        lemma_polled(sequence, pos, mask, set, values.drop_last(), last);
        assert((values[values.len() - 1] & mask == 0) == set);
    }
    assert((values + seq![last]).drop_last() =~= values);
}

/// A clock change takes seven accesses and one more for each reading of PRES_STATE that
/// does not show a stable clock (bit 3), and ends there.
pub proof fn law_clock_change_ends(
    sdclkfs: u32,
    dvs: u32,
    gated: Seq<u32>,
    divide: Seq<u32>,
    unstable: Seq<u32>,
    stable: u32,
    open: u32,
    opened: u32,
)
    requires
        sdclkfs <= 255,
        dvs <= 15,
        gated.len() == 2,
        divide.len() == 2,
        forall|i: int| 0 <= i < unstable.len() ==> #[trigger] unstable[i] & 0x8 == 0,
        stable & 0x8 != 0,
    ensures
        ({
            let start = SetupModel::start(Sequence::Clock { sdclkfs, dvs });
            let clocked = gated + divide + (unstable + seq![stable]);
            &&& !start.run(clocked + seq![open]).finished()
            &&& start.run(clocked + seq![open, opened]).finished()
        }),
{
    let sequence = Sequence::Clock { sdclkfs, dvs };
    let start = SetupModel::start(sequence);
    let poll = unstable + seq![stable];
    assert(sequence.ops().len() == 4);
    assert(gated =~= seq![gated[0], gated[1]] && divide =~= seq![divide[0], divide[1]]);
    lemma_updated(sequence, 0, gated[0], gated[1]);
    lemma_run_on(start, gated, divide);
    lemma_updated(sequence, 1, divide[0], divide[1]);
    lemma_run_on(start, gated + divide, poll);
    lemma_polled(sequence, 2, 0x8, true, unstable, stable);
    lemma_run_on(start, gated + divide + poll, seq![open]);
    lemma_run_on(start, gated + divide + poll, seq![open, opened]);
    lemma_updated(sequence, 3, open, opened);
}

/// The initialization clocks take three accesses and one more for each reading of
/// SYS_CTRL that still shows them (bit 27), and end there.
pub proof fn law_initial_clocks_end(set: Seq<u32>, busy: Seq<u32>, over: u32)
    requires
        set.len() == 2,
        forall|i: int| 0 <= i < busy.len() ==> #[trigger] busy[i] & 0x0800_0000 != 0,
        over & 0x0800_0000 == 0,
    ensures
        !SetupModel::start(Sequence::InitialClocks).run(set + busy).finished(),
        SetupModel::start(Sequence::InitialClocks).run(set + (busy + seq![over])).finished(),
{
    let sequence = Sequence::InitialClocks;
    let start = SetupModel::start(sequence);
    assert(set =~= seq![set[0], set[1]]);
    lemma_updated(sequence, 0, set[0], set[1]);
    lemma_run_on(start, set, busy);
    lemma_run_on(start, set, busy + seq![over]);
    lemma_polled(sequence, 1, 0x0800_0000, false, busy, over);
}

/// A change of the bus width takes two accesses.
pub proof fn law_bus_width_ends(width: BusWidth, prot: u32, set: u32)
    ensures
        !SetupModel::start(Sequence::Width(width)).run(seq![prot]).finished(),
        SetupModel::start(Sequence::Width(width)).run(seq![prot, set]).finished(),
{
    lemma_updated(Sequence::Width(width), 0, prot, set);
}

/// A reset takes eleven accesses and one more for each reading of SYS_CTRL that still
/// shows it (bit 24), and ends there.
pub proof fn law_reset_ends(
    set: Seq<u32>,
    busy: Seq<u32>,
    over: u32,
    timeout: Seq<u32>,
    a: u32,
    b: u32,
    c: u32,
    d: u32,
    open: u32,
    opened: u32,
)
    requires
        set.len() == 2,
        forall|i: int| 0 <= i < busy.len() ==> #[trigger] busy[i] & 0x0100_0000 != 0,
        over & 0x0100_0000 == 0,
        timeout.len() == 2,
    ensures
        ({
            let start = SetupModel::start(Sequence::Reset);
            let written = set + (busy + seq![over]) + timeout + seq![a] + seq![b] + seq![c]
                + seq![d];
            &&& !start.run(written + seq![open]).finished()
            &&& start.run(written + seq![open, opened]).finished()
        }),
{
    let sequence = Sequence::Reset;
    let start = SetupModel::start(sequence);
    let poll = busy + seq![over];
    assert(sequence.ops().len() == 8);
    assert(set =~= seq![set[0], set[1]] && timeout =~= seq![timeout[0], timeout[1]]);
    lemma_updated(sequence, 0, set[0], set[1]);
    lemma_run_on(start, set, poll);
    lemma_polled(sequence, 1, 0x0100_0000, false, busy, over);
    let ready = set + poll;
    lemma_run_on(start, ready, timeout);
    lemma_updated(sequence, 2, timeout[0], timeout[1]);
    lemma_run_on(start, ready + timeout, seq![a]);
    lemma_put(sequence, 3, a);
    lemma_run_on(start, ready + timeout + seq![a], seq![b]);
    lemma_put(sequence, 4, b);
    let half = ready + timeout + seq![a] + seq![b];
    lemma_run_on(start, half, seq![c]);
    lemma_put(sequence, 5, c);
    lemma_run_on(start, half + seq![c], seq![d]);
    lemma_put(sequence, 6, d);
    let written = half + seq![c] + seq![d];
    lemma_run_on(start, written, seq![open]);
    lemma_run_on(start, written, seq![open, opened]);
    lemma_updated(sequence, 7, open, opened);
}

/// A set-up sequence and its model keep step: a new one has not read anything, its action
/// is the next access, and being told of that access is one more reading.
pub proof fn law_setup_steps(
    sequence: Sequence,
    values: Seq<u32>,
    fresh: Setup,
    setup: &mut Setup,
    action: Action,
    value: u32,
)
    requires
        call_ensures(Setup::new, (sequence,), fresh),
        old(setup)@ == SetupModel::start(sequence).run(values),
        call_ensures(Setup::action, (&*old(setup),), action),
        call_ensures(Setup::advance, (setup, value), ()),
    ensures
        ({
            let start = SetupModel::start(sequence);
            &&& fresh@ == start
            &&& final(setup)@ == start.run(values.push(value))
            &&& old(setup)@.finished() <==> action is Finished
            &&& start.accesses(values.push(value)) == if action is Finished {
                start.accesses(values)
            } else {
                start.accesses(values).push(action.performed(value))
            }
        }),
{
    assert(values.push(value).drop_last() =~= values);
}

} // verus!
