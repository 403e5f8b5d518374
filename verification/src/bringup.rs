//! The exchange between driver and card that brings a card up: what is asked of
//! the host at each step, and where each answer leads.

use vstd::prelude::*;
use crate::cmd::{
    UsdCmdFlags, ACMD41_SD_SEND_OP_COND, ACMD6_SET_BUS_WIDTH, CMD0_GO_IDLE_STATE,
    CMD16_SET_BLOCKLEN, CMD2_ALL_SEND_CID, CMD3_SEND_RELATIVE_ADDR, CMD55_APP_CMD,
    CMD7_SELECT_CARD, CMD8_SEND_IF_COND, CMD9_SEND_CSD, OCR_BUSY, OCR_HCS, USDHC_ACMD41_RETRIES,
};
use crate::error::{CardType, SdError};
use crate::host::{BusWidth, HostCall, HostEvent, HostReply};

verus! {

/// CMD8 argument: 2.7-3.6 V and the check pattern.
pub const IF_COND: u32 = 0x0000_01AA;

/// The bits of the CMD8 response that echo the argument.
pub const IF_COND_ECHO: u32 = 0x0000_01FF;

/// ACMD41 argument: the whole voltage window.
pub const OCR_WINDOW: u32 = 0x00FF_8000;

/// Clock during identification, in Hz.
pub const IDENTIFICATION_HZ: u32 = 400_000;

/// Clock during data transfer, in Hz.
pub const TRANSFER_HZ: u32 = 25_000_000;

/// What is known of a card.
#[derive(Debug, Clone, Copy, PartialEq, Eq, Structural)]
pub struct CardInfo {
    pub card_type: CardType,
    /// Total 512-byte blocks.
    pub block_count: u32,
    /// Relative card address.
    pub rca: u16,
}

/// The argument that addresses the card with relative address `rca`.
pub open spec fn rca_arg(rca: u16) -> u32 {
    (rca as u32) << 16
}

pub(crate) proof fn lemma_rca_arg(rca: u16)
    ensures
        rca_arg(rca) == 0x1_0000 * rca,
{
    assert((rca as u32) << 16 == 0x1_0000 * rca) by (bit_vector);
}

/// The relative card address in a CMD3 response.
pub open spec fn rca_of(rsp0: u32) -> u16 {
    (rsp0 >> 16) as u16
}

/// The ACMD41 argument: high capacity is offered to cards that know CMD8.
pub open spec fn op_cond_arg(v2: bool) -> u32 {
    if v2 {
        OCR_HCS | OCR_WINDOW
    } else {
        0 | OCR_WINDOW
    }
}

/// The card type that a powered-up card's OCR states.
pub open spec fn ocr_card_type(ocr: u32) -> CardType {
    if ocr & OCR_HCS != 0 {
        CardType::Sdhc
    } else {
        CardType::Sdsc
    }
}

/// A step of bringing a card up.
pub enum Step {
    /// Reset the host.
    Reset,
    /// Select the identification clock.
    SlowClock,
    /// Send the initialization clocks.
    Warmup,
    /// CMD0: reset the card.
    Idle,
    /// CMD8: is the card of version 2?
    IfCond,
    /// CMD55 before ACMD41; `tries` ACMD41s have found the card powering up.
    AppCmd { v2: bool, tries: int },
    /// ACMD41: is the card powered up?
    OpCond { v2: bool, tries: int },
    /// CMD2: identification.
    Cid,
    /// CMD3: the card's relative address.
    Address,
    /// CMD9: the card's capacity.
    Csd,
    /// CMD7: select the card.
    Select,
    /// Select the transfer clock: the card is identified and selected.
    FastClock,
    /// CMD55 before ACMD6.
    WidthAppCmd,
    /// ACMD6: the card uses four data lines.
    WidthCmd,
    /// The host uses four data lines.
    Width,
    /// CMD16: blocks of 512 bytes.
    BlockLen,
    /// The card is up.
    Complete,
    /// The card could not be brought up.
    Failed(SdError),
}

/// A card being brought up.
pub struct BringUp {
    pub step: Step,
    pub card: CardInfo,
}

impl BringUp {
    /// What is asked of the host.
    pub open spec fn asks(self) -> Option<HostCall> {
        match self.step {
            Step::Reset => Some(HostCall::Reset),
            Step::SlowClock => Some(HostCall::Clock { target_hz: IDENTIFICATION_HZ }),
            Step::Warmup => Some(HostCall::InitialClocks),
            Step::Idle => Some(
                HostCall::Command {
                    cmd_index: CMD0_GO_IDLE_STATE,
                    arg: 0,
                    flags: UsdCmdFlags::NoResponse,
                },
            ),
            Step::IfCond => Some(
                HostCall::Command {
                    cmd_index: CMD8_SEND_IF_COND,
                    arg: IF_COND,
                    flags: UsdCmdFlags::R7,
                },
            ),
            Step::AppCmd { .. } | Step::WidthAppCmd => Some(
                HostCall::Command {
                    cmd_index: CMD55_APP_CMD,
                    arg: rca_arg(self.card.rca),
                    flags: UsdCmdFlags::R1,
                },
            ),
            Step::OpCond { v2, .. } => Some(
                HostCall::Command {
                    cmd_index: ACMD41_SD_SEND_OP_COND,
                    arg: op_cond_arg(v2),
                    flags: UsdCmdFlags::R3,
                },
            ),
            Step::Cid => Some(
                HostCall::Command {
                    cmd_index: CMD2_ALL_SEND_CID,
                    arg: 0,
                    flags: UsdCmdFlags::R2,
                },
            ),
            Step::Address => Some(
                HostCall::Command {
                    cmd_index: CMD3_SEND_RELATIVE_ADDR,
                    arg: 0,
                    flags: UsdCmdFlags::R6,
                },
            ),
            Step::Csd => Some(
                HostCall::Command {
                    cmd_index: CMD9_SEND_CSD,
                    arg: rca_arg(self.card.rca),
                    flags: UsdCmdFlags::R2,
                },
            ),
            Step::Select => Some(
                HostCall::Command {
                    cmd_index: CMD7_SELECT_CARD,
                    arg: rca_arg(self.card.rca),
                    flags: UsdCmdFlags::R1B,
                },
            ),
            Step::FastClock => Some(HostCall::Clock { target_hz: TRANSFER_HZ }),
            Step::WidthCmd => Some(
                HostCall::Command {
                    cmd_index: ACMD6_SET_BUS_WIDTH,
                    arg: 2,
                    flags: UsdCmdFlags::R1,
                },
            ),
            Step::Width => Some(HostCall::Width { width: BusWidth::Four }),
            Step::BlockLen => Some(
                HostCall::Command {
                    cmd_index: CMD16_SET_BLOCKLEN,
                    arg: 512,
                    flags: UsdCmdFlags::R1,
                },
            ),
            Step::Complete | Step::Failed(_) => None,
        }
    }

    /// The card moved on to `step`.
    pub open spec fn at(self, step: Step) -> BringUp {
        BringUp { step, card: self.card }
    }

    /// Where the host's answer leads.
    pub open spec fn after(self, reply: HostReply) -> BringUp {
        match (self.step, reply) {
            // A card that does not know CMD8 lets it time out.
            (Step::IfCond, HostReply::Failed(SdError::Timeout)) => self.at(
                Step::AppCmd { v2: false, tries: 0 },
            ),
            (_, HostReply::Failed(e)) => self.at(Step::Failed(e)),
            (Step::IfCond, HostReply::Response(r)) => if r.rsp0 & IF_COND_ECHO != IF_COND {
                self.at(Step::Failed(SdError::NoCard))
            } else {
                self.at(Step::AppCmd { v2: true, tries: 0 })
            },
            (Step::OpCond { v2, tries }, HostReply::Response(r)) => if r.rsp0 & OCR_BUSY != 0 {
                BringUp {
                    step: Step::Cid,
                    card: CardInfo { card_type: ocr_card_type(r.rsp0), ..self.card },
                }
            } else if tries + 1 < USDHC_ACMD41_RETRIES {
                self.at(Step::AppCmd { v2, tries: tries + 1 })
            } else {
                self.at(Step::Failed(SdError::NoCard))
            },
            (Step::Address, HostReply::Response(r)) => BringUp {
                step: Step::Csd,
                card: CardInfo { rca: rca_of(r.rsp0), ..self.card },
            },
            (Step::Csd, HostReply::Response(r)) => BringUp {
                step: Step::Select,
                card: CardInfo {
                    block_count: crate::csd::csd_block_count(r.bits()) as u32,
                    ..self.card
                },
            },
            (Step::Reset, _) => self.at(Step::SlowClock),
            (Step::SlowClock, _) => self.at(Step::Warmup),
            (Step::Warmup, _) => self.at(Step::Idle),
            (Step::Idle, _) => self.at(Step::IfCond),
            (Step::AppCmd { v2, tries }, _) => self.at(Step::OpCond { v2, tries }),
            (Step::Cid, _) => self.at(Step::Address),
            (Step::Select, _) => self.at(Step::FastClock),
            (Step::FastClock, _) => self.at(Step::WidthAppCmd),
            (Step::WidthAppCmd, _) => self.at(Step::WidthCmd),
            (Step::WidthCmd, _) => self.at(Step::Width),
            (Step::Width, _) => self.at(Step::BlockLen),
            (Step::BlockLen, _) => self.at(Step::Complete),
            _ => self,
        }
    }

    /// Where the exchange `events` leads, if each call in it is the one asked
    /// for.
    pub open spec fn follow(self, events: Seq<HostEvent>) -> Option<BringUp>
        decreases events.len(),
    {
        if events.len() == 0 {
            Some(self)
        } else {
            match self.follow(events.drop_last()) {
                Some(now) if now.asks() == Some(events.last().call) => Some(
                    now.after(events.last().reply),
                ),
                _ => None,
            }
        }
    }
}

/// The step reached by an operation that moves on to `step` or fails.
pub open spec fn outcome(result: Result<(), SdError>, step: Step) -> Step {
    match result {
        Ok(()) => step,
        Err(e) => Step::Failed(e),
    }
}

/// An exchange that goes on from where another led.
pub(crate) proof fn lemma_follow_more(start: BringUp, events: Seq<HostEvent>, more: Seq<HostEvent>)
    requires
        start.follow(events) is Some,
    ensures
        start.follow(events + more) == start.follow(events).unwrap().follow(more),
    decreases more.len(),
{
    if more.len() == 0 {
        assert(events + more =~= events);
    } else {
        lemma_follow_more(start, events, more.drop_last());
        assert((events + more).drop_last() =~= events + more.drop_last());
    }
}

/// The beginning of an exchange is an exchange.
pub(crate) proof fn lemma_follow_prefix(start: BringUp, events: Seq<HostEvent>, n: int)
    requires
        start.follow(events) is Some,
        0 <= n <= events.len(),
    ensures
        start.follow(events.take(n)) is Some,
    decreases events.len(),
{
    if n < events.len() {
        lemma_follow_prefix(start, events.drop_last(), n);
        assert(events.drop_last().take(n) =~= events.take(n));
    } else {
        assert(events.take(n) =~= events);
    }
}

/// Whether `event` is a failure that bringing a card up does not survive: any but
/// the timeout of CMD8.
pub open spec fn is_fatal(event: HostEvent) -> bool {
    &&& event.reply is Failed
    &&& !(event.reply == HostReply::Failed(SdError::Timeout) && event.call == (HostCall::Command {
        cmd_index: CMD8_SEND_IF_COND,
        arg: IF_COND,
        flags: UsdCmdFlags::R7,
    }))
}

/// The first failure ends bringing a card up, with that very error: nothing is
/// asked of the host after it. Only a timeout of CMD8 is no failure.
pub proof fn law_first_failure_ends(start: BringUp, events: Seq<HostEvent>, i: int)
    requires
        start.follow(events) is Some,
        0 <= i < events.len(),
        is_fatal(events[i]),
    ensures
        i == events.len() - 1,
        HostReply::Failed(start.follow(events).unwrap().step->Failed_0) == events[i].reply,
        start.follow(events).unwrap().step is Failed,
{
    let upto = events.take(i + 1);
    lemma_follow_prefix(start, events, i + 1);
    assert(upto.last() == events[i]);
    assert(upto.drop_last() =~= events.take(i));
    let end = start.follow(upto).unwrap();
    assert(end.step is Failed && HostReply::Failed(end.step->Failed_0) == events[i].reply);
    if i + 1 < events.len() {
        lemma_follow_prefix(start, events, i + 2);
        assert(events.take(i + 2).drop_last() =~= upto);
    } else {
        assert(upto =~= events);
    }
}

/// How many calls can still follow, at most.
pub open spec fn remaining(step: Step) -> int {
    match step {
        Step::Reset => 2014,
        Step::SlowClock => 2013,
        Step::Warmup => 2012,
        Step::Idle => 2011,
        Step::IfCond => 2010,
        Step::AppCmd { tries, .. } => 2009 - 2 * tries,
        Step::OpCond { tries, .. } => 2008 - 2 * tries,
        Step::Cid => 9,
        Step::Address => 8,
        Step::Csd => 7,
        Step::Select => 6,
        Step::FastClock => 5,
        Step::WidthAppCmd => 4,
        Step::WidthCmd => 3,
        Step::Width => 2,
        Step::BlockLen => 1,
        Step::Complete | Step::Failed(_) => 0,
    }
}

/// The tries are numbered below the limit.
pub open spec fn tries_bounded(step: Step) -> bool {
    match step {
        Step::AppCmd { tries, .. } | Step::OpCond { tries, .. } => 0 <= tries
            < USDHC_ACMD41_RETRIES,
        _ => true,
    }
}

/// Bringing a card up asks for at most 2014 calls, whatever the host answers.
pub proof fn law_bring_up_is_bounded(card: CardInfo, events: Seq<HostEvent>)
    requires
        (BringUp { step: Step::Reset, card }).follow(events) is Some,
        forall|i: int| 0 <= i < events.len() ==> (#[trigger] events[i]).answer_fits(),
    ensures
        events.len() <= 2014,
{
    lemma_remaining(card, events);
}

proof fn lemma_remaining(card: CardInfo, events: Seq<HostEvent>)
    requires
        (BringUp { step: Step::Reset, card }).follow(events) is Some,
        forall|i: int| 0 <= i < events.len() ==> (#[trigger] events[i]).answer_fits(),
    ensures
        ({
            let step = (BringUp { step: Step::Reset, card }).follow(events).unwrap().step;
            &&& tries_bounded(step)
            &&& 0 <= remaining(step) <= 2014 - events.len()
        }),
    decreases events.len(),
{
    if events.len() > 0 {
        lemma_remaining(card, events.drop_last());
    }
}

/// How many of the calls are ACMD41.
pub open spec fn op_conds(events: Seq<HostEvent>) -> int
    decreases events.len(),
{
    if events.len() == 0 {
        0
    } else {
        op_conds(events.drop_last()) + match events.last().call {
            HostCall::Command { cmd_index, .. } if cmd_index == ACMD41_SD_SEND_OP_COND => 1int,
            _ => 0,
        }
    }
}

/// ACMD41 is sent 1000 times at most.
pub proof fn law_op_cond_retries(card: CardInfo, events: Seq<HostEvent>)
    requires
        (BringUp { step: Step::Reset, card }).follow(events) is Some,
        forall|i: int| 0 <= i < events.len() ==> (#[trigger] events[i]).answer_fits(),
    ensures
        op_conds(events) <= USDHC_ACMD41_RETRIES,
{
    lemma_op_conds(card, events);
}

proof fn lemma_op_conds(card: CardInfo, events: Seq<HostEvent>)
    requires
        (BringUp { step: Step::Reset, card }).follow(events) is Some,
        forall|i: int| 0 <= i < events.len() ==> (#[trigger] events[i]).answer_fits(),
    ensures
        match (BringUp { step: Step::Reset, card }).follow(events).unwrap().step {
            Step::Reset | Step::SlowClock | Step::Warmup | Step::Idle | Step::IfCond => op_conds(
                events,
            ) == 0,
            Step::AppCmd { tries, .. } | Step::OpCond { tries, .. } => op_conds(events) == tries
                < USDHC_ACMD41_RETRIES,
            _ => op_conds(events) <= USDHC_ACMD41_RETRIES,
        },
    decreases events.len(),
{
    if events.len() > 0 {
        lemma_op_conds(card, events.drop_last());
    }
}

} // verus!
