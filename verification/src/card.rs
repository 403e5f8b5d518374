//! `SdProtocol`: the hardware-independent protocol layer.

use vstd::prelude::*;
use crate::bringup::{
    BringUp, CardInfo, Step, IDENTIFICATION_HZ, IF_COND, IF_COND_ECHO, OCR_WINDOW, TRANSFER_HZ,
};
use crate::cmd::{
    UsdCmdFlags, ACMD41_SD_SEND_OP_COND, ACMD6_SET_BUS_WIDTH, CMD0_GO_IDLE_STATE,
    CMD16_SET_BLOCKLEN, CMD17_READ_SINGLE_BLOCK, CMD24_WRITE_SINGLE_BLOCK, CMD2_ALL_SEND_CID,
    CMD3_SEND_RELATIVE_ADDR, CMD55_APP_CMD, CMD7_SELECT_CARD, CMD8_SEND_IF_COND, CMD9_SEND_CSD,
    OCR_BUSY, OCR_HCS, USDHC_ACMD41_RETRIES,
};
use crate::csd::{block_address, parse_csd};
use crate::error::{CardType, SdError};
use crate::host::{BusWidth, CmdResponse, HostCall, HostEvent, HostReply, SdHost};

verus! {

/// SD protocol layer, generic over the hardware interface: a host and what is
/// known of its card.
pub struct SdProtocol<H> {
    pub host: H,
    pub card_type: CardType,
    pub block_count: u32,
    pub rca: u16,
}

/// The event of a command and its answer.
pub open spec fn command_event(
    cmd_index: u32,
    arg: u32,
    flags: UsdCmdFlags,
    result: Result<CmdResponse, SdError>,
) -> HostEvent {
    HostEvent {
        call: HostCall::Command { cmd_index, arg, flags },
        reply: crate::host::command_reply(result),
    }
}

/// The exchange of an application command: CMD55, and the command itself unless
/// CMD55 failed.
pub open spec fn is_acmd(
    events: Seq<HostEvent>,
    rca: u16,
    cmd_index: u32,
    arg: u32,
    flags: UsdCmdFlags,
    result: Result<CmdResponse, SdError>,
) -> bool {
    let announced = HostCall::Command {
        cmd_index: CMD55_APP_CMD,
        arg: crate::bringup::rca_arg(rca),
        flags: UsdCmdFlags::R1,
    };
    &&& 1 <= events.len() <= 2
    &&& events[0].call == announced
    &&& events[0].reply is Response <==> events.len() == 2
    &&& events.len() == 1 ==> result is Err && events[0].reply == crate::host::command_reply(result)
    &&& events.len() == 2 ==> events[1] == command_event(cmd_index, arg, flags, result)
}

/// Whether `before` has become `after` by bringing the card up from step `from`
/// to step `to`: exactly the calls on the way were made of the host, and what
/// they told of the card is known.
pub open spec fn proceeds<H: SdHost>(
    before: SdProtocol<H>,
    from: Step,
    after: SdProtocol<H>,
    to: Step,
) -> bool {
    let events = crate::host::since(&before.host, &after.host);
    &&& crate::host::answered(&before.host, events, &after.host)
    &&& forall|i: int| 0 <= i < events.len() ==> (#[trigger] events[i]).answer_fits()
    &&& (BringUp { step: from, card: before.card() }).follow(events) == Some(
        BringUp { step: to, card: after.card() },
    )
}

/// Whether nothing but commands was asked of the host.
pub open spec fn only_commands(events: Seq<HostEvent>) -> bool {
    forall|i: int| 0 <= i < events.len() ==> (#[trigger] events[i]).call is Command
}

proof fn lemma_one_call<H: SdHost>(h0: &H, event: HostEvent, h1: &H)
    requires
        h1.log() == h0.log().push(event),
        h0.answers(event, h1),
    ensures
        crate::host::answered(h0, seq![event], h1),
{
    crate::host::lemma_answered_nothing(h0);
    crate::host::lemma_answered_one(h0, Seq::empty(), h0, event, h1);
    assert(Seq::<HostEvent>::empty().push(event) =~= seq![event]);
}

/// One call and its answer take the card from `from` to `to`.
proof fn lemma_proceeds_one<H: SdHost>(
    p0: SdProtocol<H>,
    from: Step,
    event: HostEvent,
    p1: SdProtocol<H>,
    to: Step,
)
    requires
        p1.host.log() == p0.host.log().push(event),
        p0.host.answers(event, &p1.host),
        event.answer_fits(),
        (BringUp { step: from, card: p0.card() }).asks() == Some(event.call),
        (BringUp { step: from, card: p0.card() }).after(event.reply) == (BringUp {
            step: to,
            card: p1.card(),
        }),
    ensures
        proceeds(p0, from, p1, to),
        crate::host::since(&p0.host, &p1.host) == seq![event],
{
    let start = BringUp { step: from, card: p0.card() };
    lemma_one_call(&p0.host, event, &p1.host);
    crate::host::lemma_since(&p0.host, seq![event], &p1.host);
    assert(seq![event].drop_last() =~= Seq::<HostEvent>::empty());
    assert(start.follow(Seq::empty()) == Some(start));
}

/// Two stretches of the way make one.
proof fn lemma_proceeds_on<H: SdHost>(
    p0: SdProtocol<H>,
    a: Step,
    p1: SdProtocol<H>,
    b: Step,
    p2: SdProtocol<H>,
    c: Step,
)
    requires
        proceeds(p0, a, p1, b),
        proceeds(p1, b, p2, c),
    ensures
        proceeds(p0, a, p2, c),
        crate::host::since(&p0.host, &p2.host) == crate::host::since(&p0.host, &p1.host)
            + crate::host::since(&p1.host, &p2.host),
{
    let first = crate::host::since(&p0.host, &p1.host);
    let second = crate::host::since(&p1.host, &p2.host);
    crate::host::lemma_answered_more(&p0.host, first, &p1.host, second, &p2.host);
    crate::host::lemma_since(&p0.host, first + second, &p2.host);
    crate::bringup::lemma_follow_more(
        BringUp { step: a, card: p0.card() },
        first,
        second,
    );
}

/// Bringing the card up from step `from` to step `to` took nothing but commands.
#[verifier::opaque]
spec fn by_commands<H: SdHost>(
    before: SdProtocol<H>,
    from: Step,
    after: SdProtocol<H>,
    to: Step,
) -> bool {
    &&& proceeds(before, from, after, to)
    &&& only_commands(crate::host::since(&before.host, &after.host))
}

/// One command takes the card from `from` to `to`.
proof fn lemma_command<H: SdHost>(
    p0: SdProtocol<H>,
    from: Step,
    event: HostEvent,
    p1: SdProtocol<H>,
    to: Step,
)
    requires
        p1.host.log() == p0.host.log().push(event),
        p0.host.answers(event, &p1.host),
        event.answer_fits(),
        event.call is Command,
        (BringUp { step: from, card: p0.card() }).asks() == Some(event.call),
        (BringUp { step: from, card: p0.card() }).after(event.reply) == (BringUp {
            step: to,
            card: p1.card(),
        }),
    ensures
        by_commands(p0, from, p1, to),
{
    reveal(by_commands);
    lemma_proceeds_one(p0, from, event, p1, to);
}

/// Two stretches of commands make one.
proof fn lemma_commands_on<H: SdHost>(
    p0: SdProtocol<H>,
    a: Step,
    p1: SdProtocol<H>,
    b: Step,
    p2: SdProtocol<H>,
    c: Step,
)
    requires
        by_commands(p0, a, p1, b),
        by_commands(p1, b, p2, c),
    ensures
        by_commands(p0, a, p2, c),
{
    reveal(by_commands);
    lemma_proceeds_on(p0, a, p1, b, p2, c);
}

/// One command, after others.
proof fn lemma_next_command<H: SdHost>(
    p0: SdProtocol<H>,
    a: Step,
    p1: SdProtocol<H>,
    b: Step,
    event: HostEvent,
    p2: SdProtocol<H>,
    c: Step,
)
    requires
        by_commands(p0, a, p1, b),
        p2.host.log() == p1.host.log().push(event),
        p1.host.answers(event, &p2.host),
        event.answer_fits(),
        event.call is Command,
        (BringUp { step: b, card: p1.card() }).asks() == Some(event.call),
        (BringUp { step: b, card: p1.card() }).after(event.reply) == (BringUp {
            step: c,
            card: p2.card(),
        }),
    ensures
        by_commands(p0, a, p2, c),
{
    lemma_command(p1, b, event, p2, c);
    lemma_commands_on(p0, a, p1, b, p2, c);
}

/// An application command, by which the card goes from `from` through `mid` to where
/// the answer leads.
proof fn lemma_acmd<H: SdHost>(
    p0: SdProtocol<H>,
    from: Step,
    mid: Step,
    cmd_index: u32,
    arg: u32,
    flags: UsdCmdFlags,
    result: Result<CmdResponse, SdError>,
    p1: SdProtocol<H>,
    to: Step,
)
    requires
        ({
            let events = crate::host::since(&p0.host, &p1.host);
            &&& crate::host::answered(&p0.host, events, &p1.host)
            &&& is_acmd(events, p0.rca, cmd_index, arg, flags, result)
        }),
        ({
            let announced = HostCall::Command {
                cmd_index: CMD55_APP_CMD,
                arg: crate::bringup::rca_arg(p0.rca),
                flags: UsdCmdFlags::R1,
            };
            let start = BringUp { step: from, card: p0.card() };
            let end = BringUp { step: to, card: p1.card() };
            let failed = match result {
                Ok(_) => start,
                Err(e) => start.at(Step::Failed(e)),
            };
            &&& start.asks() == Some(announced)
            &&& forall|r: CmdResponse| #[trigger]
                start.after(HostReply::Response(r)) == start.at(mid)
            &&& start.at(mid).asks() == Some(HostCall::Command { cmd_index, arg, flags })
            &&& start.at(mid).after(crate::host::command_reply(result)) == end
            &&& result is Err ==> end == failed && start.after(
                crate::host::command_reply(result),
            ) == failed
        }),
    ensures
        by_commands(p0, from, p1, to),
        crate::host::since(&p0.host, &p1.host).len() <= 2,
        result is Ok ==> crate::host::since(&p0.host, &p1.host).len() == 2,
{
    reveal(by_commands);
    let start = BringUp { step: from, card: p0.card() };
    let events = crate::host::since(&p0.host, &p1.host);
    assert(start.follow(Seq::empty()) == Some(start));
    if events.len() == 1 {
        assert(events.drop_last() =~= Seq::<HostEvent>::empty());
    } else {
        assert(events.drop_last() =~= seq![events[0]]);
        assert(seq![events[0]].drop_last() =~= Seq::<HostEvent>::empty());
        let r = events[0].reply->Response_0;
        assert(start.after(HostReply::Response(r)) == start.at(mid));
        assert(start.follow(seq![events[0]]) == Some(start.at(mid)));
    }
}

/// An ACMD41 takes a card that is powering up to where its answer leads.
proof fn lemma_poll<H: SdHost>(
    p0: SdProtocol<H>,
    v2: bool,
    tries: int,
    op_cond: u32,
    result: Result<CmdResponse, SdError>,
    p1: SdProtocol<H>,
    to: Step,
)
    requires
        ({
            let events = crate::host::since(&p0.host, &p1.host);
            &&& crate::host::answered(&p0.host, events, &p1.host)
            &&& is_acmd(
                events,
                p0.rca,
                ACMD41_SD_SEND_OP_COND,
                op_cond,
                UsdCmdFlags::R3,
                result,
            )
        }),
        op_cond == crate::bringup::op_cond_arg(v2),
        (BringUp { step: Step::OpCond { v2, tries }, card: p0.card() }).after(
            crate::host::command_reply(result),
        ) == (BringUp { step: to, card: p1.card() }),
    ensures
        by_commands(p0, Step::AppCmd { v2, tries }, p1, to),
{
    lemma_acmd(
        p0,
        Step::AppCmd { v2, tries },
        Step::OpCond { v2, tries },
        ACMD41_SD_SEND_OP_COND,
        op_cond,
        UsdCmdFlags::R3,
        result,
        p1,
        to,
    );
}

/// Reading the CSD takes one command.
proof fn lemma_csd_read<H: SdHost>(p0: SdProtocol<H>, p1: SdProtocol<H>, to: Step)
    requires
        proceeds(p0, Step::Csd, p1, to),
        crate::host::since(&p0.host, &p1.host).len() == 1,
    ensures
        by_commands(p0, Step::Csd, p1, to),
{
    reveal(by_commands);
    let start = BringUp { step: Step::Csd, card: p0.card() };
    let events = crate::host::since(&p0.host, &p1.host);
    assert(events.drop_last() =~= Seq::<HostEvent>::empty());
    assert(start.follow(Seq::empty()) == Some(start));
}

impl<H: SdHost> SdProtocol<H> {
    /// What is known of the card.
    pub open spec fn card(self) -> CardInfo {
        CardInfo { card_type: self.card_type, block_count: self.block_count, rca: self.rca }
    }

    /// Send a command, delegating to the host.
    pub fn send_cmd(&mut self, cmd_index: u32, arg: u32, flags: UsdCmdFlags) -> (result: Result<
        CmdResponse,
        SdError,
    >)
        ensures
            final(self).card() == old(self).card(),
            crate::host::answered(
                &old(self).host,
                seq![command_event(cmd_index, arg, flags, result)],
                &final(self).host,
            ),
    {
        let result = self.host.send_cmd(cmd_index, arg, flags);
        proof {
            let event = command_event(cmd_index, arg, flags, result);
            lemma_one_call(&old(self).host, event, &self.host);
        }
        result
    }

    /// Send an application command (CMD55 + follow-up).
    pub fn send_acmd(&mut self, cmd_index: u32, arg: u32, flags: UsdCmdFlags) -> (result: Result<
        CmdResponse,
        SdError,
    >)
        ensures
            final(self).card() == old(self).card(),
            crate::host::answered(
                &old(self).host,
                crate::host::since(&old(self).host, &final(self).host),
                &final(self).host,
            ),
            is_acmd(
                crate::host::since(&old(self).host, &final(self).host),
                old(self).rca,
                cmd_index,
                arg,
                flags,
                result,
            ),
    {
        let ghost h0 = self.host;
        let prefix: u32 = (self.rca as u32) << 16;
        let first = self.send_cmd(CMD55_APP_CMD, prefix, UsdCmdFlags::R1);
        let ghost h1 = self.host;
        let ghost e1 = command_event(CMD55_APP_CMD, prefix, UsdCmdFlags::R1, first);
        match first {
            Ok(_) => {},
            Err(e) => {
                proof {
                    crate::host::lemma_since(&h0, seq![e1], &h1);
                }
                return Err(e);
            },
        }
        let result = self.send_cmd(cmd_index, arg, flags);
        proof {
            let e2 = command_event(cmd_index, arg, flags, result);
            crate::host::lemma_answered_more(&h0, seq![e1], &h1, seq![e2], &self.host);
            assert(seq![e1] + seq![e2] =~= seq![e1, e2]);
            crate::host::lemma_since(&h0, seq![e1, e2], &self.host);
        }
        result
    }

    /// Read the CSD register (CMD9) and compute the block count.
    pub fn read_csd(&mut self) -> (result: Result<(), SdError>)
        ensures
            proceeds(
                *old(self),
                Step::Csd,
                *final(self),
                crate::bringup::outcome(result, Step::Select),
            ),
            crate::host::since(&old(self).host, &final(self).host).len() == 1,
    {
        let ghost p0 = *self;
        let arg: u32 = (self.rca as u32) << 16;
        let reply = self.host.send_cmd(CMD9_SEND_CSD, arg, UsdCmdFlags::R2);
        let ghost event = command_event(CMD9_SEND_CSD, arg, UsdCmdFlags::R2, reply);
        match reply {
            Ok(resp) => {
                let (_, block_count) = parse_csd(resp);
                self.block_count = block_count;
                proof {
                    lemma_proceeds_one(p0, Step::Csd, event, *self, Step::Select);
                }
                Ok(())
            },
            Err(e) => {
                proof {
                    lemma_proceeds_one(p0, Step::Csd, event, *self, Step::Failed(e));
                }
                Err(e)
            },
        }
    }

    /// Run the SD card initialization sequence:
    /// CMD0, CMD8, ACMD41, CMD2, CMD3, CMD9, CMD7.
    pub fn card_init(&mut self) -> (result: Result<(), SdError>)
        ensures
            proceeds(
                *old(self),
                Step::Idle,
                *final(self),
                crate::bringup::outcome(result, Step::FastClock),
            ),
            only_commands(crate::host::since(&old(self).host, &final(self).host)),
    {
        let result = self.identify();
        proof {
            reveal(by_commands);
        }
        result
    }

    /// The sequence of `card_init`.
    fn identify(&mut self) -> (result: Result<(), SdError>)
        ensures
            by_commands(
                *old(self),
                Step::Idle,
                *final(self),
                crate::bringup::outcome(result, Step::FastClock),
            ),
    {
        let ghost p0 = *self;
        let reply = self.host.send_cmd(CMD0_GO_IDLE_STATE, 0, UsdCmdFlags::NoResponse);
        let ghost event = command_event(CMD0_GO_IDLE_STATE, 0, UsdCmdFlags::NoResponse, reply);
        match reply {
            Ok(_) => {},
            Err(e) => {
                proof {
                    lemma_command(p0, Step::Idle, event, *self, Step::Failed(e));
                }
                return Err(e);
            },
        }
        proof {
            lemma_command(p0, Step::Idle, event, *self, Step::IfCond);
        }

        let ghost p1 = *self;
        let r7 = self.host.send_cmd(CMD8_SEND_IF_COND, IF_COND, UsdCmdFlags::R7);
        let ghost event = command_event(CMD8_SEND_IF_COND, IF_COND, UsdCmdFlags::R7, r7);
        let is_v2 = match r7 {
            Ok(resp) => {
                if resp.rsp0 & IF_COND_ECHO != IF_COND {
                    proof {
                        let failed = Step::Failed(SdError::NoCard);
                        lemma_next_command(p0, Step::Idle, p1, Step::IfCond, event, *self, failed);
                    }
                    return Err(SdError::NoCard);
                }
                true
            },
            Err(SdError::Timeout) => false,
            Err(e) => {
                proof {
                    let failed = Step::Failed(e);
                    lemma_next_command(p0, Step::Idle, p1, Step::IfCond, event, *self, failed);
                }
                return Err(e);
            },
        };
        proof {
            let polling = Step::AppCmd { v2: is_v2, tries: 0 };
            lemma_next_command(p0, Step::Idle, p1, Step::IfCond, event, *self, polling);
        }

        let op_cond: u32 = if is_v2 {
            OCR_HCS | OCR_WINDOW
        } else {
            0 | OCR_WINDOW
        };
        let mut ocr: u32 = 0;
        let mut tries: u32 = 0;
        let mut powered_up = false;
        while tries < USDHC_ACMD41_RETRIES && !powered_up
            invariant
                tries <= USDHC_ACMD41_RETRIES,
                op_cond == crate::bringup::op_cond_arg(is_v2),
                p0 == *old(self),
                !powered_up ==> by_commands(
                    p0,
                    Step::Idle,
                    *self,
                    if tries < USDHC_ACMD41_RETRIES {
                        Step::AppCmd { v2: is_v2, tries: tries as int }
                    } else {
                        Step::Failed(SdError::NoCard)
                    },
                ),
                powered_up ==> ocr & OCR_BUSY != 0,
                powered_up ==> by_commands(
                    p0,
                    Step::Idle,
                    (SdProtocol { card_type: crate::bringup::ocr_card_type(ocr), ..*self }),
                    Step::Cid,
                ),
            decreases USDHC_ACMD41_RETRIES - tries,
        {
            let ghost p2 = *self;
            let ghost polling = Step::AppCmd { v2: is_v2, tries: tries as int };
            let result = self.send_acmd(ACMD41_SD_SEND_OP_COND, op_cond, UsdCmdFlags::R3);
            tries = tries + 1;
            match result {
                Ok(resp) => {
                    if resp.rsp0 & OCR_BUSY != 0 {
                        ocr = resp.rsp0;
                        powered_up = true;
                        proof {
                            let after = SdProtocol {
                                card_type: crate::bringup::ocr_card_type(ocr),
                                ..*self
                            };
                            lemma_poll(p2, is_v2, tries - 1, op_cond, result, after, Step::Cid);
                            lemma_commands_on(p0, Step::Idle, p2, polling, after, Step::Cid);
                        }
                    } else {
                        proof {
                            let next = if tries < USDHC_ACMD41_RETRIES {
                                Step::AppCmd { v2: is_v2, tries: tries as int }
                            } else {
                                Step::Failed(SdError::NoCard)
                            };
                            lemma_poll(p2, is_v2, tries - 1, op_cond, result, *self, next);
                            lemma_commands_on(p0, Step::Idle, p2, polling, *self, next);
                        }
                    }
                },
                Err(e) => {
                    proof {
                        let failed = Step::Failed(e);
                        lemma_poll(p2, is_v2, tries - 1, op_cond, result, *self, failed);
                        lemma_commands_on(p0, Step::Idle, p2, polling, *self, failed);
                    }
                    return Err(e);
                },
            }
        }
        if !powered_up {
            return Err(SdError::NoCard);
        }
        self.card_type = if ocr & OCR_HCS != 0 {
            CardType::Sdhc
        } else {
            CardType::Sdsc
        };

        let ghost p2 = *self;
        let reply = self.host.send_cmd(CMD2_ALL_SEND_CID, 0, UsdCmdFlags::R2);
        let ghost event = command_event(CMD2_ALL_SEND_CID, 0, UsdCmdFlags::R2, reply);
        match reply {
            Ok(_) => {},
            Err(e) => {
                proof {
                    let failed = Step::Failed(e);
                    lemma_next_command(p0, Step::Idle, p2, Step::Cid, event, *self, failed);
                }
                return Err(e);
            },
        }
        proof {
            lemma_next_command(p0, Step::Idle, p2, Step::Cid, event, *self, Step::Address);
        }

        let ghost p3 = *self;
        let reply = self.host.send_cmd(CMD3_SEND_RELATIVE_ADDR, 0, UsdCmdFlags::R6);
        let ghost event = command_event(CMD3_SEND_RELATIVE_ADDR, 0, UsdCmdFlags::R6, reply);
        match reply {
            Ok(r6) => {
                self.rca = (r6.rsp0 >> 16) as u16;
            },
            Err(e) => {
                proof {
                    let failed = Step::Failed(e);
                    lemma_next_command(p0, Step::Idle, p3, Step::Address, event, *self, failed);
                }
                return Err(e);
            },
        }
        proof {
            lemma_next_command(p0, Step::Idle, p3, Step::Address, event, *self, Step::Csd);
        }

        let ghost p4 = *self;
        let capacity = self.read_csd();
        proof {
            let to = crate::bringup::outcome(capacity, Step::Select);
            lemma_csd_read(p4, *self, to);
            lemma_commands_on(p0, Step::Idle, p4, Step::Csd, *self, to);
        }
        match capacity {
            Ok(()) => {},
            Err(e) => return Err(e),
        }

        let ghost p5 = *self;
        let arg: u32 = (self.rca as u32) << 16;
        let reply = self.host.send_cmd(CMD7_SELECT_CARD, arg, UsdCmdFlags::R1B);
        let ghost event = command_event(CMD7_SELECT_CARD, arg, UsdCmdFlags::R1B, reply);
        match reply {
            Ok(_) => {
                proof {
                    let up = Step::FastClock;
                    lemma_next_command(p0, Step::Idle, p5, Step::Select, event, *self, up);
                }
                Ok(())
            },
            Err(e) => {
                proof {
                    let failed = Step::Failed(e);
                    lemma_next_command(p0, Step::Idle, p5, Step::Select, event, *self, failed);
                }
                Err(e)
            },
        }
    }

    /// Switch to 4-bit bus width via ACMD6.
    pub fn set_bus_width_4bit(&mut self) -> (result: Result<(), SdError>)
        ensures
            proceeds(
                *old(self),
                Step::WidthAppCmd,
                *final(self),
                crate::bringup::outcome(result, Step::BlockLen),
            ),
            crate::host::since(&old(self).host, &final(self).host).len() <= 3,
            crate::host::since(&old(self).host, &final(self).host).len() == 3 <==> result is Ok,
    {
        let ghost p0 = *self;
        let result = self.send_acmd(ACMD6_SET_BUS_WIDTH, 2, UsdCmdFlags::R1);
        let ghost to = match result {
            Ok(_) => Step::Width,
            Err(e) => Step::Failed(e),
        };
        proof {
            reveal(by_commands);
            lemma_acmd(
                p0,
                Step::WidthAppCmd,
                Step::WidthCmd,
                ACMD6_SET_BUS_WIDTH,
                2,
                UsdCmdFlags::R1,
                result,
                *self,
                to,
            );
        }
        match result {
            Ok(_) => {},
            Err(e) => return Err(e),
        }
        let ghost p1 = *self;
        self.host.set_bus_width(BusWidth::Four);
        proof {
            let event = HostEvent {
                call: HostCall::Width { width: BusWidth::Four },
                reply: HostReply::Done,
            };
            lemma_proceeds_one(p1, Step::Width, event, *self, Step::BlockLen);
            lemma_proceeds_on(p0, Step::WidthAppCmd, p1, Step::Width, *self, Step::BlockLen);
        }
        Ok(())
    }

    /// Run the full SD initialization sequence: reset the host, identify the card
    /// at 400 kHz, then switch to 25 MHz, four data lines and 512-byte blocks.
    pub fn bring_up(&mut self) -> (result: Result<(), SdError>)
        ensures
            proceeds(
                *old(self),
                Step::Reset,
                *final(self),
                crate::bringup::outcome(result, Step::Complete),
            ),
    {
        let ghost p0 = *self;
        self.host.reset_and_configure();
        let ghost p1 = *self;
        self.host.set_clock(IDENTIFICATION_HZ);
        let ghost p2 = *self;
        self.host.send_initial_clocks();
        let ghost p3 = *self;
        proof {
            let reset = HostEvent { call: HostCall::Reset, reply: HostReply::Done };
            let slow = HostEvent {
                call: HostCall::Clock { target_hz: IDENTIFICATION_HZ },
                reply: HostReply::Done,
            };
            let warm = HostEvent { call: HostCall::InitialClocks, reply: HostReply::Done };
            lemma_proceeds_one(p0, Step::Reset, reset, p1, Step::SlowClock);
            lemma_proceeds_one(p1, Step::SlowClock, slow, p2, Step::Warmup);
            lemma_proceeds_one(p2, Step::Warmup, warm, p3, Step::Idle);
            lemma_proceeds_on(p0, Step::Reset, p1, Step::SlowClock, p2, Step::Warmup);
            lemma_proceeds_on(p0, Step::Reset, p2, Step::Warmup, p3, Step::Idle);
        }
        let identified = self.card_init();
        proof {
            let to = crate::bringup::outcome(identified, Step::FastClock);
            lemma_proceeds_on(p0, Step::Reset, p3, Step::Idle, *self, to);
        }
        match identified {
            Ok(()) => {},
            Err(e) => return Err(e),
        }
        let ghost p4 = *self;
        self.host.set_clock(TRANSFER_HZ);
        let ghost p5 = *self;
        proof {
            let fast = HostEvent {
                call: HostCall::Clock { target_hz: TRANSFER_HZ },
                reply: HostReply::Done,
            };
            lemma_proceeds_one(p4, Step::FastClock, fast, p5, Step::WidthAppCmd);
            lemma_proceeds_on(p0, Step::Reset, p4, Step::FastClock, p5, Step::WidthAppCmd);
        }
        let widened = self.set_bus_width_4bit();
        proof {
            let to = crate::bringup::outcome(widened, Step::BlockLen);
            lemma_proceeds_on(p0, Step::Reset, p5, Step::WidthAppCmd, *self, to);
        }
        match widened {
            Ok(()) => {},
            Err(e) => return Err(e),
        }
        let ghost p6 = *self;
        let reply = self.host.send_cmd(CMD16_SET_BLOCKLEN, 512, UsdCmdFlags::R1);
        let ghost event = command_event(CMD16_SET_BLOCKLEN, 512, UsdCmdFlags::R1, reply);
        match reply {
            Ok(_) => {
                proof {
                    lemma_proceeds_one(p6, Step::BlockLen, event, *self, Step::Complete);
                    lemma_proceeds_on(p0, Step::Reset, p6, Step::BlockLen, *self, Step::Complete);
                }
                Ok(())
            },
            Err(e) => {
                proof {
                    lemma_proceeds_one(p6, Step::BlockLen, event, *self, Step::Failed(e));
                    lemma_proceeds_on(p0, Step::Reset, p6, Step::BlockLen, *self, Step::Failed(e));
                }
                Err(e)
            },
        }
    }

    /// Read a single 512-byte block.
    pub fn read_single_block(&mut self, lba: u32, buf: &mut [u8; 512]) -> (result: Result<
        (),
        SdError,
    >)
        ensures
            read_one(*old(self), lba, result, final(buf)@, *final(self)),
            crate::csd::card_address(old(self).card_type, lba) is None ==> final(buf)@ == old(buf)@,
    {
        match block_address(self.card_type, lba) {
            Ok(addr) => self.host.read_block(CMD17_READ_SINGLE_BLOCK, addr, buf),
            Err(e) => Err(e),
        }
    }

    /// Write a single 512-byte block.
    pub fn write_single_block(&mut self, lba: u32, buf: &[u8; 512]) -> (result: Result<(), SdError>)
        ensures
            write_one(*old(self), lba, buf@, result, *final(self)),
    {
        match block_address(self.card_type, lba) {
            Ok(addr) => self.host.write_block(CMD24_WRITE_SINGLE_BLOCK, addr, buf),
            Err(e) => Err(e),
        }
    }
}

/// Bringing a card up takes at most 2014 calls of any host, 1000 of them ACMD41.
pub proof fn law_bring_up_calls<H: SdHost>(p0: SdProtocol<H>, p1: SdProtocol<H>, to: Step)
    requires
        proceeds(p0, Step::Reset, p1, to),
    ensures
        crate::host::since(&p0.host, &p1.host).len() <= 2014,
        crate::bringup::op_conds(crate::host::since(&p0.host, &p1.host)) <= USDHC_ACMD41_RETRIES,
{
    let events = crate::host::since(&p0.host, &p1.host);
    crate::bringup::law_bring_up_is_bounded(p0.card(), events);
    crate::bringup::law_op_cond_retries(p0.card(), events);
}

/// The event of a block read: the host was asked with CMD17.
pub open spec fn read_event(arg: u32, reply: HostReply) -> HostEvent {
    HostEvent { call: HostCall::Read { cmd_index: CMD17_READ_SINGLE_BLOCK, arg }, reply }
}

/// The event of a block write: the host was asked with CMD24.
pub open spec fn write_event(arg: u32, data: Seq<u8>, reply: HostReply) -> HostEvent {
    HostEvent { call: HostCall::Write { cmd_index: CMD24_WRITE_SINGLE_BLOCK, arg, data }, reply }
}

/// Whether `before` has become `after` by reading block `lba`, which left `data`
/// in the caller's buffer: a block without an address is a timeout and nothing
/// is asked of the host, else the host is asked once, with CMD17 and the
/// address, and its answer is the result.
pub open spec fn read_one<H: SdHost>(
    before: SdProtocol<H>,
    lba: u32,
    result: Result<(), SdError>,
    data: Seq<u8>,
    after: SdProtocol<H>,
) -> bool {
    match crate::csd::card_address(before.card_type, lba) {
        None => result == Err::<(), SdError>(SdError::Timeout) && after == before,
        Some(arg) => {
            let event = read_event(arg, crate::host::read_reply(result, data));
            &&& after.card() == before.card()
            &&& after.host.log() == before.host.log().push(event)
            &&& before.host.answers(event, &after.host)
        },
    }
}

/// Whether `before` has become `after` by writing `data` to block `lba`: a block
/// without an address is a timeout and nothing is asked of the host, else the
/// host is asked once, with CMD24, the address and the data, and its answer is
/// the result.
pub open spec fn write_one<H: SdHost>(
    before: SdProtocol<H>,
    lba: u32,
    data: Seq<u8>,
    result: Result<(), SdError>,
    after: SdProtocol<H>,
) -> bool {
    match crate::csd::card_address(before.card_type, lba) {
        None => result == Err::<(), SdError>(SdError::Timeout) && after == before,
        Some(arg) => {
            let event = write_event(arg, data, crate::host::write_reply(result));
            &&& after.card() == before.card()
            &&& after.host.log() == before.host.log().push(event)
            &&& before.host.answers(event, &after.host)
        },
    }
}

/// The number that addresses block `lba`: the block itself on a high capacity card,
/// its first byte on a standard capacity card.
pub open spec fn first_unit(card_type: CardType, lba: int) -> int {
    if card_type is Sdhc {
        lba
    } else {
        512 * lba
    }
}

/// Reading one block. If the number that addresses it fits 32 bits, the host is asked
/// once, with CMD17 and that number, and the result is its answer; else nothing is
/// asked, and the result is a timeout.
pub proof fn law_read_one<H: SdHost>(
    protocol: &mut SdProtocol<H>,
    lba: u32,
    buf: &mut [u8; 512],
    result: Result<(), SdError>,
)
    requires
        call_ensures(SdProtocol::<H>::read_single_block, (protocol, lba, buf), result),
    ensures
        ({
            let (before, after) = (*old(protocol), *final(protocol));
            let unit = first_unit(before.card_type, lba as int);
            let asked = HostEvent {
                call: HostCall::Read { cmd_index: 17, arg: unit as u32 },
                reply: match result {
                    Ok(()) => HostReply::Data(final(buf)@),
                    Err(e) => HostReply::Failed(e),
                },
            };
            &&& after.card() == before.card()
            &&& unit < 0x1_0000_0000 ==> after.host.log() == before.host.log().push(asked)
            &&& unit >= 0x1_0000_0000 ==> result == Err::<(), SdError>(SdError::Timeout)
                && after.host == before.host
        }),
{
}

/// Writing one block. If the number that addresses it fits 32 bits, the host is asked
/// once, with CMD24, that number and the data, and the result is its answer; else
/// nothing is asked, and the result is a timeout.
pub proof fn law_write_one<H: SdHost>(
    protocol: &mut SdProtocol<H>,
    lba: u32,
    buf: [u8; 512],
    result: Result<(), SdError>,
)
    requires
        call_ensures(SdProtocol::<H>::write_single_block, (protocol, lba, &buf), result),
    ensures
        ({
            let (before, after) = (*old(protocol), *final(protocol));
            let unit = first_unit(before.card_type, lba as int);
            let asked = HostEvent {
                call: HostCall::Write { cmd_index: 24, arg: unit as u32, data: buf@ },
                reply: match result {
                    Ok(()) => HostReply::Done,
                    Err(e) => HostReply::Failed(e),
                },
            };
            &&& after.card() == before.card()
            &&& unit < 0x1_0000_0000 ==> after.host.log() == before.host.log().push(asked)
            &&& unit >= 0x1_0000_0000 ==> result == Err::<(), SdError>(SdError::Timeout)
                && after.host == before.host
        }),
{
}

/// A command is asked of the host as it is, once, and the result is the response or the
/// error that came.
pub proof fn law_command<H: SdHost>(
    protocol: &mut SdProtocol<H>,
    cmd_index: u32,
    arg: u32,
    flags: UsdCmdFlags,
    result: Result<CmdResponse, SdError>,
)
    requires
        call_ensures(SdProtocol::<H>::send_cmd, (protocol, cmd_index, arg, flags), result),
    ensures
        ({
            let (before, after) = (*old(protocol), *final(protocol));
            let asked = HostEvent {
                call: HostCall::Command { cmd_index, arg, flags },
                reply: match result {
                    Ok(response) => HostReply::Response(response),
                    Err(e) => HostReply::Failed(e),
                },
            };
            &&& after.card() == before.card()
            &&& after.host.log() == before.host.log().push(asked)
        }),
{
    let events = seq![command_event(cmd_index, arg, flags, result)];
    assert(old(protocol).host.log() + events =~= old(protocol).host.log().push(events[0]));
}

/// An application command is announced by CMD55 with the card's relative address in
/// the upper half of the argument. If that fails, nothing else is asked and the result
/// is its error; else the command follows and the result is the answer to it.
pub proof fn law_application_command<H: SdHost>(
    protocol: &mut SdProtocol<H>,
    cmd_index: u32,
    arg: u32,
    flags: UsdCmdFlags,
    result: Result<CmdResponse, SdError>,
)
    requires
        call_ensures(SdProtocol::<H>::send_acmd, (protocol, cmd_index, arg, flags), result),
    ensures
        ({
            let (before, after) = (*old(protocol), *final(protocol));
            let events = crate::host::since(&before.host, &after.host);
            &&& after.card() == before.card()
            &&& after.host.log() == before.host.log() + events
            &&& events.len() == 1 || events.len() == 2
            &&& events[0].call matches HostCall::Command { cmd_index: i, arg: a, flags: f } && i
                == 55 && a == 0x1_0000 * before.rca && f is R1
            &&& events.len() == 1 <==> !(events[0].reply is Response)
            &&& events.len() == 2 ==> events[1].call == (HostCall::Command {
                cmd_index,
                arg,
                flags,
            })
            &&& result matches Ok(response) ==> events.len() == 2 && events[1].reply
                == HostReply::Response(response)
            &&& result matches Err(e) ==> events.last().reply == HostReply::Failed(e)
        }),
{
    crate::bringup::lemma_rca_arg(old(protocol).rca);
}

} // verus!
