//! The exchange that brings a card up, call by call: what stands at each place of it,
//! what was learned of the card, and why it ended.

use vstd::prelude::*;
use crate::bringup::{BringUp, CardInfo, Step};
use crate::card::SdProtocol;
use crate::cmd::UsdCmdFlags;
use crate::error::{CardType, SdError};
use crate::host::{BusWidth, HostCall, HostEvent, HostReply, SdHost};
use crate::usdhc::Usdhc;

verus! {

/// The first word of the response to `event`.
pub open spec fn rsp0(event: HostEvent) -> u32 {
    match event.reply {
        HostReply::Response(r) => r.rsp0,
        _ => 0,
    }
}

/// A response stands at place `i`.
pub open spec fn responded(events: Seq<HostEvent>, i: int) -> bool {
    0 <= i < events.len() && events[i].reply is Response
}

pub open spec fn command(cmd_index: u32, arg: u32, flags: UsdCmdFlags) -> HostCall {
    HostCall::Command { cmd_index, arg, flags }
}

/// The call at place `i` of an exchange in which ACMD41 was announced `polls` times to
/// a card that was known by the relative address `rca`.
///
/// The host is reset and sends the initialization clocks at 400 kHz; then CMD0, CMD8
/// with the check pattern, and CMD55 with ACMD41 in turn, which offers high capacity
/// (bit 30) to a card that answered CMD8. Then come CMD2 and CMD3, whose response has
/// the relative address in its upper half; with that address CMD9 and CMD7; the clock
/// of 25 MHz; CMD55 with ACMD6 and the host's four data lines; and CMD16 for blocks of
/// 512 bytes.
pub open spec fn asked(events: Seq<HostEvent>, rca: u16, polls: int, i: int) -> HostCall {
    let address = rsp0(events[6 + 2 * polls]) & 0xFFFF_0000;
    if i == 0 {
        HostCall::Reset
    } else if i == 1 {
        HostCall::Clock { target_hz: 400_000 }
    } else if i == 2 {
        HostCall::InitialClocks
    } else if i == 3 {
        command(0, 0, UsdCmdFlags::NoResponse)
    } else if i == 4 {
        command(8, 0x1AA, UsdCmdFlags::R7)
    } else if i < 5 + 2 * polls {
        if i % 2 == 1 {
            command(55, (rca as u32) << 16, UsdCmdFlags::R1)
        } else if events[4].reply is Response {
            command(41, 0x40FF_8000, UsdCmdFlags::R3)
        } else {
            command(41, 0x00FF_8000, UsdCmdFlags::R3)
        }
    } else if i == 5 + 2 * polls {
        command(2, 0, UsdCmdFlags::R2)
    } else if i == 6 + 2 * polls {
        command(3, 0, UsdCmdFlags::R6)
    } else if i == 7 + 2 * polls {
        command(9, address, UsdCmdFlags::R2)
    } else if i == 8 + 2 * polls {
        command(7, address, UsdCmdFlags::R1B)
    } else if i == 9 + 2 * polls {
        HostCall::Clock { target_hz: 25_000_000 }
    } else if i == 10 + 2 * polls {
        command(55, address, UsdCmdFlags::R1)
    } else if i == 11 + 2 * polls {
        command(6, 2, UsdCmdFlags::R1)
    } else if i == 12 + 2 * polls {
        HostCall::Width { width: BusWidth::Four }
    } else {
        command(16, 512, UsdCmdFlags::R1)
    }
}

/// Nothing before the last call failed but CMD8, which may time out; a card that
/// answered it and was asked more echoed the voltage and the check pattern.
pub open spec fn survived(events: Seq<HostEvent>) -> bool {
    &&& forall|i: int|
        0 <= i < events.len() - 1 && (#[trigger] events[i]).reply is Failed ==> i == 4
            && events[i].reply == HostReply::Failed(SdError::Timeout)
    &&& events.len() > 5 && events[4].reply is Response ==> rsp0(events[4]) & 0x1FF == 0x1AA
}

/// At most 1000 times is the card asked whether it is powered up, and only as long as
/// it denies that (bit 31): the answer to the last of `polls` is yes if CMD2 follows.
pub open spec fn polled(events: Seq<HostEvent>, polls: int) -> bool {
    &&& 0 <= polls <= 1000
    &&& 4 + 2 * polls <= events.len() || polls == 0
    &&& forall|k: int|
        1 <= k < polls ==> (#[trigger] events[4 + 2 * k]).reply is Response && rsp0(
            events[4 + 2 * k],
        ) & 0x8000_0000 == 0
    &&& events.len() > 5 + 2 * polls ==> powered_up(events, polls)
}

/// The answer to the last of `polls` says that the card is powered up.
pub open spec fn powered_up(events: Seq<HostEvent>, polls: int) -> bool {
    &&& polls >= 1
    &&& responded(events, 4 + 2 * polls)
    &&& rsp0(events[4 + 2 * polls]) & 0x8000_0000 != 0
}

/// What is known of the card: by bit 30 of its last answer to ACMD41 its type, by CMD3
/// its address, by CMD9 its capacity, and else what was known before.
pub open spec fn learned(
    events: Seq<HostEvent>,
    polls: int,
    before: CardInfo,
    card: CardInfo,
) -> bool {
    &&& card.card_type == if !powered_up(events, polls) {
        before.card_type
    } else if rsp0(events[4 + 2 * polls]) & 0x4000_0000 != 0 {
        CardType::Sdhc
    } else {
        CardType::Sdsc
    }
    &&& card.rca == if responded(events, 6 + 2 * polls) {
        (rsp0(events[6 + 2 * polls]) >> 16) as u16
    } else {
        before.rca
    }
    &&& card.block_count == if responded(events, 7 + 2 * polls) {
        crate::csd::csd_block_count(events[7 + 2 * polls].reply->Response_0.bits()) as u32
    } else {
        before.block_count
    }
}

/// `events` is the beginning of the exchange with a card of which `before` was known.
pub open spec fn exchanged(
    events: Seq<HostEvent>,
    polls: int,
    before: CardInfo,
    card: CardInfo,
) -> bool {
    &&& forall|i: int|
        0 <= i < events.len() ==> (#[trigger] events[i]).call == asked(events, before.rca, polls, i)
    &&& survived(events)
    &&& polled(events, polls)
    &&& learned(events, polls, before, card)
}

/// Why the exchange ended in `error`: the last call failed with it (and was not CMD8
/// timing out), or there is no usable card. That is one that does not echo what CMD8
/// sent, or one that is not powered up when it is asked for the thousandth time.
pub open spec fn ended_in(events: Seq<HostEvent>, polls: int, error: SdError) -> bool {
    let n = events.len();
    ||| n > 0 && events[n - 1].reply == HostReply::Failed(error) && !(n == 5 && error
        == SdError::Timeout)
    ||| error == SdError::NoCard && n == 5 && events[4].reply is Response && rsp0(events[4]) & 0x1FF
        != 0x1AA
    ||| error == SdError::NoCard && polls == 1000 && n == 2005 && events[2004].reply is Response
        && rsp0(events[2004]) & 0x8000_0000 == 0
}

/// Where an exchange of `n` calls, `polls` of them CMD55 before ACMD41, stands.
spec fn stands(events: Seq<HostEvent>, polls: int, step: Step) -> bool {
    let n = events.len();
    let fresh = polls == 0;
    let last_ok = n > 0 ==> !(events[n - 1].reply is Failed);
    match step {
        Step::Reset => n == 0 && fresh,
        Step::SlowClock => n == 1 && fresh && last_ok,
        Step::Warmup => n == 2 && fresh && last_ok,
        Step::Idle => n == 3 && fresh && last_ok,
        Step::IfCond => n == 4 && fresh && last_ok,
        Step::AppCmd { v2, tries } => {
            &&& n == 5 + 2 * polls && tries == polls < 1000
            &&& v2 == events[4].reply is Response
            &&& events[4].reply is Response ==> rsp0(events[4]) & 0x1FF == 0x1AA
            &&& events[4].reply is Failed ==> events[4].reply == HostReply::Failed(SdError::Timeout)
            &&& n > 5 ==> {
                &&& last_ok
                &&& events[n - 1].reply is Response
                &&& rsp0(events[n - 1]) & 0x8000_0000 == 0
            }
        },
        Step::OpCond { v2, tries } => {
            &&& n == 4 + 2 * polls && 1 <= polls && tries == polls - 1
            &&& v2 == events[4].reply is Response
            &&& last_ok
        },
        Step::Cid => n == 5 + 2 * polls && last_ok && powered_up(events, polls),
        Step::Address => n == 6 + 2 * polls && last_ok,
        Step::Csd => n == 7 + 2 * polls && responded(events, n - 1),
        Step::Select => n == 8 + 2 * polls && responded(events, n - 1) && responded(events, n - 2),
        Step::FastClock => n == 9 + 2 * polls && last_ok && responded(events, n - 3),
        Step::WidthAppCmd => n == 10 + 2 * polls && last_ok && responded(events, n - 4),
        Step::WidthCmd => n == 11 + 2 * polls && last_ok,
        Step::Width => n == 12 + 2 * polls && last_ok,
        Step::BlockLen => n == 13 + 2 * polls && last_ok,
        Step::Complete => n == 14 + 2 * polls && last_ok,
        Step::Failed(e) => ended_in(events, polls, e),
    }
}

#[verifier::rlimit(60)]
proof fn lemma_exchange(card: CardInfo, events: Seq<HostEvent>) -> (polls: int)
    requires
        (BringUp { step: Step::Reset, card }).follow(events) is Some,
        forall|i: int| 0 <= i < events.len() ==> (#[trigger] events[i]).answer_fits(),
    ensures
        ({
            let end = (BringUp { step: Step::Reset, card }).follow(events).unwrap();
            &&& exchanged(events, polls, card, end.card)
            &&& stands(events, polls, end.step)
        }),
    decreases events.len(),
{
    let start = BringUp { step: Step::Reset, card };
    if events.len() == 0 {
        0
    } else {
        let prev = events.drop_last();
        assert forall|i: int| 0 <= i < prev.len() implies (#[trigger] prev[i]).answer_fits() by {
            assert(prev[i] == events[i]);
        }
        let before = lemma_exchange(card, prev);
        let now = start.follow(prev).unwrap();
        let event = events.last();
        assert(event == events[events.len() - 1]);
        assert(event.answer_fits());
        let polls = if now.step is AppCmd {
            before + 1
        } else {
            before
        };
        lemma_bits(rsp0(events[6 + 2 * before]));
        lemma_next(card, now, prev, before, events, polls);
        polls
    }
}

proof fn lemma_bits(r6: u32)
    ensures
        crate::bringup::rca_arg(crate::bringup::rca_of(r6)) == r6 & 0xFFFF_0000,
        crate::bringup::op_cond_arg(true) == 0x40FF_8000,
        crate::bringup::op_cond_arg(false) == 0x00FF_8000,
{
    assert((((r6 >> 16) as u16) as u32) << 16 == r6 & 0xFFFF_0000 && 0x4000_0000u32 | 0x00FF_8000
        == 0x40FF_8000 && 0u32 | 0x00FF_8000 == 0x00FF_8000) by (bit_vector);
}

#[verifier::rlimit(100)]
proof fn lemma_next(
    card: CardInfo,
    now: BringUp,
    prev: Seq<HostEvent>,
    before: int,
    events: Seq<HostEvent>,
    polls: int,
)
    requires
        events.len() > 0,
        prev == events.drop_last(),
        exchanged(prev, before, card, now.card),
        stands(prev, before, now.step),
        now.asks() == Some(events.last().call),
        events.last().answer_fits(),
        polls == if now.step is AppCmd {
            before + 1
        } else {
            before
        },
        crate::bringup::op_cond_arg(true) == 0x40FF_8000,
        crate::bringup::op_cond_arg(false) == 0x00FF_8000,
        crate::bringup::rca_arg(crate::bringup::rca_of(rsp0(events[6 + 2 * before]))) == rsp0(
            events[6 + 2 * before],
        ) & 0xFFFF_0000,
    ensures
        exchanged(events, polls, card, now.after(events.last().reply).card),
        stands(events, polls, now.after(events.last().reply).step),
{
    let end = now.after(events.last().reply);
    let n = prev.len() as int;
    assert forall|i: int| 0 <= i < n implies #[trigger] prev[i] == events[i] by {}
    assert(events[n] == events.last());
    assert(stands(events, polls, end.step));
    assert forall|i: int| 0 <= i < events.len() implies (#[trigger] events[i]).call == asked(
        events,
        card.rca,
        polls,
        i,
    ) by {
        if i < n {
            assert(prev[i].call == asked(prev, card.rca, before, i));
        }
    }
    assert(survived(events)) by {
        assert forall|i: int|
            0 <= i < events.len() - 1 && (#[trigger] events[i]).reply is Failed implies i == 4
            && events[i].reply == HostReply::Failed(SdError::Timeout) by {
            assert(prev[i] == events[i]);
        }
    }
    assert(polled(events, polls)) by {
        assert forall|k: int|
            1 <= k < polls implies (#[trigger] events[4 + 2 * k]).reply is Response && rsp0(
            events[4 + 2 * k],
        ) & 0x8000_0000 == 0 by {
            assert(prev[4 + 2 * k] == events[4 + 2 * k]);
        }
    }
    assert(learned(events, polls, card, end.card));
}

/// Bringing a card up. A driver that comes of it has made the whole exchange of
/// fourteen calls and two for each time that the card was asked whether it is powered
/// up; if none comes of it, the exchange ended for the reason that the error says. In
/// either case what is known of the card is what the exchange told.
pub proof fn law_bring_up<H: SdHost>(
    protocol: &mut SdProtocol<H>,
    result: Result<(), SdError>,
)
    requires
        call_ensures(SdProtocol::<H>::bring_up, (protocol,), result),
    ensures
        brought_up(*old(protocol), result, *final(protocol)),
{
    lemma_brought_up(*old(protocol), result, *final(protocol));
}

/// Whether the exchange between `before` and `after` ended as `result` says.
pub open spec fn brought_up<H: SdHost>(
    before: SdProtocol<H>,
    result: Result<(), SdError>,
    after: SdProtocol<H>,
) -> bool {
    let events = crate::host::since(&before.host, &after.host);
    exists|polls: int|
        {
            &&& #[trigger] exchanged(events, polls, before.card(), after.card())
            &&& match result {
                Ok(()) => events.len() == 14 + 2 * polls && responded(events, events.len() - 1),
                Err(error) => ended_in(events, polls, error),
            }
        }
}

proof fn lemma_brought_up<H: SdHost>(
    before: SdProtocol<H>,
    result: Result<(), SdError>,
    after: SdProtocol<H>,
)
    requires
        crate::card::proceeds(
            before,
            Step::Reset,
            after,
            crate::bringup::outcome(result, Step::Complete),
        ),
    ensures
        brought_up(before, result, after),
{
    let events = crate::host::since(&before.host, &after.host);
    let polls = lemma_exchange(before.card(), events);
    assert(exchanged(events, polls, before.card(), after.card()));
    if result is Ok {
        let last = events[events.len() - 1];
        assert(last.call == asked(events, before.rca, polls, events.len() - 1));
        assert(last.answer_fits());
    }
}

/// A driver that is made of a protocol layer has brought its card up, beginning with what
/// was known of the card; if none could be made, the exchange ended for the reason that
/// the error says.
pub proof fn law_init_protocol<H: SdHost>(
    before: SdProtocol<H>,
    result: Result<Usdhc<H>, SdError>,
)
    requires
        call_ensures(Usdhc::<H>::init_protocol, (before,), result),
    ensures
        match result {
            Ok(driver) => brought_up(before, Ok(()), driver.protocol()),
            Err(error) => exists|after: SdProtocol<H>| #[trigger]
                brought_up(before, Err(error), after),
        },
{
    match result {
        Ok(driver) => {
            lemma_brought_up(before, Ok(()), driver.protocol());
        },
        Err(error) => {
            let after = choose|p: SdProtocol<H>| #[trigger]
                crate::card::proceeds(before, Step::Reset, p, Step::Failed(error));
            lemma_brought_up(before, Err(error), after);
        },
    }
}

/// A driver that is made for a host has brought its card up, beginning with the relative
/// address 0; if none could be made, the exchange ended for the reason that the error
/// says.
pub proof fn law_new_driver<H: SdHost>(host: H, result: Result<Usdhc<H>, SdError>)
    requires
        call_ensures(Usdhc::<H>::new, (host,), result),
    ensures
        ({
            let before = SdProtocol { host, card_type: CardType::Sdhc, block_count: 0, rca: 0 };
            match result {
                Ok(driver) => brought_up(before, Ok(()), driver.protocol()),
                Err(error) => exists|after: SdProtocol<H>| #[trigger]
                    brought_up(before, Err(error), after),
            }
        }),
{
    let before = SdProtocol { host, card_type: CardType::Sdhc, block_count: 0, rca: 0 };
    match result {
        Ok(driver) => {
            lemma_brought_up(before, Ok(()), driver.protocol());
        },
        Err(error) => {
            let after = choose|p: SdProtocol<H>| #[trigger]
                crate::card::proceeds(before, Step::Reset, p, Step::Failed(error));
            lemma_brought_up(before, Err(error), after);
        },
    }
}

/// The calls that come before the card is initialized.
pub open spec fn host_made_ready() -> Seq<HostEvent> {
    seq![
        HostEvent { call: HostCall::Reset, reply: HostReply::Done },
        HostEvent { call: HostCall::Clock { target_hz: 400_000 }, reply: HostReply::Done },
        HostEvent { call: HostCall::InitialClocks, reply: HostReply::Done },
    ]
}

/// Initializing a card is the exchange from CMD0 to CMD7, as it is made on a host that
/// was made ready for it.
pub proof fn law_card_init<H: SdHost>(
    protocol: &mut SdProtocol<H>,
    result: Result<(), SdError>,
)
    requires
        call_ensures(SdProtocol::<H>::card_init, (protocol,), result),
    ensures
        ({
            let (before, after) = (*old(protocol), *final(protocol));
            let events = host_made_ready() + crate::host::since(&before.host, &after.host);
            exists|polls: int|
                {
                    &&& #[trigger] exchanged(events, polls, before.card(), after.card())
                    &&& match result {
                        Ok(()) => events.len() == 9 + 2 * polls && responded(
                            events,
                            events.len() - 1,
                        ),
                        Err(error) => ended_in(events, polls, error),
                    }
                }
        }),
{
    let (before, after) = (*old(protocol), *final(protocol));
    let first = host_made_ready();
    let events = crate::host::since(&before.host, &after.host);
    let start = BringUp { step: Step::Reset, card: before.card() };
    assert(first.drop_last() =~= seq![first[0], first[1]]);
    assert(seq![first[0], first[1]].drop_last() =~= seq![first[0]]);
    assert(seq![first[0]].drop_last() =~= Seq::<HostEvent>::empty());
    assert(start.follow(Seq::empty()) == Some(start));
    assert(start.follow(seq![first[0]]) == Some(start.at(Step::SlowClock)));
    assert(start.follow(seq![first[0], first[1]]) == Some(start.at(Step::Warmup)));
    assert(start.follow(first) == Some(start.at(Step::Idle)));
    crate::bringup::lemma_follow_more(start, first, events);
    let all = first + events;
    assert forall|i: int| 0 <= i < all.len() implies (#[trigger] all[i]).answer_fits() by {
        if i >= 3 {
            assert(all[i] == events[i - 3]);
        }
    }
    let polls = lemma_exchange(before.card(), all);
    assert(exchanged(all, polls, before.card(), after.card()));
    if result is Ok {
        let last = all[all.len() - 1];
        assert(last.call == asked(all, before.rca, polls, all.len() - 1));
        assert(last.answer_fits());
    }
}

/// Reading the CSD is one CMD9 with the card's relative address in the upper half of the
/// argument. The response tells the number of blocks; nothing else that is known of the
/// card changes, and nothing at all if the command fails.
pub proof fn law_read_csd<H: SdHost>(protocol: &mut SdProtocol<H>, result: Result<(), SdError>)
    requires
        call_ensures(SdProtocol::<H>::read_csd, (protocol,), result),
    ensures
        ({
            let (before, after) = (*old(protocol), *final(protocol));
            let events = crate::host::since(&before.host, &after.host);
            &&& events.len() == 1
            &&& events[0].call matches HostCall::Command { cmd_index, arg, flags } && cmd_index == 9
                && arg == 0x1_0000 * before.rca && flags is R2
            &&& after.card_type == before.card_type && after.rca == before.rca
            &&& result is Ok ==> (events[0].reply matches HostReply::Response(r)
                && after.block_count == crate::csd::csd_block_count(r.bits()) as u32)
            &&& result matches Err(e) ==> events[0].reply == HostReply::Failed(e)
                && after.block_count == before.block_count
        }),
{
    let (before, after) = (*old(protocol), *final(protocol));
    let events = crate::host::since(&before.host, &after.host);
    let start = BringUp { step: Step::Csd, card: before.card() };
    assert(events.drop_last() =~= Seq::<HostEvent>::empty());
    assert(start.follow(Seq::empty()) == Some(start));
    assert(events[0].answer_fits());
    crate::bringup::lemma_rca_arg(before.rca);
    assert(start.card.rca == before.rca);
}

/// Switching to four data lines: CMD55 with the card's relative address in the upper half
/// of the argument, ACMD6 with argument 2, and then the host's own switch. The first
/// failure is the result, and nothing is asked after it. What is known of the card stays.
pub proof fn law_four_lines<H: SdHost>(protocol: &mut SdProtocol<H>, result: Result<(), SdError>)
    requires
        call_ensures(SdProtocol::<H>::set_bus_width_4bit, (protocol,), result),
    ensures
        ({
            let (before, after) = (*old(protocol), *final(protocol));
            let events = crate::host::since(&before.host, &after.host);
            let n = events.len() as int;
            &&& after.card() == before.card()
            &&& 1 <= n <= 3
            &&& events[0].call matches HostCall::Command { cmd_index, arg, flags } && cmd_index
                == 55 && arg == 0x1_0000 * before.rca && flags is R1
            &&& n > 1 ==> events[1].call == command(6, 2, UsdCmdFlags::R1)
            &&& n > 2 ==> events[2].call == (HostCall::Width { width: BusWidth::Four })
            &&& result is Ok <==> n == 3
            &&& result matches Err(e) ==> events[n - 1].reply == HostReply::Failed(e)
        }),
{
    let (before, after) = (*old(protocol), *final(protocol));
    let events = crate::host::since(&before.host, &after.host);
    let start = BringUp { step: Step::WidthAppCmd, card: before.card() };
    crate::bringup::lemma_rca_arg(before.rca);
    assert(start.card.rca == before.rca);
    let none = Seq::<HostEvent>::empty();
    assert(start.follow(none) == Some(start));
    if events.len() > 0 {
        crate::bringup::lemma_follow_prefix(start, events, 1);
        assert(events.take(1).drop_last() =~= none);
        assert(events.take(1).last() == events[0] && events[0].answer_fits());
        if events.len() > 1 {
            crate::bringup::lemma_follow_prefix(start, events, 2);
            assert(events.take(2).drop_last() =~= events.take(1));
            assert(events.take(2).last() == events[1] && events[1].answer_fits());
            if events.len() > 2 {
                assert(events.drop_last() =~= events.take(2));
            } else {
                assert(events.take(2) =~= events);
            }
        } else {
            assert(events.take(1) =~= events);
        }
    } else {
        assert(events =~= none);
    }
}

} // verus!
