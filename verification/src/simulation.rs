//! What the driver does with a simulated card.

use vstd::prelude::*;
use crate::bringup::{
    BringUp, CardInfo, Step, IDENTIFICATION_HZ, IF_COND, IF_COND_ECHO, TRANSFER_HZ,
};
use crate::card::SdProtocol;
use crate::cmd::{OCR_BUSY, OCR_HCS, USDHC_ACMD41_RETRIES};
use crate::error::{CardType, SdError};
use crate::fake::{
    CardConfig, CardPhase, FakeSdHost, SdVersion, SimCard, SimHost, STATUS_TRANSFER, WRONG_STATE,
};
use crate::host::{BusWidth, HostCall, HostEvent, HostReply, SdHost};
use crate::usdhc::Block;

verus! {

/// An exchange with the simulation replays.
proof fn lemma_replays(h0: FakeSdHost, events: Seq<HostEvent>, h1: FakeSdHost)
    requires
        crate::host::path(&h0, events, &h1),
    ensures
        h0@.replay(events) == Some(h1@),
    decreases events.len(),
{
    if events.len() > 0 {
        let last = choose|last: FakeSdHost|
            crate::host::path(&h0, events.drop_last(), &last) && #[trigger] last.answers(
                events.last(),
                &h1,
            );
        lemma_replays(h0, events.drop_last(), last);
    }
}

/// A block that was written reads back as it was written.
pub proof fn law_write_then_read(
    p0: SdProtocol<FakeSdHost>,
    lba: u32,
    data: Seq<u8>,
    p1: SdProtocol<FakeSdHost>,
    read: Seq<u8>,
    p2: SdProtocol<FakeSdHost>,
)
    requires
        crate::card::write_one(p0, lba, data, Ok(()), p1),
        crate::card::read_one(p1, lba, Ok(()), read, p2),
    ensures
        read == data,
{
}

/// The card of `p` is of the type that the driver takes it for.
pub open spec fn type_known(p: SdProtocol<FakeSdHost>) -> bool {
    p.host@.card matches Some(card) && card.config.card_type == p.card_type
}

/// The address of a block leads back to its index.
proof fn lemma_stored_at(card_type: CardType, lba: u32)
    requires
        crate::csd::card_address(card_type, lba) is Some,
    ensures
        crate::fake::stored_at(
            card_type,
            crate::csd::card_address(card_type, lba).unwrap(),
        ) == lba,
{
}

/// Writing a block leaves every other block alone, whether it succeeds or not.
pub proof fn law_write_leaves_others(
    p0: SdProtocol<FakeSdHost>,
    lba: u32,
    data: Seq<u8>,
    result: Result<(), SdError>,
    p1: SdProtocol<FakeSdHost>,
    other: u32,
    before: Seq<u8>,
    p2: SdProtocol<FakeSdHost>,
    after: Seq<u8>,
    p3: SdProtocol<FakeSdHost>,
)
    requires
        other != lba,
        type_known(p0),
        crate::card::read_one(p0, other, Ok(()), before, p1),
        crate::card::write_one(p1, lba, data, result, p2),
        crate::card::read_one(p2, other, Ok(()), after, p3),
    ensures
        after == before,
{
    if crate::csd::card_address(p0.card_type, lba) is Some {
        lemma_stored_at(p0.card_type, lba);
    }
    lemma_stored_at(p0.card_type, other);
}

/// A block that was never written reads as zeros.
pub proof fn law_unwritten_reads_zeros(
    p0: SdProtocol<FakeSdHost>,
    lba: u32,
    data: Seq<u8>,
    p1: SdProtocol<FakeSdHost>,
)
    requires
        type_known(p0),
        !p0.host@.card.unwrap().blocks.contains_key(lba),
        crate::card::read_one(p0, lba, Ok(()), data, p1),
    ensures
        data == Seq::new(512, |i: int| 0u8),
{
    lemma_stored_at(p0.card_type, lba);
}

/// The card of `host`, selected for data transfer.
pub open spec fn selected(host: SimHost) -> bool {
    host.card matches Some(card) && card.phase == CardPhase::Transfer && !card.app_cmd_pending
}

/// A selected card reads and writes every block that has an address, and stays
/// selected.
pub proof fn law_selected_card_serves(
    p0: SdProtocol<FakeSdHost>,
    lba: u32,
    data: Seq<u8>,
    result: Result<(), SdError>,
    p1: SdProtocol<FakeSdHost>,
)
    requires
        selected(p0.host@),
        crate::csd::card_address(p0.card_type, lba) is Some,
        ({
            ||| crate::card::read_one(p0, lba, result, data, p1)
            ||| crate::card::write_one(p0, lba, data, result, p1)
        }),
    ensures
        result is Ok,
        selected(p1.host@),
{
}

/// The error of a card that is not selected for data transfer: a timeout if there
/// is no card at all.
pub open spec fn refusal(host: SimHost) -> SdError {
    match host.card {
        None => SdError::Timeout,
        Some(_) => SdError::CommandFailed(WRONG_STATE),
    }
}

/// A card that is not selected, such as one that was power-cycled, neither reads
/// nor writes a block.
pub proof fn law_unselected_card_refuses(
    p0: SdProtocol<FakeSdHost>,
    lba: u32,
    data: Seq<u8>,
    result: Result<(), SdError>,
    p1: SdProtocol<FakeSdHost>,
)
    requires
        p0.host@.card matches Some(card) ==> card.phase != CardPhase::Transfer,
        ({
            ||| crate::card::read_one(p0, lba, result, data, p1)
            ||| crate::card::write_one(p0, lba, data, result, p1)
        }),
    ensures
        result == Err::<(), SdError>(
            if crate::csd::card_address(p0.card_type, lba) is Some {
                refusal(p0.host@)
            } else {
                SdError::Timeout
            },
        ),
        p1.host@ == p0.host@,
{
}

/// A selected card reports that it is in the transfer state; one that is not, such
/// as one that was power-cycled, reports nothing.
pub proof fn law_status_tells_selected(
    p0: SdProtocol<FakeSdHost>,
    result: Result<u32, SdError>,
    p1: SdProtocol<FakeSdHost>,
)
    requires
        p0.host@.cmd_errors.len() == 0,
        p0.host@.card matches Some(card) ==> !card.app_cmd_pending,
        crate::usdhc::asks_status(p0, result, p1),
    ensures
        result == if selected(p0.host@) {
            Ok::<u32, SdError>(STATUS_TRANSFER)
        } else {
            Err::<u32, SdError>(refusal(p0.host@))
        },
        p1.host@ == p0.host@,
{
    let events = crate::host::since(&p0.host, &p1.host);
    lemma_replays(p0.host, events, p1.host);
    assert(events =~= seq![events[0]]);
    assert(p0.host@.replay(events.drop_last()) == Some(p0.host@));
}

/// Whatever is asked of a host, its card keeps its configuration, and what it holds
/// stays well formed.
pub proof fn law_card_stays_well_formed(host: SimHost, call: HostCall)
    requires
        host.card matches Some(card) && card.wf(),
        call matches HostCall::Write { data, .. } ==> data.len() == 512,
    ensures
        host.answer(call).0.card matches Some(card) && {
            &&& card.wf()
            &&& card.config == host.card.unwrap().config
        },
{
}

/// The replay of the first `n` events.
proof fn lemma_replay_prefix(host: SimHost, events: Seq<HostEvent>, n: int)
    requires
        host.replay(events) is Some,
        0 <= n <= events.len(),
    ensures
        host.replay(events.take(n)) is Some,
        n < events.len() ==> {
            let now = host.replay(events.take(n)).unwrap();
            &&& host.replay(events.take(n + 1)) == Some(now.answer(events[n].call).0)
            &&& now.answer(events[n].call).1 == events[n].reply
        },
        n == events.len() ==> events.take(n) == events,
    decreases events.len() - n,
{
    if n == events.len() {
        assert(events.take(n) =~= events);
    } else {
        lemma_replay_prefix(host, events, n + 1);
        assert(events.take(n + 1).drop_last() =~= events.take(n));
        assert(events.take(n + 1).last() == events[n]);
    }
}

/// Whether `card` is `before` with the first `n` of `blocks` stored from `start` on.
spec fn stored_from(
    before: SimCard,
    start: u32,
    blocks: Seq<Block>,
    n: int,
    card: SimCard,
) -> bool {
    &&& card.config == before.config
    &&& card.phase == before.phase
    &&& forall|k: u32|
        #![trigger card.blocks.contains_key(k)]
        #![trigger card.blocks[k]]
        if start <= k < start + n {
            card.blocks.contains_key(k) && card.blocks[k] == blocks[k - start].contents@
        } else {
            &&& card.blocks.contains_key(k) <==> before.blocks.contains_key(k)
            &&& card.blocks[k] == before.blocks[k]
        }
}

/// After `n` blocks were written from `start` on, the card holds them and what it
/// held elsewhere.
proof fn lemma_blocks_stored(
    p0: SdProtocol<FakeSdHost>,
    start: u32,
    blocks: Seq<Block>,
    p1: SdProtocol<FakeSdHost>,
    n: int,
)
    requires
        type_known(p0),
        start + blocks.len() <= 0x1_0000_0000,
        crate::usdhc::writes(p0, start, blocks, Ok(()), p1),
        0 <= n <= blocks.len(),
    ensures
        p0.host@.replay(crate::host::since(&p0.host, &p1.host).take(n)) matches Some(now)
            && now.card matches Some(card) && stored_from(
            p0.host@.card.unwrap(),
            start,
            blocks,
            n,
            card,
        ),
    decreases n,
{
    let events = crate::host::since(&p0.host, &p1.host);
    let before = p0.host@.card.unwrap();
    lemma_replays(p0.host, events, p1.host);
    if n == 0 {
        assert(events.take(0) =~= Seq::<HostEvent>::empty());
    } else {
        lemma_blocks_stored(p0, start, blocks, p1, n - 1);
        lemma_replay_prefix(p0.host@, events, n - 1);
        let lba = (start + (n - 1)) as u32;
        let arg = crate::csd::card_address(p0.card_type, lba).unwrap();
        let data = blocks[n - 1].contents@;
        assert(events[n - 1] == crate::card::write_event(arg, data, HostReply::Done));
        lemma_stored_at(p0.card_type, lba);
        let was = p0.host@.replay(events.take(n - 1)).unwrap();
        let card = was.answer(events[n - 1].call).0.card.unwrap();
        assert(card.blocks == was.card.unwrap().blocks.insert(lba, data));
        assert(stored_from(before, start, blocks, n, card));
    }
}

/// Reading blocks does not change the host.
proof fn lemma_reads_change_nothing(
    p0: SdProtocol<FakeSdHost>,
    start: u32,
    old_blocks: Seq<Block>,
    new_blocks: Seq<Block>,
    p1: SdProtocol<FakeSdHost>,
    n: int,
)
    requires
        crate::usdhc::reads(p0, start, old_blocks, Ok(()), new_blocks, p1),
        0 <= n <= old_blocks.len(),
    ensures
        p0.host@.replay(crate::host::since(&p0.host, &p1.host).take(n)) == Some(p0.host@),
    decreases n,
{
    let events = crate::host::since(&p0.host, &p1.host);
    lemma_replays(p0.host, events, p1.host);
    if n == 0 {
        assert(events.take(0) =~= Seq::<HostEvent>::empty());
    } else {
        lemma_reads_change_nothing(p0, start, old_blocks, new_blocks, p1, n - 1);
        lemma_replay_prefix(p0.host@, events, n - 1);
        assert(events[n - 1].call is Read);
    }
}

/// Blocks that were written read back as they were written.
pub proof fn law_write_then_read_many(
    p0: SdProtocol<FakeSdHost>,
    start: u32,
    blocks: Seq<Block>,
    p1: SdProtocol<FakeSdHost>,
    old_blocks: Seq<Block>,
    new_blocks: Seq<Block>,
    p2: SdProtocol<FakeSdHost>,
)
    requires
        type_known(p0),
        start + blocks.len() <= 0x1_0000_0000,
        crate::usdhc::writes(p0, start, blocks, Ok(()), p1),
        old_blocks.len() == blocks.len(),
        crate::usdhc::reads(p1, start, old_blocks, Ok(()), new_blocks, p2),
    ensures
        forall|i: int|
            0 <= i < blocks.len() ==> #[trigger] new_blocks[i].contents@ == blocks[i].contents@,
{
    let n = blocks.len() as int;
    let wrote = crate::host::since(&p0.host, &p1.host);
    lemma_blocks_stored(p0, start, blocks, p1, n);
    lemma_replays(p0.host, wrote, p1.host);
    assert(wrote.take(n) =~= wrote);
    let card = p1.host@.card.unwrap();
    let read = crate::host::since(&p1.host, &p2.host);
    lemma_replays(p1.host, read, p2.host);
    assert forall|i: int| 0 <= i < n implies #[trigger] new_blocks[i].contents@
        == blocks[i].contents@ by {
        lemma_reads_change_nothing(p1, start, old_blocks, new_blocks, p2, i);
        lemma_replay_prefix(p1.host@, read, i);
        assert(read[i].call is Read);
        lemma_stored_at(p0.card_type, (start + i) as u32);
        assert(card.blocks.contains_key((start + i) as u32));
    }
}

/// Where bringing a card up stands after `n` calls of the simulation.
#[verifier::opaque]
spec fn joint(start: BringUp, host: SimHost, n: nat) -> Option<(BringUp, SimHost)>
    decreases n,
{
    if n == 0 {
        Some((start, host))
    } else {
        match joint(start, host, (n - 1) as nat) {
            Some((now, h)) => match now.asks() {
                Some(call) => Some((now.after(h.answer(call).1), h.answer(call).0)),
                None => None,
            },
            None => None,
        }
    }
}

/// An exchange with the simulation is the one that the simulation leads through.
proof fn lemma_joint(start: BringUp, host: SimHost, events: Seq<HostEvent>)
    requires
        start.follow(events) is Some,
        host.replay(events) is Some,
    ensures
        joint(start, host, events.len()) == Some(
            (start.follow(events).unwrap(), host.replay(events).unwrap()),
        ),
    decreases events.len(),
{
    reveal(joint);
    if events.len() > 0 {
        lemma_joint(start, host, events.drop_last());
    }
}

/// The exchange ends where nothing more is asked for, and nowhere else.
proof fn lemma_joint_end(start: BringUp, host: SimHost, n: nat, m: nat)
    requires
        joint(start, host, n) is Some,
        joint(start, host, n).unwrap().0.asks() is None,
        joint(start, host, m) is Some,
        joint(start, host, m).unwrap().0.asks() is None,
    ensures
        n == m,
{
    reveal(joint);
    if n < m {
        lemma_joint_prefix(start, host, (n + 1) as nat, m);
    } else if m < n {
        lemma_joint_prefix(start, host, (m + 1) as nat, n);
    }
}

proof fn lemma_joint_prefix(start: BringUp, host: SimHost, n: nat, m: nat)
    requires
        n <= m,
        joint(start, host, m) is Some,
    ensures
        joint(start, host, n) is Some,
    decreases m,
{
    reveal(joint);
    if n < m {
        lemma_joint_prefix(start, host, n, (m - 1) as nat);
    }
}

proof fn lemma_bits(rca: u16)
    ensures
        (IF_COND & 0xFFF) & IF_COND_ECHO == IF_COND,
        (OCR_BUSY | OCR_HCS | 0x00FF_8000) & OCR_BUSY != 0,
        (OCR_BUSY | 0 | 0x00FF_8000) & OCR_BUSY != 0,
        (OCR_HCS | 0x00FF_8000) & OCR_BUSY == 0,
        (0u32 | 0x00FF_8000) & OCR_BUSY == 0,
        (OCR_BUSY | OCR_HCS | 0x00FF_8000) & OCR_HCS != 0,
        (OCR_BUSY | 0 | 0x00FF_8000) & OCR_HCS == 0,
        crate::bringup::rca_of((rca as u32) << 16) == rca,
        (crate::bringup::rca_arg(rca) >> 16) as u16 == rca,
{
    assert((0x1AAu32 & 0xFFF) & 0x1FF == 0x1AA) by (bit_vector);
    assert((0x8000_0000u32 | 0x4000_0000 | 0x00FF_8000) & 0x8000_0000 != 0) by (bit_vector);
    assert((0x8000_0000u32 | 0 | 0x00FF_8000) & 0x8000_0000 != 0) by (bit_vector);
    assert((0x4000_0000u32 | 0x00FF_8000) & 0x8000_0000 == 0) by (bit_vector);
    assert((0u32 | 0x00FF_8000) & 0x8000_0000 == 0) by (bit_vector);
    assert((0x8000_0000u32 | 0x4000_0000 | 0x00FF_8000) & 0x4000_0000 != 0) by (bit_vector);
    assert((0x8000_0000u32 | 0 | 0x00FF_8000) & 0x4000_0000 == 0) by (bit_vector);
    assert((((rca as u32) << 16) >> 16) as u16 == rca) by (bit_vector);
}

/// A card that can be brought up: inserted, waiting for a command, and no errors
/// queued for it.
pub open spec fn ready_for_bring_up(host: SimHost) -> bool {
    &&& host.card matches Some(card) && card.wf() && !card.app_cmd_pending
    &&& host.cmd_errors.len() == 0
}

/// The host once the card is idle.
spec fn declined(host: SimHost, tries: int) -> SimHost {
    host.with(SimCard { acmd41_attempts: tries as u32, ..host.card.unwrap().reset() })
}

proof fn lemma_joint_start(info: CardInfo, host: SimHost)
    requires
        ready_for_bring_up(host),
    ensures
        ({
            let start = BringUp { step: Step::Idle, card: info };
            let v2 = host.card.unwrap().config.sd_version == SdVersion::V2;
            joint(start, host, 2) == Some(
                (start.at(Step::AppCmd { v2, tries: 0 }), declined(host, 0)),
            )
        }),
{
    reveal(joint);
    let start = BringUp { step: Step::Idle, card: info };
    lemma_bits(0);
    assert(joint(start, host, 0) == Some((start, host)));
    assert(host.with(host.card.unwrap().reset()) == declined(host, 0));
    assert(joint(start, host, 1) == Some((start.at(Step::IfCond), declined(host, 0))));
}

/// While the card declines, ACMD41 is repeated.
proof fn lemma_joint_polls(info: CardInfo, host: SimHost, tries: int)
    requires
        ready_for_bring_up(host),
        0 <= tries < USDHC_ACMD41_RETRIES,
        tries <= host.card.unwrap().config.acmd41_slow_count,
    ensures
        ({
            let start = BringUp { step: Step::Idle, card: info };
            let v2 = host.card.unwrap().config.sd_version == SdVersion::V2;
            joint(start, host, (2 + 2 * tries) as nat) == Some(
                (start.at(Step::AppCmd { v2, tries }), declined(host, tries)),
            )
        }),
    decreases tries,
{
    reveal(joint);
    let start = BringUp { step: Step::Idle, card: info };
    let v2 = host.card.unwrap().config.sd_version == SdVersion::V2;
    if tries == 0 {
        lemma_joint_start(info, host);
    } else {
        lemma_joint_polls(info, host, tries - 1);
        lemma_bits(0);
        let before = declined(host, tries - 1);
        let announced = before.with(
            SimCard { app_cmd_pending: true, ..before.card.unwrap() },
        );
        assert(joint(start, host, (1 + 2 * tries) as nat) == Some(
            (start.at(Step::OpCond { v2, tries: tries - 1 }), announced),
        ));
        assert(announced.answer(
            start.at(Step::OpCond { v2, tries: tries - 1 }).asks().unwrap(),
        ).0 == declined(host, tries));
    }
}

/// What is known of the card once it was asked for its capacity.
spec fn identified(config: CardConfig) -> CardInfo {
    CardInfo {
        card_type: config.card_type,
        block_count: crate::fake::stated_blocks(config),
        rca: config.rca,
    }
}

/// The host with the card in a later phase.
spec fn standing(host: SimHost, phase: CardPhase) -> SimHost {
    let h = declined(host, host.card.unwrap().config.acmd41_slow_count as int);
    h.with(h.card.unwrap().in_phase(phase))
}

proof fn lemma_joint_ready(info: CardInfo, host: SimHost)
    requires
        ready_for_bring_up(host),
        host.card.unwrap().config.acmd41_slow_count < USDHC_ACMD41_RETRIES,
    ensures
        ({
            let config = host.card.unwrap().config;
            joint(
                BringUp { step: Step::Idle, card: info },
                host,
                (4 + 2 * config.acmd41_slow_count) as nat,
            ) == Some(
                (
                    BringUp {
                        step: Step::Cid,
                        card: CardInfo { card_type: config.card_type, ..info },
                    },
                    standing(host, CardPhase::Ready),
                ),
            )
        }),
{
    reveal(joint);
    let start = BringUp { step: Step::Idle, card: info };
    let config = host.card.unwrap().config;
    let slow = config.acmd41_slow_count as int;
    let v2 = config.sd_version == SdVersion::V2;
    lemma_joint_polls(info, host, slow);
    lemma_bits(config.rca);
    let n = 2 + 2 * slow;
    let h0 = declined(host, slow);
    let h1 = h0.with(SimCard { app_cmd_pending: true, ..h0.card.unwrap() });
    assert(joint(start, host, (n + 1) as nat) == Some(
        (start.at(Step::OpCond { v2, tries: slow }), h1),
    ));
}

proof fn lemma_joint_selected(info: CardInfo, host: SimHost)
    requires
        ready_for_bring_up(host),
        host.card.unwrap().config.acmd41_slow_count < USDHC_ACMD41_RETRIES,
    ensures
        ({
            let config = host.card.unwrap().config;
            joint(
                BringUp { step: Step::Idle, card: info },
                host,
                (8 + 2 * config.acmd41_slow_count) as nat,
            ) == Some(
                (
                    BringUp { step: Step::FastClock, card: identified(config) },
                    standing(host, CardPhase::Transfer),
                ),
            )
        }),
{
    reveal(joint);
    let start = BringUp { step: Step::Idle, card: info };
    let config = host.card.unwrap().config;
    lemma_joint_ready(info, host);
    lemma_bits(config.rca);
    crate::fake::lemma_long(host.card.unwrap().csd);
    let n = 4 + 2 * config.acmd41_slow_count;
    let typed = CardInfo { card_type: config.card_type, ..info };
    assert(joint(start, host, (n + 1) as nat) == Some(
        (
            BringUp { step: Step::Address, card: typed },
            standing(host, CardPhase::Identification),
        ),
    ));
    assert(joint(start, host, (n + 2) as nat) == Some(
        (
            BringUp { step: Step::Csd, card: CardInfo { rca: config.rca, ..typed } },
            standing(host, CardPhase::Standby),
        ),
    ));
    assert(joint(start, host, (n + 3) as nat) == Some(
        (
            BringUp { step: Step::Select, card: identified(config) },
            standing(host, CardPhase::Standby),
        ),
    ));
}

/// A card that keeps declining is given up.
proof fn lemma_joint_given_up(info: CardInfo, host: SimHost)
    requires
        ready_for_bring_up(host),
        host.card.unwrap().config.acmd41_slow_count >= USDHC_ACMD41_RETRIES,
    ensures
        ({
            let start = BringUp { step: Step::Idle, card: info };
            let v2 = host.card.unwrap().config.sd_version == SdVersion::V2;
            let last = joint(start, host, 2001);
            let end = joint(start, host, 2002);
            &&& last is Some
            &&& last.unwrap().0 == start.at(Step::OpCond { v2, tries: 999 })
            &&& end is Some
            &&& end.unwrap().0 == start.at(Step::Failed(SdError::NoCard))
        }),
{
    reveal(joint);
    let start = BringUp { step: Step::Idle, card: info };
    let v2 = host.card.unwrap().config.sd_version == SdVersion::V2;
    lemma_joint_polls(info, host, 999);
    lemma_bits(0);
    let before = declined(host, 999);
    let announced = before.with(SimCard { app_cmd_pending: true, ..before.card.unwrap() });
    assert(joint(start, host, 2001) == Some(
        (start.at(Step::OpCond { v2, tries: 999 }), announced),
    ));
}

/// Where the exchange goes on from where it stood after `n` calls.
proof fn lemma_joint_more(start: BringUp, host: SimHost, n: nat, more: nat)
    requires
        joint(start, host, n) is Some,
    ensures
        ({
            let (now, h) = joint(start, host, n).unwrap();
            joint(start, host, n + more) == joint(now, h, more)
        }),
    decreases more,
{
    reveal(joint);
    if more > 0 {
        lemma_joint_more(start, host, n, (more - 1) as nat);
    }
}

/// Each call leaves fewer that can follow.
proof fn lemma_joint_remaining(start: BringUp, host: SimHost, n: nat, m: nat)
    requires
        n <= m,
        joint(start, host, m) is Some,
        crate::bringup::tries_bounded(start.step),
    ensures
        joint(start, host, n) is Some,
        ({
            let at_n = joint(start, host, n).unwrap().0.step;
            let at_m = joint(start, host, m).unwrap().0.step;
            &&& crate::bringup::tries_bounded(at_m)
            &&& crate::bringup::remaining(at_m) <= crate::bringup::remaining(at_n) - (m - n)
        }),
    decreases m,
{
    if m == 0 {
        reveal(joint);
    } else {
        let last = (m - 1) as nat;
        lemma_joint_prefix(start, host, last, m);
        lemma_joint_remaining(
            start,
            host,
            if n < m {
                n
            } else {
                last
            },
            last,
        );
        lemma_joint_step(start, host, last);
    }
}

proof fn lemma_joint_step(start: BringUp, host: SimHost, n: nat)
    requires
        joint(start, host, n + 1) is Some,
        joint(start, host, n) is Some,
        crate::bringup::tries_bounded(joint(start, host, n).unwrap().0.step),
    ensures
        ({
            let now = joint(start, host, n).unwrap().0.step;
            let next = joint(start, host, n + 1).unwrap().0.step;
            &&& crate::bringup::tries_bounded(next)
            &&& crate::bringup::remaining(next) < crate::bringup::remaining(now)
        }),
{
    reveal(joint);
    let (now, h) = joint(start, host, n).unwrap();
    let call = now.asks().unwrap();
    assert((HostEvent { call, reply: h.answer(call).1 }).answer_fits());
}

/// An exchange by commands alone that reached `FastClock` with its `n`-th call has
/// no more calls than that.
proof fn lemma_commands_stop(
    start: BringUp,
    host: SimHost,
    events: Seq<HostEvent>,
    n: nat,
)
    requires
        start.follow(events) is Some,
        host.replay(events) is Some,
        crate::card::only_commands(events),
        joint(start, host, n) matches Some((now, _)) && now.step is FastClock,
    ensures
        events.len() <= n,
{
    if events.len() > n {
        crate::bringup::lemma_follow_prefix(start, events, n as int);
        crate::bringup::lemma_follow_prefix(start, events, n as int + 1);
        lemma_replay_prefix(host, events, n as int);
        lemma_joint(start, host, events.take(n as int));
        assert(events.take(n as int + 1).drop_last() =~= events.take(n as int));
        assert(events.take(n as int + 1).last() == events[n as int]);
        assert(events[n as int].call is Command);
    }
}

/// Initializing an inserted card succeeds exactly if it powers up within the ACMD41
/// attempts. Then its type, relative address and stated capacity are known, it is
/// selected for data transfer, its blocks are as they were, and so are the host's
/// clock and bus width. A card that does not power up is reported missing.
pub proof fn law_card_init_inserted_card(
    p0: SdProtocol<FakeSdHost>,
    p1: SdProtocol<FakeSdHost>,
    result: Result<(), SdError>,
)
    requires
        ready_for_bring_up(p0.host@),
        crate::card::proceeds(
            p0,
            Step::Idle,
            p1,
            crate::bringup::outcome(result, Step::FastClock),
        ),
        crate::card::only_commands(crate::host::since(&p0.host, &p1.host)),
    ensures
        ({
            let before = p0.host@.card.unwrap();
            if before.config.acmd41_slow_count < USDHC_ACMD41_RETRIES {
                &&& result is Ok
                &&& p1.card() == (CardInfo {
                    card_type: before.config.card_type,
                    block_count: crate::fake::stated_blocks(before.config),
                    rca: before.config.rca,
                })
                &&& p1.host@.clock_hz == p0.host@.clock_hz
                &&& p1.host@.bus_width == p0.host@.bus_width
                &&& selected(p1.host@)
                &&& type_known(p1)
                &&& p1.host@.card.unwrap().config == before.config
                &&& p1.host@.card.unwrap().blocks == before.blocks
                &&& ready_for_bring_up(p1.host@)
            } else {
                result == Err::<(), SdError>(SdError::NoCard)
            }
        }),
{
    let start = BringUp { step: Step::Idle, card: p0.card() };
    let host = p0.host@;
    let events = crate::host::since(&p0.host, &p1.host);
    let len = events.len();
    lemma_replays(p0.host, events, p1.host);
    lemma_joint(start, host, events);
    let slow = host.card.unwrap().config.acmd41_slow_count;
    if slow < USDHC_ACMD41_RETRIES {
        let n = (8 + 2 * slow) as nat;
        lemma_joint_selected(p0.card(), host);
        lemma_commands_stop(start, host, events, n);
        // At `FastClock`, and at a failure, fewer calls can follow than before.
        lemma_joint_remaining(start, host, len, n);
        assert(len == n);
    } else {
        lemma_joint_given_up(p0.card(), host);
        if len <= 2001 {
            lemma_joint_remaining(start, host, len, 2001);
        } else if len > 2002 {
            lemma_joint_prefix(start, host, 2003, len);
            reveal(joint);
        }
    }
}

/// The host at the identification clock.
spec fn slowed(host: SimHost) -> SimHost {
    SimHost { clock_hz: IDENTIFICATION_HZ, bus_width: BusWidth::One, ..host }
}

/// The host is reset and the clock slowed, whatever card there is.
proof fn lemma_joint_idle(info: CardInfo, host: SimHost)
    ensures
        ({
            let start = BringUp { step: Step::Reset, card: info };
            joint(start, host, 3) == Some((start.at(Step::Idle), slowed(host)))
        }),
{
    reveal(joint);
    let start = BringUp { step: Step::Reset, card: info };
    let h1 = SimHost { clock_hz: 0, bus_width: BusWidth::One, ..host };
    assert(joint(start, host, 0) == Some((start, host)));
    assert(joint(start, host, 1) == Some((start.at(Step::SlowClock), h1)));
    assert(joint(start, host, 2) == Some((start.at(Step::Warmup), slowed(host))));
}

/// The host once the card is up.
spec fn up(host: SimHost) -> SimHost {
    SimHost {
        clock_hz: TRANSFER_HZ,
        bus_width: BusWidth::Four,
        ..standing(host, CardPhase::Transfer)
    }
}

proof fn lemma_joint_up(info: CardInfo, host: SimHost)
    requires
        ready_for_bring_up(host),
        host.card.unwrap().config.acmd41_slow_count < USDHC_ACMD41_RETRIES,
    ensures
        ({
            let config = host.card.unwrap().config;
            joint(
                BringUp { step: Step::Reset, card: info },
                host,
                (16 + 2 * config.acmd41_slow_count) as nat,
            ) == Some((BringUp { step: Step::Complete, card: identified(config) }, up(host)))
        }),
{
    reveal(joint);
    let start = BringUp { step: Step::Reset, card: info };
    let config = host.card.unwrap().config;
    let card = identified(config);
    lemma_joint_idle(info, host);
    lemma_joint_selected(info, slowed(host));
    lemma_joint_more(start, host, 3, (8 + 2 * config.acmd41_slow_count) as nat);
    lemma_bits(config.rca);
    let n = 11 + 2 * config.acmd41_slow_count;
    let h1 = SimHost { clock_hz: TRANSFER_HZ, ..standing(slowed(host), CardPhase::Transfer) };
    let h2 = h1.with(SimCard { app_cmd_pending: true, ..h1.card.unwrap() });
    assert(joint(start, host, (n + 1) as nat) == Some(
        (BringUp { step: Step::WidthAppCmd, card }, h1),
    ));
    assert(joint(start, host, (n + 2) as nat) == Some(
        (BringUp { step: Step::WidthCmd, card }, h2),
    ));
    assert(joint(start, host, (n + 3) as nat) == Some((BringUp { step: Step::Width, card }, h1)));
    assert(joint(start, host, (n + 4) as nat) == Some(
        (BringUp { step: Step::BlockLen, card }, up(host)),
    ));
}

/// A card that keeps declining ends in a failure.
proof fn lemma_joint_no_card(info: CardInfo, host: SimHost)
    requires
        ready_for_bring_up(host),
        host.card.unwrap().config.acmd41_slow_count >= USDHC_ACMD41_RETRIES,
    ensures
        ({
            let start = BringUp { step: Step::Reset, card: info };
            &&& joint(start, host, 2005) matches Some((end, _))
            &&& end == start.at(Step::Failed(SdError::NoCard))
        }),
{
    let start = BringUp { step: Step::Reset, card: info };
    lemma_joint_idle(info, host);
    lemma_joint_given_up(info, slowed(host));
    lemma_joint_more(start, host, 3, 2002);
}

/// What is left of the card once it is up.
proof fn lemma_up(host: SimHost)
    requires
        ready_for_bring_up(host),
    ensures
        selected(up(host)),
        ready_for_bring_up(up(host)),
        up(host).card.unwrap().config == host.card.unwrap().config,
        up(host).card.unwrap().blocks == host.card.unwrap().blocks,
        up(host).clock_hz == TRANSFER_HZ,
        up(host).bus_width == BusWidth::Four,
{
}

/// Whether bringing a card up has ended at `step`.
pub open spec fn ended(step: Step) -> bool {
    step is Complete || step is Failed
}

/// Bringing up an inserted card succeeds exactly if it powers up within the
/// ACMD41 attempts. Then its type, relative address and stated capacity are
/// known, it is selected for data transfer at 25 MHz on four data lines, and its
/// blocks are as they were. A card that does not power up is reported missing.
pub proof fn law_bring_up_inserted_card(
    p0: SdProtocol<FakeSdHost>,
    p1: SdProtocol<FakeSdHost>,
    to: Step,
)
    requires
        ready_for_bring_up(p0.host@),
        crate::card::proceeds(p0, Step::Reset, p1, to),
        ended(to),
    ensures
        ({
            let before = p0.host@.card.unwrap();
            if before.config.acmd41_slow_count < USDHC_ACMD41_RETRIES {
                &&& to is Complete
                &&& p1.card() == (CardInfo {
                    card_type: before.config.card_type,
                    block_count: crate::fake::stated_blocks(before.config),
                    rca: before.config.rca,
                })
                &&& p1.host@.clock_hz == TRANSFER_HZ
                &&& p1.host@.bus_width == BusWidth::Four
                &&& selected(p1.host@)
                &&& type_known(p1)
                &&& p1.host@.card.unwrap().config == before.config
                &&& p1.host@.card.unwrap().blocks == before.blocks
                &&& ready_for_bring_up(p1.host@)
            } else {
                to == Step::Failed(SdError::NoCard)
            }
        }),
{
    let start = BringUp { step: Step::Reset, card: p0.card() };
    let events = crate::host::since(&p0.host, &p1.host);
    lemma_replays(p0.host, events, p1.host);
    lemma_joint(start, p0.host@, events);
    let config = p0.host@.card.unwrap().config;
    if config.acmd41_slow_count < USDHC_ACMD41_RETRIES {
        lemma_joint_up(p0.card(), p0.host@);
        lemma_joint_end(
            start,
            p0.host@,
            events.len(),
            (16 + 2 * config.acmd41_slow_count) as nat,
        );
        lemma_up(p0.host@);
    } else {
        lemma_joint_no_card(p0.card(), p0.host@);
        lemma_joint_end(start, p0.host@, events.len(), 2005);
    }
}

/// An empty slot is a timeout.
pub proof fn law_bring_up_empty_slot(
    p0: SdProtocol<FakeSdHost>,
    p1: SdProtocol<FakeSdHost>,
    to: Step,
)
    requires
        p0.host@.card is None,
        p0.host@.cmd_errors.len() == 0,
        crate::card::proceeds(p0, Step::Reset, p1, to),
        ended(to),
    ensures
        to == Step::Failed(SdError::Timeout),
{
    reveal(joint);
    let start = BringUp { step: Step::Reset, card: p0.card() };
    let host = p0.host@;
    let events = crate::host::since(&p0.host, &p1.host);
    lemma_replays(p0.host, events, p1.host);
    lemma_joint(start, host, events);
    lemma_joint_idle(p0.card(), host);
    assert(joint(start, host, 4) == Some(
        (start.at(Step::Failed(SdError::Timeout)), slowed(host)),
    ));
    lemma_joint_end(start, host, events.len(), 4);
}

/// Initializing an empty slot is a timeout.
pub proof fn law_card_init_empty_slot(
    p0: SdProtocol<FakeSdHost>,
    p1: SdProtocol<FakeSdHost>,
    result: Result<(), SdError>,
)
    requires
        p0.host@.card is None,
        p0.host@.cmd_errors.len() == 0,
        crate::card::proceeds(
            p0,
            Step::Idle,
            p1,
            crate::bringup::outcome(result, Step::FastClock),
        ),
    ensures
        result == Err::<(), SdError>(SdError::Timeout),
{
    reveal(joint);
    let start = BringUp { step: Step::Idle, card: p0.card() };
    let events = crate::host::since(&p0.host, &p1.host);
    lemma_replays(p0.host, events, p1.host);
    lemma_joint(start, p0.host@, events);
    assert(joint(start, p0.host@, 0) == Some((start, p0.host@)));
    assert(joint(start, p0.host@, 1) == Some(
        (start.at(Step::Failed(SdError::Timeout)), p0.host@),
    ));
    if events.len() > 1 {
        lemma_joint_prefix(start, p0.host@, 2, events.len());
    }
}

/// What a card holds survives a power cycle: once the card was brought up again,
/// a block reads as it did before.
pub proof fn law_power_cycle_keeps_blocks(
    p0: SdProtocol<FakeSdHost>,
    lba: u32,
    before: Seq<u8>,
    p1: SdProtocol<FakeSdHost>,
    p2: SdProtocol<FakeSdHost>,
    p3: SdProtocol<FakeSdHost>,
    after: Seq<u8>,
    p4: SdProtocol<FakeSdHost>,
)
    requires
        type_known(p0),
        crate::card::read_one(p0, lba, Ok(()), before, p1),
        // The power cycle.
        p2.host@.card == Some(p1.host@.card.unwrap().reset()),
        ready_for_bring_up(p2.host@),
        crate::card::proceeds(p2, Step::Reset, p3, Step::Complete),
        crate::card::read_one(p3, lba, Ok(()), after, p4),
    ensures
        after == before,
{
    law_bring_up_inserted_card(p2, p3, Step::Complete);
}

} // verus!
