//! The driver.

use vstd::prelude::*;
use crate::bringup::Step;
use crate::card::SdProtocol;
use crate::cmd::{UsdCmdFlags, CMD13_SEND_STATUS};
use crate::error::{CardType, SdError};
use crate::host::{HostCall, HostEvent, HostReply, SdHost};

verus! {

/// A 512-byte block.
#[derive(Debug, Clone, Copy)]
pub struct Block {
    pub contents: [u8; 512],
}

impl Block {
    /// A block of zeros.
    pub fn new() -> (b: Block)
        ensures
            b.contents@ == Seq::new(512, |i: int| 0u8),
    {
        let contents = [0u8;512];
        assert forall|i: int| 0 <= i < 512 implies contents@[i] == 0u8 by {
            assert(vstd::array::spec_array_fill_for_copy_type::<u8, 512>(0u8).view()[i] == 0u8);
        }
        assert(contents@ =~= Seq::new(512, |i: int| 0u8));
        Block { contents }
    }
}

/// USDHC SD card driver: a card that has been brought up, and its host.
pub struct Usdhc<H> {
    proto: SdProtocol<H>,
}

/// How many calls succeeded among `events`, of which only the last can fail.
pub open spec fn successes(events: Seq<HostEvent>) -> int {
    if events.len() > 0 && events.last().reply is Failed {
        events.len() - 1
    } else {
        events.len() as int
    }
}

/// Whether `before` has become `after` by reading blocks from `start` on over
/// `old_blocks`, which left `new_blocks`.
///
/// The blocks are read one at a time up to the first failure, which is the
/// result: the host's error, or a timeout if the block has no address. The
/// blocks beyond it are left alone; one whose read the host failed may hold
/// anything.
pub open spec fn reads<H: SdHost>(
    before: SdProtocol<H>,
    start: u32,
    old_blocks: Seq<Block>,
    result: Result<(), SdError>,
    new_blocks: Seq<Block>,
    after: SdProtocol<H>,
) -> bool {
    let events = crate::host::since(&before.host, &after.host);
    let done = successes(events);
    &&& after.card() == before.card()
    &&& crate::host::answered(&before.host, events, &after.host)
    &&& new_blocks.len() == old_blocks.len()
    &&& 0 <= done <= old_blocks.len()
    &&& forall|i: int|
        0 <= i < done ==> {
            &&& crate::csd::card_address(before.card_type, (start + i) as u32) is Some
            &&& #[trigger] events[i] == crate::card::read_event(
                crate::csd::card_address(before.card_type, (start + i) as u32).unwrap(),
                HostReply::Data(new_blocks[i].contents@),
            )
        }
    &&& forall|i: int| done < i < old_blocks.len() ==> #[trigger] new_blocks[i] == old_blocks[i]
    &&& match result {
        Ok(()) => done == old_blocks.len() && events.len() == done,
        Err(e) => done < old_blocks.len() && match crate::csd::card_address(
            before.card_type,
            (start + done) as u32,
        ) {
            None => {
                &&& e == SdError::Timeout
                &&& events.len() == done
                &&& new_blocks[done] == old_blocks[done]
            },
            Some(arg) => {
                &&& events.len() == done + 1
                &&& events[done] == crate::card::read_event(arg, HostReply::Failed(e))
            },
        },
    }
}

/// Whether `before` has become `after` by writing `blocks` from `start` on.
///
/// The blocks are written one at a time up to the first failure, which is the
/// result: the host's error, or a timeout if the block has no address.
pub open spec fn writes<H: SdHost>(
    before: SdProtocol<H>,
    start: u32,
    blocks: Seq<Block>,
    result: Result<(), SdError>,
    after: SdProtocol<H>,
) -> bool {
    let events = crate::host::since(&before.host, &after.host);
    let done = successes(events);
    &&& after.card() == before.card()
    &&& crate::host::answered(&before.host, events, &after.host)
    &&& 0 <= done <= blocks.len()
    &&& forall|i: int|
        0 <= i < done ==> {
            &&& crate::csd::card_address(before.card_type, (start + i) as u32) is Some
            &&& #[trigger] events[i] == crate::card::write_event(
                crate::csd::card_address(before.card_type, (start + i) as u32).unwrap(),
                blocks[i].contents@,
                HostReply::Done,
            )
        }
    &&& match result {
        Ok(()) => done == blocks.len() && events.len() == done,
        Err(e) => done < blocks.len() && match crate::csd::card_address(
            before.card_type,
            (start + done) as u32,
        ) {
            None => e == SdError::Timeout && events.len() == done,
            Some(arg) => {
                &&& events.len() == done + 1
                &&& events[done] == crate::card::write_event(
                    arg,
                    blocks[done].contents@,
                    HostReply::Failed(e),
                )
            },
        },
    }
}

/// Whether `before` has become `after` by asking for the card's status: the host is
/// asked once, with CMD13 and the card's relative address, and the result is what
/// its answer says.
pub open spec fn asks_status<H: SdHost>(
    before: SdProtocol<H>,
    result: Result<u32, SdError>,
    after: SdProtocol<H>,
) -> bool {
    let events = crate::host::since(&before.host, &after.host);
    &&& after.card() == before.card()
    &&& crate::host::answered(&before.host, events, &after.host)
    &&& events.len() == 1
    &&& events[0].call == (HostCall::Command {
        cmd_index: CMD13_SEND_STATUS,
        arg: crate::bringup::rca_arg(before.rca),
        flags: UsdCmdFlags::R1,
    })
    &&& match result {
        Ok(status) => events[0].reply matches HostReply::Response(r) && r.rsp0 == status,
        Err(e) => events[0].reply == HostReply::Failed(e),
    }
}

impl<H: SdHost> Usdhc<H> {
    /// The protocol layer.
    pub closed spec fn protocol(self) -> SdProtocol<H> {
        self.proto
    }

    /// Initialize the host and detect the inserted SD card.
    ///
    /// Resets the host, runs the SD initialization sequence (CMD0, CMD8, ACMD41,
    /// CMD2, CMD3, CMD9, CMD7), then switches to 25 MHz, four data lines and
    /// 512-byte blocks. Fails if no card is detected or initialization fails.
    pub fn new(host: H) -> (result: Result<Self, SdError>)
        ensures
            ({
                let fresh = SdProtocol {
                    host,
                    card_type: CardType::Sdhc,
                    block_count: 0,
                    rca: 0,
                };
                match result {
                    Ok(driver) => crate::card::proceeds(
                        fresh,
                        Step::Reset,
                        driver.protocol(),
                        Step::Complete,
                    ),
                    Err(e) => exists|p: SdProtocol<H>| #[trigger]
                        crate::card::proceeds(fresh, Step::Reset, p, Step::Failed(e)),
                }
            }),
    {
        Self::init_protocol(
            SdProtocol { host, card_type: CardType::Sdhc, block_count: 0, rca: 0 },
        )
    }

    /// Run the full SD initialization sequence.
    pub fn init_protocol(proto: SdProtocol<H>) -> (result: Result<Self, SdError>)
        ensures
            match result {
                Ok(driver) => crate::card::proceeds(
                    proto,
                    Step::Reset,
                    driver.protocol(),
                    Step::Complete,
                ),
                Err(e) => exists|p: SdProtocol<H>| #[trigger]
                    crate::card::proceeds(proto, Step::Reset, p, Step::Failed(e)),
            },
    {
        let mut p = proto;
        match p.bring_up() {
            Ok(()) => Ok(Usdhc { proto: p }),
            Err(e) => Err(e),
        }
    }

    /// Return the card type (SDSC or SDHC).
    pub fn card_type(&self) -> (t: CardType)
        ensures
            t == self.protocol().card_type,
    {
        self.proto.card_type
    }

    /// Return the total number of 512-byte blocks on the card.
    pub fn block_count(&self) -> (n: u32)
        ensures
            n == self.protocol().block_count,
    {
        self.proto.block_count
    }

    /// Return the total capacity in megabytes.
    pub fn capacity_mb(&self) -> (n: u32)
        ensures
            n == self.protocol().block_count as int / 2048,
            2048 * n <= self.protocol().block_count < 2048 * n + 2048,
    {
        self.proto.block_count / 2048
    }

    /// Query the card's current status via CMD13 (SEND_STATUS).
    pub fn card_status(&mut self) -> (result: Result<u32, SdError>)
        ensures
            asks_status(old(self).protocol(), result, final(self).protocol()),
    {
        let ghost p0 = self.proto;
        let arg: u32 = (self.proto.rca as u32) << 16;
        let reply = self.proto.send_cmd(CMD13_SEND_STATUS, arg, UsdCmdFlags::R1);
        proof {
            let event = crate::card::command_event(CMD13_SEND_STATUS, arg, UsdCmdFlags::R1, reply);
            crate::host::lemma_since(&p0.host, seq![event], &self.proto.host);
        }
        match reply {
            Ok(response) => Ok(response.rsp0),
            Err(e) => Err(e),
        }
    }

    /// Read blocks, starting at the given block index.
    pub fn read(&mut self, blocks: &mut [Block], start_block_idx: u32) -> (result: Result<
        (),
        SdError,
    >)
        requires
            start_block_idx + old(blocks)@.len() <= 0x1_0000_0000,
        ensures
            reads(
                old(self).protocol(),
                start_block_idx,
                old(blocks)@,
                result,
                final(blocks)@,
                final(self).protocol(),
            ),
    {
        let ghost p0 = self.proto;
        let ghost before = blocks@;
        let ghost mut events = Seq::<HostEvent>::empty();
        proof {
            crate::host::lemma_answered_nothing(&p0.host);
        }
        let mut i: usize = 0;
        while i < blocks.len()
            invariant
                p0 == old(self).proto,
                before == old(blocks)@,
                blocks@.len() == before.len(),
                start_block_idx + before.len() <= 0x1_0000_0000,
                i <= before.len(),
                self.proto.card() == p0.card(),
                events.len() == i,
                crate::host::answered(&p0.host, events, &self.proto.host),
                forall|j: int|
                    0 <= j < i ==> {
                        &&& crate::csd::card_address(
                            p0.card_type,
                            (start_block_idx + j) as u32,
                        ) is Some
                        &&& #[trigger] events[j] == crate::card::read_event(
                            crate::csd::card_address(
                                p0.card_type,
                                (start_block_idx + j) as u32,
                            ).unwrap(),
                            HostReply::Data(blocks@[j].contents@),
                        )
                    },
                forall|j: int| i <= j < before.len() ==> #[trigger] blocks@[j] == before[j],
            decreases before.len() - i,
        {
            let ghost p1 = self.proto;
            let lba: u32 = start_block_idx + i as u32;
            let result = self.proto.read_single_block(lba, &mut blocks[i].contents);
            let ghost address = crate::csd::card_address(p0.card_type, lba);
            proof {
                if address is Some {
                    let event = crate::card::read_event(
                        address.unwrap(),
                        crate::host::read_reply(result, blocks@[i as int].contents@),
                    );
                    crate::host::lemma_answered_one(
                        &p0.host,
                        events,
                        &p1.host,
                        event,
                        &self.proto.host,
                    );
                    events = events.push(event);
                }
            }
            match result {
                Ok(()) => {},
                Err(e) => {
                    proof {
                        crate::host::lemma_since(&p0.host, events, &self.proto.host);
                        if address is None {
                            assert(blocks@[i as int].contents@ =~= before[i as int].contents@);
                            assert(blocks@[i as int].contents =~= before[i as int].contents);
                        }
                    }
                    return Err(e);
                },
            }
            i = i + 1;
        }
        proof {
            crate::host::lemma_since(&p0.host, events, &self.proto.host);
        }
        Ok(())
    }

    /// Write blocks, starting at the given block index.
    pub fn write(&mut self, blocks: &[Block], start_block_idx: u32) -> (result: Result<(), SdError>)
        requires
            start_block_idx + blocks@.len() <= 0x1_0000_0000,
        ensures
            writes(
                old(self).protocol(),
                start_block_idx,
                blocks@,
                result,
                final(self).protocol(),
            ),
    {
        let ghost p0 = self.proto;
        let ghost mut events = Seq::<HostEvent>::empty();
        proof {
            crate::host::lemma_answered_nothing(&p0.host);
        }
        let mut i: usize = 0;
        while i < blocks.len()
            invariant
                p0 == old(self).proto,
                start_block_idx + blocks@.len() <= 0x1_0000_0000,
                i <= blocks@.len(),
                self.proto.card() == p0.card(),
                events.len() == i,
                crate::host::answered(&p0.host, events, &self.proto.host),
                forall|j: int|
                    0 <= j < i ==> {
                        &&& crate::csd::card_address(
                            p0.card_type,
                            (start_block_idx + j) as u32,
                        ) is Some
                        &&& #[trigger] events[j] == crate::card::write_event(
                            crate::csd::card_address(
                                p0.card_type,
                                (start_block_idx + j) as u32,
                            ).unwrap(),
                            blocks@[j].contents@,
                            HostReply::Done,
                        )
                    },
            decreases blocks@.len() - i,
        {
            let ghost p1 = self.proto;
            let lba: u32 = start_block_idx + i as u32;
            let result = self.proto.write_single_block(lba, &blocks[i].contents);
            proof {
                let address = crate::csd::card_address(p0.card_type, lba);
                if address is Some {
                    let event = crate::card::write_event(
                        address.unwrap(),
                        blocks@[i as int].contents@,
                        crate::host::write_reply(result),
                    );
                    crate::host::lemma_answered_one(
                        &p0.host,
                        events,
                        &p1.host,
                        event,
                        &self.proto.host,
                    );
                    events = events.push(event);
                }
            }
            match result {
                Ok(()) => {},
                Err(e) => {
                    proof {
                        crate::host::lemma_since(&p0.host, events, &self.proto.host);
                    }
                    return Err(e);
                },
            }
            i = i + 1;
        }
        proof {
            crate::host::lemma_since(&p0.host, events, &self.proto.host);
        }
        Ok(())
    }

    /// Determine how many blocks the card holds.
    pub fn num_blocks(&self) -> (result: Result<u32, SdError>)
        ensures
            result == Ok::<u32, SdError>(self.protocol().block_count),
    {
        Ok(self.proto.block_count)
    }

    /// The underlying host.
    pub fn host(&self) -> (host: &H)
        ensures
            *host == self.protocol().host,
    {
        &self.proto.host
    }

    /// The underlying host, to be changed.
    pub fn host_mut(&mut self) -> (host: &mut H)
        ensures
            *host == old(self).protocol().host,
            final(self).protocol() == (SdProtocol { host: *final(host), ..old(self).protocol() }),
    {
        &mut self.proto.host
    }

    /// Give the driver up and return the underlying host.
    pub fn into_host(self) -> (host: H)
        ensures
            host == self.protocol().host,
    {
        self.proto.host
    }
}

/// Reading blocks from `start` on asks the host for one block after the other with
/// CMD17: for block `start + i` on a high capacity card and for byte
/// `512 * (start + i)` on a standard capacity card. What the host gives for a block is
/// what is left in its place, and the blocks that are not asked for are left alone. All
/// were given if it succeeds; else the last call failed with the very error, or the
/// next block lies beyond the 2^23 of a standard capacity card that can be addressed,
/// which is a timeout.
pub proof fn law_reads<H: SdHost>(
    driver: &mut Usdhc<H>,
    blocks: &mut [Block],
    start: u32,
    result: Result<(), SdError>,
)
    requires
        start + old(blocks)@.len() <= 0x1_0000_0000,
        call_ensures(Usdhc::<H>::read, (driver, blocks, start), result),
    ensures
        ({
            let (before, after) = (old(driver).protocol(), final(driver).protocol());
            let (old_blocks, new_blocks) = (old(blocks)@, final(blocks)@);
            let events = crate::host::since(&before.host, &after.host);
            let n = events.len() as int;
            let unit = if before.card_type is Sdhc {
                1int
            } else {
                512
            };
            &&& after.card() == before.card()
            &&& new_blocks.len() == old_blocks.len()
            &&& n <= old_blocks.len()
            &&& forall|i: int|
                0 <= i < n ==> (#[trigger] events[i]).call == (HostCall::Read {
                    cmd_index: 17,
                    arg: (unit * (start + i)) as u32,
                }) && unit * (start + i) < 0x1_0000_0000
            &&& forall|i: int|
                0 <= i < n ==> (#[trigger] events[i]).reply is Failed || events[i].reply
                    == HostReply::Data(new_blocks[i].contents@)
            &&& forall|i: int|
                n <= i < old_blocks.len() ==> #[trigger] new_blocks[i] == old_blocks[i]
            &&& forall|i: int| 0 <= i < n - 1 ==> !((#[trigger] events[i]).reply is Failed)
            &&& result is Ok ==> n == old_blocks.len() && (n > 0 ==> !(events[n
                - 1].reply is Failed))
            &&& result matches Err(e) ==> {
                ||| n > 0 && events[n - 1].reply == HostReply::Failed(e)
                ||| {
                    &&& e == SdError::Timeout
                    &&& before.card_type is Sdsc
                    &&& n < old_blocks.len()
                    &&& start + n >= 0x80_0000
                    &&& n > 0 ==> !(events[n - 1].reply is Failed)
                }
            }
        }),
{
}

/// Writing blocks from `start` on hands the host one block after the other with CMD24,
/// at the same places as for reading. All were taken if it succeeds; else the last call
/// failed with the very error, or the next block lies beyond the 2^23 of a standard
/// capacity card that can be addressed, which is a timeout.
pub proof fn law_writes<H: SdHost>(
    driver: &mut Usdhc<H>,
    given: &[Block],
    start: u32,
    result: Result<(), SdError>,
)
    requires
        start + given@.len() <= 0x1_0000_0000,
        call_ensures(Usdhc::<H>::write, (driver, given, start), result),
    ensures
        ({
            let (before, after) = (old(driver).protocol(), final(driver).protocol());
            let blocks = given@;
            let events = crate::host::since(&before.host, &after.host);
            let n = events.len() as int;
            let unit = if before.card_type is Sdhc {
                1int
            } else {
                512
            };
            &&& after.card() == before.card()
            &&& n <= blocks.len()
            &&& forall|i: int|
                0 <= i < n ==> (#[trigger] events[i]).call == (HostCall::Write {
                    cmd_index: 24,
                    arg: (unit * (start + i)) as u32,
                    data: blocks[i].contents@,
                }) && unit * (start + i) < 0x1_0000_0000
            &&& forall|i: int|
                0 <= i < n ==> (#[trigger] events[i]).reply is Failed || events[i].reply
                    == HostReply::Done
            &&& forall|i: int| 0 <= i < n - 1 ==> !((#[trigger] events[i]).reply is Failed)
            &&& result is Ok ==> n == blocks.len() && (n > 0 ==> !(events[n - 1].reply is Failed))
            &&& result matches Err(e) ==> {
                ||| n > 0 && events[n - 1].reply == HostReply::Failed(e)
                ||| {
                    &&& e == SdError::Timeout
                    &&& before.card_type is Sdsc
                    &&& n < blocks.len()
                    &&& start + n >= 0x80_0000
                    &&& n > 0 ==> !(events[n - 1].reply is Failed)
                }
            }
        }),
{
}

/// The card's status is asked for with one command, CMD13, with the relative address in
/// the upper half of the argument, and is the first word of the response.
pub proof fn law_asks_status<H: SdHost>(driver: &mut Usdhc<H>, result: Result<u32, SdError>)
    requires
        call_ensures(Usdhc::<H>::card_status, (driver,), result),
    ensures
        ({
            let (before, after) = (old(driver).protocol(), final(driver).protocol());
            let events = crate::host::since(&before.host, &after.host);
            &&& after.card() == before.card()
            &&& events.len() == 1
            &&& events[0].call matches HostCall::Command { cmd_index, arg, flags } && cmd_index
                == 13 && arg == 0x1_0000 * before.rca && flags is R1
            &&& result matches Ok(status) ==> events[0].reply matches HostReply::Response(r)
                && r.rsp0 == status
            &&& result matches Err(e) ==> events[0].reply == HostReply::Failed(e)
        }),
{
    crate::bringup::lemma_rca_arg(old(driver).protocol().rca);
}

/// What a driver tells of its card: the type and the number of blocks that the protocol
/// layer knows, under both names, and the number of whole megabytes, which are 2048
/// blocks each.
pub proof fn law_driver_tells<H: SdHost>(
    driver: Usdhc<H>,
    card_type: CardType,
    count: u32,
    blocks: Result<u32, SdError>,
    megabytes: u32,
)
    requires
        call_ensures(Usdhc::<H>::card_type, (&driver,), card_type),
        call_ensures(Usdhc::<H>::block_count, (&driver,), count),
        call_ensures(Usdhc::<H>::num_blocks, (&driver,), blocks),
        call_ensures(Usdhc::<H>::capacity_mb, (&driver,), megabytes),
    ensures
        card_type == driver.protocol().card_type,
        count == driver.protocol().block_count,
        blocks == Ok::<u32, SdError>(count),
        2048 * megabytes <= count < 2048 * megabytes + 2048,
{
}

/// A new block holds nothing but zeros.
pub proof fn law_new_block(block: Block, i: int)
    requires
        call_ensures(Block::new, (), block),
        0 <= i < 512,
    ensures
        block.contents@[i] == 0,
{
}

/// A driver hands out its own host: to be looked at, to be changed, with what is known of
/// the card unchanged, and for good.
pub proof fn law_host_handed_out<H: SdHost>(
    driver: &mut Usdhc<H>,
    seen: &H,
    lent: &mut H,
    given: H,
)
    requires
        call_ensures(Usdhc::<H>::host, (&*old(driver),), seen),
        call_ensures(Usdhc::<H>::into_host, (*old(driver),), given),
        call_ensures(Usdhc::<H>::host_mut, (driver,), lent),
    ensures
        *seen == old(driver).protocol().host,
        given == *seen,
        *old(lent) == *seen,
        final(driver).protocol().host == *final(lent),
        final(driver).protocol().card() == old(driver).protocol().card(),
{
}

} // verus!
