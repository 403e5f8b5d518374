//! The boundary between the SD protocol and the host controller.

use vstd::prelude::*;
use crate::cmd::UsdCmdFlags;
use crate::error::SdError;

verus! {

/// Response from a command.
///
/// For 48-bit responses (R1, R3, R6, R7) only `rsp0` is valid. For 136-bit
/// responses (R2) the four fields hold the CID or CSD register with its bits at
/// the positions of the SD specification: bit N of the register is bit N of the
/// 128-bit value `rsp3 : rsp2 : rsp1 : rsp0`.
#[derive(Debug, Clone, Copy, PartialEq, Eq, Structural)]
pub struct CmdResponse {
    pub rsp0: u32,
    pub rsp1: u32,
    pub rsp2: u32,
    pub rsp3: u32,
}

impl CmdResponse {
    /// The response as one 128-bit value.
    pub open spec fn bits(self) -> u128 {
        (self.rsp3 as u128) << 96 | (self.rsp2 as u128) << 64 | (self.rsp1 as u128) << 32 | (
        self.rsp0 as u128)
    }
}

/// SD bus width.
#[derive(Debug, Clone, Copy, PartialEq, Eq, Structural)]
pub enum BusWidth {
    /// 1-bit mode (DAT0 only). Used during identification.
    One,
    /// 4-bit mode (DAT0-DAT3). Used after initialization.
    Four,
}

/// What can be asked of a host.
#[verifier::ext_equal]
pub enum HostCall {
    /// Send a command.
    Command { cmd_index: u32, arg: u32, flags: UsdCmdFlags },
    /// Read a block with a data command.
    Read { cmd_index: u32, arg: u32 },
    /// Write a block with a data command.
    Write { cmd_index: u32, arg: u32, data: Seq<u8> },
    /// Switch the clock to the given frequency or lower.
    Clock { target_hz: u32 },
    /// Set the bus width.
    Width { width: BusWidth },
    /// Reset and configure the peripheral.
    Reset,
    /// Send the initialization clocks.
    InitialClocks,
}

/// What a host can answer.
#[verifier::ext_equal]
pub enum HostReply {
    /// The response of a command.
    Response(CmdResponse),
    /// The 512 bytes of a block that was read.
    Data(Seq<u8>),
    /// Nothing but that it was done.
    Done,
    /// It failed.
    Failed(SdError),
}

/// A call of a host and its answer.
#[verifier::ext_equal]
pub struct HostEvent {
    pub call: HostCall,
    pub reply: HostReply,
}

impl HostEvent {
    /// Whether the answer is of the kind that the call has. Every event that a
    /// host records is.
    pub open spec fn answer_fits(self) -> bool {
        match self.call {
            HostCall::Command { .. } => self.reply is Response || self.reply is Failed,
            HostCall::Read { .. } => self.reply is Data || self.reply is Failed,
            HostCall::Write { .. } => self.reply is Done || self.reply is Failed,
            _ => self.reply is Done,
        }
    }
}

/// The answer to a command, as an event's reply.
pub open spec fn command_reply(result: Result<CmdResponse, SdError>) -> HostReply {
    match result {
        Ok(response) => HostReply::Response(response),
        Err(e) => HostReply::Failed(e),
    }
}

/// The answer to a read that left `buf`, as an event's reply.
pub open spec fn read_reply(result: Result<(), SdError>, buf: Seq<u8>) -> HostReply {
    match result {
        Ok(()) => HostReply::Data(buf),
        Err(e) => HostReply::Failed(e),
    }
}

/// The answer to a write, as an event's reply.
pub open spec fn write_reply(result: Result<(), SdError>) -> HostReply {
    match result {
        Ok(()) => HostReply::Done,
        Err(e) => HostReply::Failed(e),
    }
}

/// Minimal hardware interface of the SD protocol layer.
///
/// A host has a history: everything that was asked of it, with its answers. The
/// methods promise no more than to be recorded there; what a host answers is its
/// own affair, and `answers` is the place where one with known behaviour says what
/// that is.
pub trait SdHost: Sized {
    /// The calls so far and their answers, oldest first. Of a host that does not say
    /// what they are, nothing is known but that they depend on the host.
    open spec fn log(&self) -> Seq<HostEvent> {
        arbitrary::<spec_fn(Self) -> Seq<HostEvent>>()(*self)
    }

    /// Whether a host that is `self`, asked for the event's call, can give the
    /// event's answer and be `later` after that.
    open spec fn answers(&self, event: HostEvent, later: &Self) -> bool {
        true
    }

    /// Send a command and return the response registers.
    fn send_cmd(&mut self, cmd_index: u32, arg: u32, flags: UsdCmdFlags) -> (result: Result<
        CmdResponse,
        SdError,
    >)
        ensures
            ({
                let event = HostEvent {
                    call: HostCall::Command { cmd_index, arg, flags },
                    reply: command_reply(result),
                };
                &&& final(self).log() == old(self).log().push(event)
                &&& old(self).answers(event, final(self))
            }),
    ;

    /// Issue a read data command and transfer 512 bytes into `buf`.
    fn read_block(&mut self, cmd_index: u32, arg: u32, buf: &mut [u8; 512]) -> (result: Result<
        (),
        SdError,
    >)
        ensures
            ({
                let event = HostEvent {
                    call: HostCall::Read { cmd_index, arg },
                    reply: read_reply(result, final(buf)@),
                };
                &&& final(self).log() == old(self).log().push(event)
                &&& old(self).answers(event, final(self))
            }),
    ;

    /// Issue a write data command and transfer 512 bytes from `buf`.
    fn write_block(&mut self, cmd_index: u32, arg: u32, buf: &[u8; 512]) -> (result: Result<
        (),
        SdError,
    >)
        ensures
            ({
                let event = HostEvent {
                    call: HostCall::Write { cmd_index, arg, data: buf@ },
                    reply: write_reply(result),
                };
                &&& final(self).log() == old(self).log().push(event)
                &&& old(self).answers(event, final(self))
            }),
    ;

    /// Switch the SD clock to the given frequency (or lower).
    fn set_clock(&mut self, target_hz: u32)
        ensures
            ({
                let event = HostEvent {
                    call: HostCall::Clock { target_hz },
                    reply: HostReply::Done,
                };
                &&& final(self).log() == old(self).log().push(event)
                &&& old(self).answers(event, final(self))
            }),
    ;

    /// Set the bus width at the hardware level.
    fn set_bus_width(&mut self, width: BusWidth)
        ensures
            ({
                let event = HostEvent { call: HostCall::Width { width }, reply: HostReply::Done };
                &&& final(self).log() == old(self).log().push(event)
                &&& old(self).answers(event, final(self))
            }),
    ;

    /// Reset the peripheral and apply the initial register configuration. This
    /// does not power-cycle the card.
    fn reset_and_configure(&mut self)
        ensures
            ({
                let event = HostEvent { call: HostCall::Reset, reply: HostReply::Done };
                &&& final(self).log() == old(self).log().push(event)
                &&& old(self).answers(event, final(self))
            }),
    ;

    /// Send the 80 initialization clock cycles.
    fn send_initial_clocks(&mut self)
        ensures
            ({
                let event = HostEvent { call: HostCall::InitialClocks, reply: HostReply::Done };
                &&& final(self).log() == old(self).log().push(event)
                &&& old(self).answers(event, final(self))
            }),
    ;
}

/// Whether `before` can have become `after` by giving the answers of `events`.
pub open spec fn path<H: SdHost>(before: &H, events: Seq<HostEvent>, after: &H) -> bool
    decreases events.len(),
{
    if events.len() == 0 {
        *after == *before
    } else {
        exists|last: H|
            path(before, events.drop_last(), &last) && #[trigger] last.answers(events.last(), after)
    }
}

/// The calls that `after` has answered since it was `before`.
pub open spec fn since<H: SdHost>(before: &H, after: &H) -> Seq<HostEvent> {
    after.log().skip(before.log().len() as int)
}

/// Whether `before` has become `after` by answering exactly the calls `events`.
pub open spec fn answered<H: SdHost>(before: &H, events: Seq<HostEvent>, after: &H) -> bool {
    &&& after.log() == before.log() + events
    &&& path(before, events, after)
}

pub(crate) proof fn lemma_answered_nothing<H: SdHost>(h: &H)
    ensures
        answered(h, Seq::empty(), h),
{
    assert(h.log() =~= h.log() + Seq::<HostEvent>::empty());
}

pub(crate) proof fn lemma_answered_one<H: SdHost>(
    h0: &H,
    events: Seq<HostEvent>,
    h1: &H,
    event: HostEvent,
    h2: &H,
)
    requires
        answered(h0, events, h1),
        h2.log() == h1.log().push(event),
        h1.answers(event, h2),
    ensures
        answered(h0, events.push(event), h2),
{
    assert(h2.log() =~= h0.log() + events.push(event));
    let all = events.push(event);
    assert(all.drop_last() =~= events);
    assert(path(h0, all.drop_last(), h1) && h1.answers(all.last(), h2));
}

pub(crate) proof fn lemma_answered_more<H: SdHost>(
    h0: &H,
    events: Seq<HostEvent>,
    h1: &H,
    more: Seq<HostEvent>,
    h2: &H,
)
    requires
        answered(h0, events, h1),
        answered(h1, more, h2),
    ensures
        answered(h0, events + more, h2),
{
    lemma_path_more(h0, events, h1, more, h2);
    assert(h2.log() =~= h0.log() + (events + more));
}

proof fn lemma_path_more<H: SdHost>(
    h0: &H,
    events: Seq<HostEvent>,
    h1: &H,
    more: Seq<HostEvent>,
    h2: &H,
)
    requires
        path(h0, events, h1),
        path(h1, more, h2),
    ensures
        path(h0, events + more, h2),
    decreases more.len(),
{
    if more.len() == 0 {
        assert(events + more =~= events);
    } else {
        let last = choose|last: H|
            path(h1, more.drop_last(), &last) && #[trigger] last.answers(more.last(), h2);
        lemma_path_more(h0, events, h1, more.drop_last(), &last);
        assert((events + more).drop_last() =~= events + more.drop_last());
        assert((events + more).last() == more.last());
    }
}

pub(crate) proof fn lemma_since<H: SdHost>(h0: &H, events: Seq<HostEvent>, h1: &H)
    requires
        answered(h0, events, h1),
    ensures
        since(h0, h1) == events,
{
    assert(since(h0, h1) =~= events);
}

/// No two responses have the same bits.
pub proof fn law_bits_distinct(a: CmdResponse, b: CmdResponse)
    requires
        a.bits() == b.bits(),
    ensures
        a == b,
{
    let (a0, a1, a2, a3) = (a.rsp0, a.rsp1, a.rsp2, a.rsp3);
    let (b0, b1, b2, b3) = (b.rsp0, b.rsp1, b.rsp2, b.rsp3);
    assert(a0 == b0 && a1 == b1 && a2 == b2 && a3 == b3) by (bit_vector)
        requires
            (a3 as u128) << 96 | (a2 as u128) << 64 | (a1 as u128) << 32 | (a0 as u128) == (
            b3 as u128) << 96 | (b2 as u128) << 64 | (b1 as u128) << 32 | (b0 as u128),
    ;
}

/// The four words of a response stand in its bits one above the other, `rsp0` lowest.
pub proof fn law_bits_in_words(r: CmdResponse)
    ensures
        r.bits() == r.rsp0 + 0x1_0000_0000 * r.rsp1 + 0x1_0000_0000_0000_0000 * r.rsp2
            + 0x1_0000_0000_0000_0000_0000_0000 * r.rsp3,
{
    let (a, b, c, d) = (r.rsp0, r.rsp1, r.rsp2, r.rsp3);
    assert((d as u128) << 96 | (c as u128) << 64 | (b as u128) << 32 | (a as u128) == a
        + 0x1_0000_0000 * b + 0x1_0000_0000_0000_0000 * c + 0x1_0000_0000_0000_0000_0000_0000 * d)
        by (bit_vector);
}

} // verus!
