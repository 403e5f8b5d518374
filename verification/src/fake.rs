//! A simulated host and card, for running the driver without hardware.
//!
//! [`FakeSdHost`] implements [`SdHost`] with a state machine that tracks the
//! card's phase through the SD initialization sequence:
//!
//! ```text
//!   CMD0 (any phase) -> Idle -> (ACMD41, powered up) -> Ready -> (CMD2) ->
//!   Identification -> (CMD3) -> Standby -> (CMD7) -> Transfer
//! ```

use std::collections::{HashMap, VecDeque};
use vstd::prelude::*;
use crate::cmd::{
    UsdCmdFlags, ACMD41_SD_SEND_OP_COND, ACMD6_SET_BUS_WIDTH, CMD0_GO_IDLE_STATE,
    CMD13_SEND_STATUS, CMD16_SET_BLOCKLEN, CMD2_ALL_SEND_CID, CMD3_SEND_RELATIVE_ADDR,
    CMD55_APP_CMD, CMD7_SELECT_CARD, CMD8_SEND_IF_COND, CMD9_SEND_CSD, OCR_BUSY, OCR_HCS,
};
use crate::error::{CardType, SdError};
use crate::host::{BusWidth, CmdResponse, HostCall, HostEvent, HostReply, SdHost};
use crate::usdhc::Block;

verus! {

/// SD Physical Layer Specification version.
#[derive(Debug, Clone, Copy, PartialEq, Eq, Structural)]
pub enum SdVersion {
    /// Pre-v2 card. Times out on CMD8.
    V1,
    /// v2 card. Accepts CMD8 and echoes the voltage/check-pattern argument.
    V2,
}

/// Configuration of a simulated SD card.
#[derive(Debug, Clone, Copy, PartialEq, Eq, Structural)]
pub struct CardConfig {
    pub card_type: CardType,
    pub sd_version: SdVersion,
    /// Total 512-byte blocks.
    pub block_count: u32,
    /// Relative card address returned in the CMD3 response.
    pub rca: u16,
    /// Number of ACMD41s to decline (without OCR_BUSY) before reporting
    /// powered-up; 0 is ready on the very first ACMD41.
    pub acmd41_slow_count: u32,
    /// CID register value (128 bits), returned verbatim by CMD2.
    pub cid: u128,
}

impl CardConfig {
    /// Whether a CSD can state the block count: a version 1 CSD cannot state less
    /// than 4 blocks, nor 2 097 664 or more.
    pub open spec fn encodable(self) -> bool {
        self.card_type == CardType::Sdsc ==> 4 <= self.block_count < 2_097_664
    }

    /// A version 2 high capacity card.
    pub fn sdhc(block_count: u32) -> (config: CardConfig)
        ensures
            config == (CardConfig {
                card_type: CardType::Sdhc,
                sd_version: SdVersion::V2,
                block_count,
                rca: 0xBEEF,
                acmd41_slow_count: 0,
                cid: 0,
            }),
    {
        CardConfig {
            card_type: CardType::Sdhc,
            sd_version: SdVersion::V2,
            block_count,
            rca: 0xBEEF,
            acmd41_slow_count: 0,
            cid: 0,
        }
    }

    /// A version 1 standard capacity card.
    pub fn sdsc(block_count: u32) -> (config: CardConfig)
        ensures
            config == (CardConfig {
                card_type: CardType::Sdsc,
                sd_version: SdVersion::V1,
                block_count,
                rca: 0xBEEF,
                acmd41_slow_count: 0,
                cid: 0,
            }),
    {
        CardConfig {
            card_type: CardType::Sdsc,
            sd_version: SdVersion::V1,
            block_count,
            rca: 0xBEEF,
            acmd41_slow_count: 0,
            cid: 0,
        }
    }
}

/// Where a card stands in the SD initialization sequence.
#[derive(Debug, Clone, Copy, PartialEq, Eq, Structural)]
pub enum CardPhase {
    Idle,
    Ready,
    Identification,
    Standby,
    Transfer,
}

/// The error of a command that does not fit the card's phase.
pub const WRONG_STATE: u32 = 0x0001_0000;

/// CURRENT_STATE = 4 (Transfer) in R1 bits 12..9.
pub const STATUS_TRANSFER: u32 = 0x0000_0800;

/// A response of which only `rsp0` is valid.
pub open spec fn short(rsp0: u32) -> CmdResponse {
    CmdResponse { rsp0, rsp1: 0, rsp2: 0, rsp3: 0 }
}

/// A 136-bit response.
pub open spec fn long(bits: u128) -> CmdResponse {
    CmdResponse {
        rsp0: bits as u32,
        rsp1: (bits >> 32) as u32,
        rsp2: (bits >> 64) as u32,
        rsp3: (bits >> 96) as u32,
    }
}

/// The block index that the hardware argument `arg` addresses.
pub open spec fn stored_at(card_type: CardType, arg: u32) -> u32 {
    match card_type {
        CardType::Sdhc => arg,
        CardType::Sdsc => (arg as int / 512) as u32,
    }
}

/// The largest power of two from 4 to 512 that is not above `n`.
pub open spec fn granule(n: u32) -> u32 {
    if n >= 512 {
        512
    } else if n >= 256 {
        256
    } else if n >= 128 {
        128
    } else if n >= 64 {
        64
    } else if n >= 32 {
        32
    } else if n >= 16 {
        16
    } else if n >= 8 {
        8
    } else {
        4
    }
}

/// The block count that the CSD of a card states: the number of blocks, rounded
/// down to what the CSD can express.
pub open spec fn stated_blocks(config: CardConfig) -> u32 {
    match config.card_type {
        CardType::Sdhc => if config.block_count < 1024 {
            1024
        } else {
            (config.block_count - config.block_count % 1024) as u32
        },
        CardType::Sdsc => (config.block_count - config.block_count % granule(config.block_count))
            as u32,
    }
}

/// A simulated card, as a value.
#[verifier::ext_equal]
pub struct SimCard {
    pub config: CardConfig,
    pub csd: u128,
    pub phase: CardPhase,
    /// True after CMD55: the next command is an application command.
    pub app_cmd_pending: bool,
    /// ACMD41s declined in this power cycle.
    pub acmd41_attempts: u32,
    /// The blocks that have been written.
    pub blocks: Map<u32, Seq<u8>>,
}

impl SimCard {
    /// The card after a power cycle or CMD0. The blocks remain: flash is
    /// non-volatile.
    pub open spec fn reset(self) -> SimCard {
        SimCard {
            phase: CardPhase::Idle,
            app_cmd_pending: false,
            acmd41_attempts: 0,
            ..self
        }
    }

    /// The CSD states the configured capacity, as version 1 for a standard
    /// capacity card and as version 2 for a high capacity card.
    pub open spec fn wf(self) -> bool {
        &&& crate::csd::csd_block_count(self.csd) == stated_blocks(self.config)
        &&& crate::csd::csd_card_type(self.csd) == self.config.card_type
        &&& forall|k: u32| #[trigger] self.blocks.contains_key(k) ==> self.blocks[k].len() == 512
    }

    /// The contents of the block that `arg` addresses; a block never written is
    /// all zeros.
    pub open spec fn stored(self, arg: u32) -> Seq<u8> {
        let key = stored_at(self.config.card_type, arg);
        if self.blocks.contains_key(key) {
            self.blocks[key]
        } else {
            Seq::new(512, |i: int| 0u8)
        }
    }

    /// The card in another phase.
    pub open spec fn in_phase(self, phase: CardPhase) -> SimCard {
        SimCard { phase, ..self }
    }

    /// The answer to a command that is not an application command.
    pub open spec fn command(self, cmd_index: u32, arg: u32) -> (SimCard, HostReply) {
        let wrong = (self, HostReply::Failed(SdError::CommandFailed(WRONG_STATE)));
        let done = HostReply::Response(short(0));
        if cmd_index == CMD0_GO_IDLE_STATE {
            (self.reset(), done)
        } else if cmd_index == CMD8_SEND_IF_COND {
            if self.config.sd_version == SdVersion::V1 {
                (self, HostReply::Failed(SdError::Timeout))
            } else if self.phase == CardPhase::Idle {
                (self, HostReply::Response(short(arg & 0xFFF)))
            } else {
                wrong
            }
        } else if cmd_index == CMD55_APP_CMD {
            match self.phase {
                CardPhase::Idle | CardPhase::Standby | CardPhase::Transfer => (
                    SimCard { app_cmd_pending: true, ..self },
                    done,
                ),
                _ => wrong,
            }
        } else if cmd_index == CMD2_ALL_SEND_CID {
            if self.phase == CardPhase::Ready {
                (
                    self.in_phase(CardPhase::Identification),
                    HostReply::Response(long(self.config.cid)),
                )
            } else {
                wrong
            }
        } else if cmd_index == CMD3_SEND_RELATIVE_ADDR {
            if self.phase == CardPhase::Identification {
                (
                    self.in_phase(CardPhase::Standby),
                    HostReply::Response(short((self.config.rca as u32) << 16)),
                )
            } else {
                wrong
            }
        } else if cmd_index == CMD9_SEND_CSD {
            if self.phase == CardPhase::Standby {
                (self, HostReply::Response(long(self.csd)))
            } else {
                wrong
            }
        } else if cmd_index == CMD7_SELECT_CARD {
            if (arg >> 16) as u16 == self.config.rca {
                match self.phase {
                    CardPhase::Standby | CardPhase::Transfer => (
                        self.in_phase(CardPhase::Transfer),
                        done,
                    ),
                    _ => wrong,
                }
            } else if self.phase == CardPhase::Transfer {
                // Another card is selected.
                (self.in_phase(CardPhase::Standby), done)
            } else {
                (self, done)
            }
        } else if cmd_index == CMD13_SEND_STATUS {
            if self.phase == CardPhase::Transfer {
                (self, HostReply::Response(short(STATUS_TRANSFER)))
            } else {
                wrong
            }
        } else if cmd_index == CMD16_SET_BLOCKLEN {
            if self.phase == CardPhase::Transfer {
                (self, done)
            } else {
                wrong
            }
        } else {
            wrong
        }
    }

    /// The answer to an application command.
    pub open spec fn app_command(self, cmd_index: u32) -> (SimCard, HostReply) {
        let wrong = (self, HostReply::Failed(SdError::CommandFailed(WRONG_STATE)));
        if cmd_index == ACMD41_SD_SEND_OP_COND {
            let hcs = if self.config.card_type == CardType::Sdhc {
                OCR_HCS
            } else {
                0
            };
            if self.phase != CardPhase::Idle {
                wrong
            } else if self.acmd41_attempts < self.config.acmd41_slow_count {
                (
                    SimCard { acmd41_attempts: (self.acmd41_attempts + 1) as u32, ..self },
                    HostReply::Response(short(hcs | 0x00FF_8000)),
                )
            } else {
                (
                    self.in_phase(CardPhase::Ready),
                    HostReply::Response(short(OCR_BUSY | hcs | 0x00FF_8000)),
                )
            }
        } else if cmd_index == ACMD6_SET_BUS_WIDTH {
            if self.phase == CardPhase::Transfer {
                (self, HostReply::Response(short(0)))
            } else {
                wrong
            }
        } else {
            wrong
        }
    }

    /// The answer to a command.
    pub open spec fn dispatch(self, cmd_index: u32, arg: u32) -> (SimCard, HostReply) {
        if self.app_cmd_pending {
            (SimCard { app_cmd_pending: false, ..self }).app_command(cmd_index)
        } else {
            self.command(cmd_index, arg)
        }
    }
}

/// A simulated host, as a value.
#[verifier::ext_equal]
pub struct SimHost {
    /// The card, if one is inserted.
    pub card: Option<SimCard>,
    /// The last frequency asked for.
    pub clock_hz: u32,
    /// The last width asked for.
    pub bus_width: BusWidth,
    /// Errors to be returned by commands to come.
    pub cmd_errors: Seq<(u32, SdError)>,
}

impl SimHost {
    /// The host with another card state.
    pub open spec fn with(self, card: SimCard) -> SimHost {
        SimHost { card: Some(card), ..self }
    }

    /// The answer to a call, and the host after it.
    pub open spec fn answer(self, call: HostCall) -> (SimHost, HostReply) {
        match call {
            HostCall::Command { cmd_index, arg, .. } => if self.cmd_errors.len() > 0
                && self.cmd_errors[0].0 == cmd_index {
                (
                    SimHost { cmd_errors: self.cmd_errors.skip(1), ..self },
                    HostReply::Failed(self.cmd_errors[0].1),
                )
            } else {
                match self.card {
                    None => (self, HostReply::Failed(SdError::Timeout)),
                    Some(card) => (
                        self.with(card.dispatch(cmd_index, arg).0),
                        card.dispatch(cmd_index, arg).1,
                    ),
                }
            },
            HostCall::Read { arg, .. } => match self.card {
                None => (self, HostReply::Failed(SdError::Timeout)),
                Some(card) => if card.phase != CardPhase::Transfer {
                    (self, HostReply::Failed(SdError::CommandFailed(WRONG_STATE)))
                } else {
                    (self, HostReply::Data(card.stored(arg)))
                },
            },
            HostCall::Write { arg, data, .. } => match self.card {
                None => (self, HostReply::Failed(SdError::Timeout)),
                Some(card) => if card.phase != CardPhase::Transfer {
                    (self, HostReply::Failed(SdError::CommandFailed(WRONG_STATE)))
                } else {
                    (
                        self.with(
                            SimCard {
                                blocks: card.blocks.insert(
                                    stored_at(card.config.card_type, arg),
                                    data,
                                ),
                                ..card
                            },
                        ),
                        HostReply::Done,
                    )
                },
            },
            HostCall::Clock { target_hz } => (
                SimHost { clock_hz: target_hz, ..self },
                HostReply::Done,
            ),
            HostCall::Width { width } => (SimHost { bus_width: width, ..self }, HostReply::Done),
            // A peripheral reset does not power-cycle the card.
            HostCall::Reset => (
                SimHost { clock_hz: 0, bus_width: BusWidth::One, ..self },
                HostReply::Done,
            ),
            HostCall::InitialClocks => (self, HostReply::Done),
        }
    }

    /// The host after it gave the answers of `events`, if those are the answers
    /// that it gives.
    pub open spec fn replay(self, events: Seq<HostEvent>) -> Option<SimHost>
        decreases events.len(),
    {
        if events.len() == 0 {
            Some(self)
        } else {
            match self.replay(events.drop_last()) {
                Some(now) if now.answer(events.last().call).1 == events.last().reply => Some(
                    now.answer(events.last().call).0,
                ),
                _ => None,
            }
        }
    }
}

fn short_response(rsp0: u32) -> (r: CmdResponse)
    ensures
        r == short(rsp0),
{
    CmdResponse { rsp0, rsp1: 0, rsp2: 0, rsp3: 0 }
}

pub(crate) proof fn lemma_long(bits: u128)
    ensures
        long(bits).bits() == bits,
{
    assert((((bits >> 96) as u32) as u128) << 96 | (((bits >> 64) as u32) as u128) << 64 | (((bits
        >> 32) as u32) as u128) << 32 | ((bits as u32) as u128) == bits) by (bit_vector);
}

fn long_response(bits: u128) -> (r: CmdResponse)
    ensures
        r == long(bits),
        r.bits() == bits,
{
    proof {
        lemma_long(bits);
    }
    CmdResponse {
        rsp0: bits as u32,
        rsp1: (bits >> 32) as u32,
        rsp2: (bits >> 64) as u32,
        rsp3: (bits >> 96) as u32,
    }
}

fn wrong_state() -> (e: SdError)
    ensures
        e == SdError::CommandFailed(WRONG_STATE),
{
    SdError::CommandFailed(WRONG_STATE)
}

fn block_key(card_type: CardType, arg: u32) -> (key: u32)
    ensures
        key == stored_at(card_type, arg),
{
    match card_type {
        CardType::Sdhc => arg,
        CardType::Sdsc => arg / 512,
    }
}

/// A version 2 CSD (SDHC/SDXC): CSD_STRUCTURE 1 in bits 127..126, C_SIZE in bits
/// 69..48, so that the block count is `(C_SIZE + 1) * 1024`.
fn csd_v2(block_count: u32) -> (csd: u128)
    ensures
        crate::csd::csd_structure(csd) == 1,
        crate::csd::csd_block_count(csd) == if block_count < 1024 {
            1024
        } else {
            block_count - block_count % 1024
        },
{
    let c_size: u32 = (block_count / 1024).saturating_sub(1);
    let csd: u128 = (1u128 << 126) | ((c_size as u128) << 48);
    let ghost wide = c_size as u128;
    assert((csd >> 126) & 0x3 == 1 && (csd >> 48) & 0x3F_FFFF == wide) by (bit_vector)
        requires
            wide <= 0x3F_FFFF,
            csd == (1u128 << 126) | (wide << 48),
    ;
    csd
}

/// A version 1 CSD (SDSC) with READ_BL_LEN 9: the largest C_SIZE_MULT whose
/// granularity the block count has, and the C_SIZE that states the block count
/// rounded down to it.
fn csd_v1(block_count: u32) -> (csd: u128)
    requires
        4 <= block_count < 2_097_664,
    ensures
        crate::csd::csd_structure(csd) == 0,
        crate::csd::csd_block_count(csd) == block_count - block_count % granule(block_count),
{
    let mut csm: u32 = 7;
    let mut mult: u32 = 512;
    proof {
        vstd::arithmetic::power2::lemma2_to64();
    }
    while mult > block_count
        invariant
            4 <= block_count < 2_097_664,
            csm <= 7,
            mult == vstd::arithmetic::power2::pow2((csm + 2) as nat),
            mult > block_count ==> mult > 4,
            granule(block_count) <= mult <= 512,
            (csm == 7 && mult == 512) || (csm == 6 && mult == 256) || (csm == 5 && mult == 128) || (
            csm == 4 && mult == 64) || (csm == 3 && mult == 32) || (csm == 2 && mult == 16) || (csm
                == 1 && mult == 8) || (csm == 0 && mult == 4),
        decreases mult,
    {
        proof {
            vstd::arithmetic::power2::lemma2_to64();
        }
        csm = csm - 1;
        mult = mult / 2;
    }
    assert(mult == granule(block_count));
    assert(1 <= block_count as int / mult as int <= 4096);
    let c_size: u32 = block_count / mult - 1;
    let csd: u128 = (9u128 << 80) | ((c_size as u128) << 62) | ((csm as u128) << 47);
    proof {
        let size = c_size as u128;
        let shift = csm as u128;
        assert((csd >> 126) & 0x3 == 0 && (csd >> 80) & 0xF == 9 && (csd >> 62) & 0xFFF == size && (
        csd >> 47) & 0x7 == shift) by (bit_vector)
            requires
                size <= 0xFFF,
                shift <= 7,
                csd == (9u128 << 80) | (size << 62) | (shift << 47),
        ;
        vstd::arithmetic::power2::lemma2_to64();
        let n = block_count as int / mult as int;
        assert(n * mult * 512 / 512 == n * mult) by (nonlinear_arith);
        assert(n * mult == block_count - block_count % mult) by (nonlinear_arith)
            requires
                n == block_count as int / mult as int,
                mult > 0,
        ;
    }
    csd
}

/// A simulated card.
struct CardSim {
    config: CardConfig,
    csd: u128,
    phase: CardPhase,
    app_cmd_pending: bool,
    acmd41_attempts: u32,
    blocks: HashMap<u32, [u8; 512]>,
}

impl View for CardSim {
    type V = SimCard;

    closed spec fn view(&self) -> SimCard {
        SimCard {
            config: self.config,
            csd: self.csd,
            phase: self.phase,
            app_cmd_pending: self.app_cmd_pending,
            acmd41_attempts: self.acmd41_attempts,
            blocks: self.blocks@.map_values(|b: [u8; 512]| b@),
        }
    }
}

/// A command's result is `reply`.
spec fn is_reply(result: Result<CmdResponse, SdError>, reply: HostReply) -> bool {
    crate::host::command_reply(result) == reply
}

impl CardSim {
    fn new(config: CardConfig) -> (sim: CardSim)
        requires
            config.encodable(),
        ensures
            sim@.wf(),
            sim@ == (SimCard {
                config,
                csd: sim@.csd,
                phase: CardPhase::Idle,
                app_cmd_pending: false,
                acmd41_attempts: 0,
                blocks: Map::empty(),
            }),
    {
        let csd: u128 = match config.card_type {
            CardType::Sdhc => csd_v2(config.block_count),
            CardType::Sdsc => csd_v1(config.block_count),
        };
        let sim = CardSim {
            config,
            csd,
            phase: CardPhase::Idle,
            app_cmd_pending: false,
            acmd41_attempts: 0,
            blocks: HashMap::new(),
        };
        assert(sim@.blocks =~= Map::empty());
        sim
    }

    fn reset_to_idle(&mut self)
        ensures
            final(self)@ == old(self)@.reset(),
    {
        self.phase = CardPhase::Idle;
        self.app_cmd_pending = false;
        self.acmd41_attempts = 0;
    }

    fn dispatch(&mut self, cmd_index: u32, arg: u32) -> (result: Result<CmdResponse, SdError>)
        ensures
            final(self)@ == old(self)@.dispatch(cmd_index, arg).0,
            is_reply(result, old(self)@.dispatch(cmd_index, arg).1),
    {
        if self.app_cmd_pending {
            self.app_cmd_pending = false;
            return self.dispatch_acmd(cmd_index);
        }
        self.dispatch_cmd(cmd_index, arg)
    }

    fn dispatch_cmd(&mut self, cmd_index: u32, arg: u32) -> (result: Result<CmdResponse, SdError>)
        ensures
            final(self)@ == old(self)@.command(cmd_index, arg).0,
            is_reply(result, old(self)@.command(cmd_index, arg).1),
    {
        match cmd_index {
            CMD0_GO_IDLE_STATE => {
                self.reset_to_idle();
                Ok(short_response(0))
            },
            CMD8_SEND_IF_COND => match (self.config.sd_version, self.phase) {
                (SdVersion::V1, _) => Err(SdError::Timeout),
                (SdVersion::V2, CardPhase::Idle) => Ok(short_response(arg & 0xFFF)),
                _ => Err(wrong_state()),
            },
            CMD55_APP_CMD => match self.phase {
                CardPhase::Idle | CardPhase::Standby | CardPhase::Transfer => {
                    self.app_cmd_pending = true;
                    Ok(short_response(0))
                },
                _ => Err(wrong_state()),
            },
            CMD2_ALL_SEND_CID => {
                if self.phase != CardPhase::Ready {
                    return Err(wrong_state());
                }
                self.phase = CardPhase::Identification;
                Ok(long_response(self.config.cid))
            },
            CMD3_SEND_RELATIVE_ADDR => {
                if self.phase != CardPhase::Identification {
                    return Err(wrong_state());
                }
                self.phase = CardPhase::Standby;
                Ok(short_response((self.config.rca as u32) << 16))
            },
            CMD9_SEND_CSD => {
                if self.phase != CardPhase::Standby {
                    return Err(wrong_state());
                }
                Ok(long_response(self.csd))
            },
            CMD7_SELECT_CARD => {
                let cmd_rca: u16 = (arg >> 16) as u16;
                if cmd_rca == self.config.rca {
                    match self.phase {
                        CardPhase::Standby | CardPhase::Transfer => {
                            self.phase = CardPhase::Transfer;
                            Ok(short_response(0))
                        },
                        _ => Err(wrong_state()),
                    }
                } else {
                    // Another card is selected.
                    if self.phase == CardPhase::Transfer {
                        self.phase = CardPhase::Standby;
                    }
                    Ok(short_response(0))
                }
            },
            CMD13_SEND_STATUS => {
                if self.phase != CardPhase::Transfer {
                    return Err(wrong_state());
                }
                Ok(short_response(STATUS_TRANSFER))
            },
            CMD16_SET_BLOCKLEN => {
                if self.phase != CardPhase::Transfer {
                    return Err(wrong_state());
                }
                Ok(short_response(0))
            },
            _ => Err(wrong_state()),
        }
    }

    fn dispatch_acmd(&mut self, cmd_index: u32) -> (result: Result<CmdResponse, SdError>)
        ensures
            final(self)@ == old(self)@.app_command(cmd_index).0,
            is_reply(result, old(self)@.app_command(cmd_index).1),
    {
        match cmd_index {
            ACMD41_SD_SEND_OP_COND => {
                if self.phase != CardPhase::Idle {
                    return Err(wrong_state());
                }
                let hcs: u32 = if self.config.card_type == CardType::Sdhc {
                    OCR_HCS
                } else {
                    0
                };
                if self.acmd41_attempts < self.config.acmd41_slow_count {
                    // Still powering up: no OCR_BUSY.
                    self.acmd41_attempts = self.acmd41_attempts + 1;
                    Ok(short_response(hcs | 0x00FF_8000))
                } else {
                    self.phase = CardPhase::Ready;
                    Ok(short_response(OCR_BUSY | hcs | 0x00FF_8000))
                }
            },
            ACMD6_SET_BUS_WIDTH => {
                if self.phase != CardPhase::Transfer {
                    return Err(wrong_state());
                }
                Ok(short_response(0))
            },
            _ => Err(wrong_state()),
        }
    }

    fn load(&self, arg: u32, buf: &mut [u8; 512])
        ensures
            final(buf)@ == self@.stored(arg),
    {
        broadcast use vstd::std_specs::hash::group_hash_axioms;

        let key: u32 = block_key(self.config.card_type, arg);
        match self.blocks.get(&key) {
            Some(data) => {
                *buf = *data;
            },
            None => {
                *buf = Block::new().contents;
            },
        }
    }

    fn store(&mut self, arg: u32, buf: &[u8; 512])
        ensures
            final(self)@ == (SimCard {
                blocks: old(self)@.blocks.insert(
                    stored_at(old(self)@.config.card_type, arg),
                    buf@,
                ),
                ..old(self)@
            }),
    {
        broadcast use vstd::std_specs::hash::group_hash_axioms;

        let key: u32 = block_key(self.config.card_type, arg);
        self.blocks.insert(key, *buf);
        assert(self@.blocks =~= old(self)@.blocks.insert(key, buf@));
    }
}

/// A host with a simulated card, or an empty slot.
pub struct FakeSdHost {
    card: Option<CardSim>,
    /// Last frequency passed to `set_clock`.
    pub clock_hz: u32,
    /// Last width passed to `set_bus_width`.
    pub bus_width: BusWidth,
    cmd_errors: VecDeque<(u32, SdError)>,
    log: Ghost<Seq<HostEvent>>,
}

impl View for FakeSdHost {
    type V = SimHost;

    closed spec fn view(&self) -> SimHost {
        SimHost {
            card: match self.card {
                Some(sim) => Some(sim@),
                None => None,
            },
            clock_hz: self.clock_hz,
            bus_width: self.bus_width,
            cmd_errors: self.cmd_errors@,
        }
    }
}

impl FakeSdHost {
    /// Last frequency passed to `set_clock`.
    pub fn clock_hz(&self) -> (hz: u32)
        ensures
            hz == self@.clock_hz,
    {
        self.clock_hz
    }

    /// Last width passed to `set_bus_width`.
    pub fn bus_width(&self) -> (width: BusWidth)
        ensures
            width == self@.bus_width,
    {
        self.bus_width
    }

    /// An empty slot: every command times out.
    pub fn empty() -> (host: FakeSdHost)
        ensures
            host@ == (SimHost {
                card: None,
                clock_hz: 0,
                bus_width: BusWidth::One,
                cmd_errors: Seq::empty(),
            }),
            host.log() == Seq::<HostEvent>::empty(),
    {
        FakeSdHost {
            card: None,
            clock_hz: 0,
            bus_width: BusWidth::One,
            cmd_errors: VecDeque::new(),
            log: Ghost(Seq::empty()),
        }
    }

    /// A version 2 SDHC card with the given block count.
    pub fn with_sdhc_card(block_count: u32) -> (host: FakeSdHost)
        ensures
            host.inserted(
                (CardConfig {
                    card_type: CardType::Sdhc,
                    sd_version: SdVersion::V2,
                    block_count,
                    rca: 0xBEEF,
                    acmd41_slow_count: 0,
                    cid: 0,
                }),
            ),
    {
        Self::with_card(CardConfig::sdhc(block_count))
    }

    /// A version 1 SDSC card with the given block count.
    pub fn with_sdsc_card(block_count: u32) -> (host: FakeSdHost)
        requires
            4 <= block_count < 2_097_664,
        ensures
            host.inserted(
                (CardConfig {
                    card_type: CardType::Sdsc,
                    sd_version: SdVersion::V1,
                    block_count,
                    rca: 0xBEEF,
                    acmd41_slow_count: 0,
                    cid: 0,
                }),
            ),
    {
        Self::with_card(CardConfig::sdsc(block_count))
    }

    /// A card that was just inserted, with nothing written to it.
    pub open spec fn inserted(&self, config: CardConfig) -> bool {
        &&& self@.card is Some
        &&& self@.card.unwrap().wf()
        &&& self@ == (SimHost {
            card: Some(
                SimCard {
                    config,
                    csd: self@.card.unwrap().csd,
                    phase: CardPhase::Idle,
                    app_cmd_pending: false,
                    acmd41_attempts: 0,
                    blocks: Map::empty(),
                },
            ),
            clock_hz: 0,
            bus_width: BusWidth::One,
            cmd_errors: Seq::empty(),
        })
        &&& self.log() == Seq::<HostEvent>::empty()
    }

    /// A card of any configuration.
    pub fn with_card(config: CardConfig) -> (host: FakeSdHost)
        requires
            config.encodable(),
        ensures
            host.inserted(config),
    {
        FakeSdHost {
            card: Some(CardSim::new(config)),
            clock_hz: 0,
            bus_width: BusWidth::One,
            cmd_errors: VecDeque::new(),
            log: Ghost(Seq::empty()),
        }
    }

    /// Queue an error for the command `cmd_index`. When the queue's first entry is
    /// for the command that is sent, it is returned in place of the card's
    /// answer.
    pub fn inject_cmd_error(&mut self, cmd_index: u32, error: SdError)
        ensures
            final(self)@ == (SimHost {
                cmd_errors: old(self)@.cmd_errors.push((cmd_index, error)),
                ..old(self)@
            }),
            final(self).log() == old(self).log(),
    {
        self.cmd_errors.push_back((cmd_index, error));
    }

    /// Power-cycle the card: it is idle again, its blocks remain. The clock of the
    /// peripheral is not affected.
    pub fn power_cycle(&mut self)
        ensures
            final(self)@ == (SimHost {
                card: match old(self)@.card {
                    Some(card) => Some(card.reset()),
                    None => None,
                },
                bus_width: BusWidth::One,
                ..old(self)@
            }),
            final(self).log() == old(self).log(),
    {
        self.bus_width = BusWidth::One;
        match &mut self.card {
            Some(sim) => sim.reset_to_idle(),
            None => {},
        }
    }
}

impl SdHost for FakeSdHost {
    closed spec fn log(&self) -> Seq<HostEvent> {
        self.log@
    }

    open spec fn answers(&self, event: HostEvent, later: &FakeSdHost) -> bool {
        self@.answer(event.call) == (later@, event.reply)
    }

    fn send_cmd(&mut self, cmd_index: u32, arg: u32, flags: UsdCmdFlags) -> (result: Result<
        CmdResponse,
        SdError,
    >) {
        let ghost before = *self;
        let ghost call = HostCall::Command { cmd_index, arg, flags };
        let injected = if self.cmd_errors.len() > 0 && self.cmd_errors[0].0 == cmd_index {
            match self.cmd_errors.pop_front() {
                Some(entry) => Some(entry.1),
                None => None,
            }
        } else {
            None
        };
        let result = match injected {
            Some(e) => Err(e),
            None => match &mut self.card {
                None => Err(SdError::Timeout),
                Some(sim) => sim.dispatch(cmd_index, arg),
            },
        };
        let ghost event = HostEvent { call, reply: crate::host::command_reply(result) };
        self.log = Ghost(self.log@.push(event));
        proof {
            assert(before.cmd_errors@.len() > 0 ==> before.cmd_errors@.subrange(
                1,
                before.cmd_errors@.len() as int,
            ) =~= before.cmd_errors@.skip(1));
        }
        result
    }

    fn read_block(&mut self, cmd_index: u32, arg: u32, buf: &mut [u8; 512]) -> (result: Result<
        (),
        SdError,
    >) {
        let result = match &self.card {
            None => Err(SdError::Timeout),
            Some(sim) => if sim.phase != CardPhase::Transfer {
                Err(wrong_state())
            } else {
                sim.load(arg, buf);
                Ok(())
            },
        };
        let ghost event = HostEvent {
            call: HostCall::Read { cmd_index, arg },
            reply: crate::host::read_reply(result, buf@),
        };
        self.log = Ghost(self.log@.push(event));
        result
    }

    fn write_block(&mut self, cmd_index: u32, arg: u32, buf: &[u8; 512]) -> (result: Result<
        (),
        SdError,
    >) {
        let result = match &mut self.card {
            None => Err(SdError::Timeout),
            Some(sim) => if sim.phase != CardPhase::Transfer {
                Err(wrong_state())
            } else {
                sim.store(arg, buf);
                Ok(())
            },
        };
        let ghost event = HostEvent {
            call: HostCall::Write { cmd_index, arg, data: buf@ },
            reply: crate::host::write_reply(result),
        };
        self.log = Ghost(self.log@.push(event));
        result
    }

    fn set_clock(&mut self, target_hz: u32) {
        let ghost event = HostEvent {
            call: HostCall::Clock { target_hz },
            reply: HostReply::Done,
        };
        self.clock_hz = target_hz;
        self.log = Ghost(self.log@.push(event));
    }

    fn set_bus_width(&mut self, width: BusWidth) {
        let ghost event = HostEvent { call: HostCall::Width { width }, reply: HostReply::Done };
        self.bus_width = width;
        self.log = Ghost(self.log@.push(event));
    }

    fn reset_and_configure(&mut self) {
        let ghost event = HostEvent { call: HostCall::Reset, reply: HostReply::Done };
        self.clock_hz = 0;
        self.bus_width = BusWidth::One;
        self.log = Ghost(self.log@.push(event));
    }

    fn send_initial_clocks(&mut self) {
        let ghost event = HostEvent { call: HostCall::InitialClocks, reply: HostReply::Done };
        self.log = Ghost(self.log@.push(event));
    }
}

/// Whether the card takes a command where it stands.
pub open spec fn takes(card: SimCard, cmd_index: u32, arg: u32) -> bool {
    let at = card.phase;
    if card.app_cmd_pending {
        ||| cmd_index == 41 && at is Idle
        ||| cmd_index == 6 && at is Transfer
    } else {
        ||| cmd_index == 0
        ||| cmd_index == 8 && card.config.sd_version is V2 && at is Idle
        ||| cmd_index == 55 && (at is Idle || at is Standby || at is Transfer)
        ||| cmd_index == 2 && at is Ready
        ||| cmd_index == 3 && at is Identification
        ||| cmd_index == 9 && at is Standby
        ||| cmd_index == 7 && (arg >> 16 == card.config.rca ==> at is Standby || at is Transfer)
        ||| (cmd_index == 13 || cmd_index == 16) && at is Transfer
    }
}

proof fn lemma_upper_half(arg: u32)
    ensures
        (arg >> 16) as u16 == arg >> 16,
{
    assert((arg >> 16) as u16 == arg >> 16) by (bit_vector);
}

/// A card that is asked something keeps its configuration, its CSD and its blocks. One
/// that does not take the command stays where it is and says so; CMD8 of a version 1
/// card is a timeout.
pub proof fn law_card_takes(card: SimCard, cmd_index: u32, arg: u32)
    ensures
        ({
            let (after, reply) = card.dispatch(cmd_index, arg);
            let timeout = !card.app_cmd_pending && cmd_index == 8 && card.config.sd_version is V1;
            &&& after.config == card.config && after.csd == card.csd && after.blocks == card.blocks
            &&& reply is Response <==> takes(card, cmd_index, arg)
            &&& !takes(card, cmd_index, arg) ==> {
                &&& after.phase == card.phase
                &&& after.acmd41_attempts == card.acmd41_attempts
                &&& reply == HostReply::Failed(
                    if timeout {
                        SdError::Timeout
                    } else {
                        SdError::CommandFailed(0x0001_0000)
                    },
                )
            }
        }),
{
    lemma_upper_half(arg);
}

/// Where a command that it takes brings a card. CMD0 makes it idle and forgets the
/// ACMD41s that it declined, CMD55 makes the next command, and no later one, an
/// application command. ACMD41 is declined as often as the card is configured to do,
/// and then makes it ready; CMD2 leads to identification, CMD3 to standby, CMD7 to
/// transfer, and CMD7 for another card from there to standby.
pub proof fn law_card_moves(card: SimCard, cmd_index: u32, arg: u32)
    ensures
        ({
            let after = card.dispatch(cmd_index, arg).0;
            let app = card.app_cmd_pending;
            let declines = card.acmd41_attempts < card.config.acmd41_slow_count;
            let taken = takes(card, cmd_index, arg);
            &&& after.app_cmd_pending <==> taken && !app && cmd_index == 55
            &&& after.acmd41_attempts == if taken && !app && cmd_index == 0 {
                0
            } else if taken && app && cmd_index == 41 && declines {
                card.acmd41_attempts + 1
            } else {
                card.acmd41_attempts as int
            }
            &&& after.phase == if !taken {
                card.phase
            } else if app {
                if cmd_index == 41 && !declines {
                    CardPhase::Ready
                } else {
                    card.phase
                }
            } else if cmd_index == 0 {
                CardPhase::Idle
            } else if cmd_index == 2 {
                CardPhase::Identification
            } else if cmd_index == 3 {
                CardPhase::Standby
            } else if cmd_index == 7 && arg >> 16 == card.config.rca {
                CardPhase::Transfer
            } else if cmd_index == 7 && card.phase is Transfer {
                CardPhase::Standby
            } else {
                card.phase
            }
        }),
{
    lemma_upper_half(arg);
}

/// What a card says to a command that it takes: CMD8 the low 12 bits of the argument,
/// CMD2 its CID, CMD3 its relative address in the upper half, CMD9 its CSD, CMD13 that
/// it is in the transfer state, and ACMD41 whether it is powered up (bit 31) and of high
/// capacity (bit 30), with all voltages; to any other, nothing but zeros.
pub proof fn law_card_says(card: SimCard, cmd_index: u32, arg: u32, r: CmdResponse)
    requires
        card.dispatch(cmd_index, arg).1 == HostReply::Response(r),
    ensures
        ({
            let app = card.app_cmd_pending;
            let plain = !app && (cmd_index == 0 || cmd_index == 55 || cmd_index == 7 || cmd_index
                == 16);
            &&& !app && cmd_index == 8 ==> r.rsp0 == arg % 4096
            &&& !app && cmd_index == 2 ==> r.bits() == card.config.cid
            &&& !app && cmd_index == 3 ==> r.rsp0 == 0x1_0000 * card.config.rca
            &&& !app && cmd_index == 9 ==> r.bits() == card.csd
            &&& !app && cmd_index == 13 ==> r.rsp0 == 0x800
            &&& app && cmd_index == 41 ==> {
                &&& r.rsp0 & 0x3FFF_FFFF == 0x00FF_8000
                &&& r.rsp0 & 0x4000_0000 != 0 <==> card.config.card_type is Sdhc
                &&& r.rsp0 & 0x8000_0000 != 0 <==> card.acmd41_attempts
                    >= card.config.acmd41_slow_count
            }
            &&& plain || app && cmd_index == 6 ==> r.rsp0 == 0
            &&& app || (cmd_index != 2 && cmd_index != 9) ==> r.rsp1 == 0 && r.rsp2 == 0 && r.rsp3
                == 0
        }),
{
    lemma_long(card.config.cid);
    lemma_long(card.csd);
    crate::bringup::lemma_rca_arg(card.config.rca);
    let hcs: u32 = if card.config.card_type is Sdhc {
        0x4000_0000
    } else {
        0
    };
    let declining = hcs | 0x00FF_8000;
    let ready = 0x8000_0000 | hcs | 0x00FF_8000;
    assert(arg & 0xFFF == arg % 4096 && declining & 0x3FFF_FFFF == 0x00FF_8000 && ready
        & 0x3FFF_FFFF == 0x00FF_8000 && declining & 0x4000_0000 == hcs && ready & 0x4000_0000 == hcs
        && declining & 0x8000_0000 == 0 && ready & 0x8000_0000 != 0) by (bit_vector)
        requires
            hcs == 0 || hcs == 0x4000_0000,
            declining == hcs | 0x00FF_8000,
            ready == 0x8000_0000 | hcs | 0x00FF_8000,
    ;
}

/// Where a block is kept: under the argument itself on a high capacity card, under the
/// number of the 512 bytes that the argument lies in on a standard capacity card.
pub proof fn law_stored_at(arg: u32)
    ensures
        stored_at(CardType::Sdhc, arg) == arg,
        512 * stored_at(CardType::Sdsc, arg) <= arg < 512 * stored_at(CardType::Sdsc, arg) + 512,
{
}

/// The capacity that a card states: on a high capacity card the multiple of 1024 blocks
/// next below its own, but at least one; on a standard capacity card the multiple next
/// below of a power of two, the largest up to 512 that is not above its own.
pub proof fn law_stated_blocks(config: CardConfig)
    requires
        config.encodable(),
    ensures
        ({
            let own = config.block_count;
            let stated = stated_blocks(config);
            let g = granule(own);
            &&& config.card_type is Sdhc ==> {
                &&& stated % 1024 == 0
                &&& own >= 1024 ==> stated <= own < stated + 1024
                &&& own < 1024 ==> stated == 1024
            }
            &&& config.card_type is Sdsc ==> {
                &&& stated % g == 0
                &&& stated <= own < stated + g
                &&& g == 4 || g == 8 || g == 16 || g == 32 || g == 64 || g == 128 || g == 256 || g
                    == 512
                &&& g <= own
                &&& own < 2 * g || g == 512
            }
        }),
{
    let own = config.block_count as int;
    let g = granule(config.block_count) as int;
    assert((own - own % g) % g == 0 && own % g < g && own % g >= 0) by (nonlinear_arith)
        requires
            g > 0,
    ;
}

/// Every high capacity card can state a capacity, and a standard capacity card one of 4
/// to 2097663 blocks.
pub proof fn law_encodable(config: CardConfig)
    ensures
        config.encodable() <==> config.card_type is Sdhc || 4 <= config.block_count < 2_097_664,
{
}

/// What a host does for a call: a command whose error is queued first gets that error,
/// and the queue is one shorter; else the card answers, or a timeout where there is none.
/// Blocks move only while the card is selected; what was written is what is read at the
/// same place, and nothing else changes. A reset of the host stops the clock, leaves one
/// data line, and leaves the card alone.
pub proof fn law_host_answers(host: SimHost, call: HostCall)
    ensures
        ({
            let (after, reply) = host.answer(call);
            &&& match call {
                HostCall::Command { cmd_index, arg, .. } => {
                    let queued = host.cmd_errors.len() > 0 && host.cmd_errors[0].0 == cmd_index;
                    &&& queued ==> {
                        &&& reply == HostReply::Failed(host.cmd_errors[0].1)
                        &&& seq![host.cmd_errors[0]] + after.cmd_errors == host.cmd_errors
                        &&& after.card == host.card
                    }
                    &&& !queued ==> after.cmd_errors == host.cmd_errors
                    &&& !queued && host.card is None ==> reply == HostReply::Failed(
                        SdError::Timeout,
                    ) && after.card is None
                    &&& !queued ==> (host.card matches Some(card) ==> after.card == Some(
                        card.dispatch(cmd_index, arg).0,
                    ) && reply == card.dispatch(cmd_index, arg).1)
                },
                _ => after.cmd_errors == host.cmd_errors,
            }
            &&& call is Read || call is Write ==> {
                &&& host.card is None ==> reply == HostReply::Failed(SdError::Timeout)
                &&& host.card matches Some(card) ==> !(card.phase is Transfer) ==> reply
                    == HostReply::Failed(SdError::CommandFailed(0x0001_0000))
                &&& reply is Failed || call is Read ==> after.card == host.card
            }
            &&& call matches HostCall::Read { arg, .. } ==> (host.card matches Some(card)
                ==> card.phase is Transfer ==> reply == HostReply::Data(card.stored(arg)))
            &&& call matches HostCall::Write { arg, data, .. } ==> (host.card matches Some(card)
                ==> card.phase is Transfer ==> {
                &&& reply is Done
                &&& after.card matches Some(now) && now == (SimCard { blocks: now.blocks, ..card })
                    && forall|other: u32|
                    #![trigger now.stored(other)]
                    now.stored(other) == if stored_at(card.config.card_type, other) == stored_at(
                        card.config.card_type,
                        arg,
                    ) {
                        data
                    } else {
                        card.stored(other)
                    }
            })
            &&& call matches HostCall::Clock { target_hz } ==> after.clock_hz == target_hz
            &&& call matches HostCall::Width { width } ==> after.bus_width == width
            &&& call is Reset ==> after.clock_hz == 0 && after.bus_width == BusWidth::One
            &&& !(call is Clock || call is Reset) ==> after.clock_hz == host.clock_hz
            &&& !(call is Width || call is Reset) ==> after.bus_width == host.bus_width
            &&& !(call is Command || call is Read || call is Write) ==> reply is Done && after.card
                == host.card
        }),
{
    let after = host.answer(call).0;
    if let HostCall::Command { cmd_index, .. } = call {
        if host.cmd_errors.len() > 0 && host.cmd_errors[0].0 == cmd_index {
            assert(seq![host.cmd_errors[0]] + after.cmd_errors =~= host.cmd_errors);
        }
    }
}

/// A card that never held a block reads as zeros everywhere.
pub proof fn law_empty_card(card: SimCard, arg: u32, i: int)
    requires
        card.blocks == Map::<u32, Seq<u8>>::empty(),
        0 <= i < 512,
    ensures
        card.stored(arg).len() == 512,
        card.stored(arg)[i] == 0,
{
}

/// A card made by its capacity alone: one of high capacity knows CMD8, one of standard
/// capacity does not; both are known by 0xBEEF, are powered up at once, and have a CID of
/// zeros.
pub proof fn law_card_kinds(block_count: u32, high: CardConfig, standard: CardConfig)
    requires
        call_ensures(CardConfig::sdhc, (block_count,), high),
        call_ensures(CardConfig::sdsc, (block_count,), standard),
    ensures
        high.card_type is Sdhc && high.sd_version is V2,
        standard.card_type is Sdsc && standard.sd_version is V1,
        high == (CardConfig {
            card_type: high.card_type,
            sd_version: high.sd_version,
            ..standard
        }),
        high.block_count == block_count && high.rca == 0xBEEF && high.acmd41_slow_count == 0
            && high.cid == 0,
{
}

/// A host is made with a card of the configuration that is asked for, idle and with
/// nothing written to it, or with none; its clock is stopped and it uses one data line.
/// A host for a capacity alone has the card that is made by it.
pub proof fn law_hosts_made(
    config: CardConfig,
    block_count: u32,
    empty: FakeSdHost,
    host: FakeSdHost,
    high: CardConfig,
    high_host: FakeSdHost,
    standard: CardConfig,
    standard_host: FakeSdHost,
)
    requires
        call_ensures(FakeSdHost::empty, (), empty),
        call_ensures(FakeSdHost::with_card, (config,), host),
        call_ensures(CardConfig::sdhc, (block_count,), high),
        call_ensures(FakeSdHost::with_sdhc_card, (block_count,), high_host),
        call_ensures(CardConfig::sdsc, (block_count,), standard),
        call_ensures(FakeSdHost::with_sdsc_card, (block_count,), standard_host),
    ensures
        empty@.card is None,
        host@.card matches Some(card) && card.config == config && card.phase is Idle
            && !card.app_cmd_pending && card.acmd41_attempts == 0 && card.blocks == Map::<
            u32,
            Seq<u8>,
        >::empty() && crate::csd::csd_block_count(card.csd) == stated_blocks(config)
            && crate::csd::csd_card_type(card.csd) == config.card_type,
        high_host@.card matches Some(card) && card.config == high,
        standard_host@.card matches Some(card) && card.config == standard,
        empty@.clock_hz == 0 && empty@.bus_width is One && empty@.cmd_errors.len() == 0,
        host@.clock_hz == 0 && host@.bus_width is One && host@.cmd_errors.len() == 0,
        empty.log().len() == 0 && host.log().len() == 0,
{
}

/// Power-cycling makes the card idle, as before its first command, and leaves one data
/// line. What the card is and holds, the clock, the queued errors and the calls so far
/// stay.
pub proof fn law_power_cycle(host: &mut FakeSdHost)
    requires
        call_ensures(FakeSdHost::power_cycle, (host,), ()),
    ensures
        final(host)@.bus_width is One,
        final(host)@.clock_hz == old(host)@.clock_hz,
        final(host)@.cmd_errors == old(host)@.cmd_errors,
        final(host).log() == old(host).log(),
        old(host)@.card is None ==> final(host)@.card is None,
        old(host)@.card matches Some(before) ==> (final(host)@.card matches Some(after) && {
            &&& after.phase is Idle && !after.app_cmd_pending && after.acmd41_attempts == 0
            &&& after.config == before.config && after.csd == before.csd && after.blocks
                == before.blocks
        }),
{
}

/// An error that is queued goes to the end of the queue, and nothing else changes.
pub proof fn law_error_queued(host: &mut FakeSdHost, cmd_index: u32, error: SdError)
    requires
        call_ensures(FakeSdHost::inject_cmd_error, (host, cmd_index, error), ()),
    ensures
        final(host)@.cmd_errors == old(host)@.cmd_errors + seq![(cmd_index, error)],
        final(host)@.card == old(host)@.card,
        final(host)@.clock_hz == old(host)@.clock_hz,
        final(host)@.bus_width == old(host)@.bus_width,
        final(host).log() == old(host).log(),
{
    assert(old(host)@.cmd_errors.push((cmd_index, error)) =~= old(host)@.cmd_errors + seq![
        (cmd_index, error),
    ]);
}

/// The host tells the clock and the bus width that were last asked for.
pub proof fn law_host_tells(
    host: &mut FakeSdHost,
    target_hz: u32,
    hz: u32,
    wide: &mut FakeSdHost,
    width: BusWidth,
    lines: BusWidth,
)
    requires
        call_ensures(<FakeSdHost as SdHost>::set_clock, (host, target_hz), ()),
        call_ensures(FakeSdHost::clock_hz, (&*final(host),), hz),
        call_ensures(<FakeSdHost as SdHost>::set_bus_width, (wide, width), ()),
        call_ensures(FakeSdHost::bus_width, (&*final(wide),), lines),
    ensures
        hz == target_hz,
        lines == width,
        final(host)@.bus_width == old(host)@.bus_width,
        final(wide)@.clock_hz == old(wide)@.clock_hz,
{
    let clock = HostEvent { call: HostCall::Clock { target_hz }, reply: HostReply::Done };
    assert(old(host).answers(clock, final(host)));
    let lined = HostEvent { call: HostCall::Width { width }, reply: HostReply::Done };
    assert(old(wide).answers(lined, final(wide)));
}

} // verus!
