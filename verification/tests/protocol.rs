//! Bringing up a simulated card, and block I/O with it.

use imxrt_usdhc::cmd::{
    CMD0_GO_IDLE_STATE, CMD13_SEND_STATUS, CMD16_SET_BLOCKLEN, CMD2_ALL_SEND_CID,
    CMD3_SEND_RELATIVE_ADDR, CMD55_APP_CMD, CMD7_SELECT_CARD, CMD8_SEND_IF_COND, CMD9_SEND_CSD,
    UsdCmdFlags, USDHC_ACMD41_RETRIES,
};
use imxrt_usdhc::fake::{CardConfig, FakeSdHost, SdVersion};
use imxrt_usdhc::{BusWidth, CardType, SdError, SdHost, SdProtocol};

fn fresh_proto(host: FakeSdHost) -> SdProtocol<FakeSdHost> {
    SdProtocol { host, card_type: CardType::Sdhc, block_count: 0, rca: 0 }
}

fn init_proto(host: FakeSdHost) -> SdProtocol<FakeSdHost> {
    let mut p = fresh_proto(host);
    p.card_init().unwrap();
    p
}

// ---- card init: happy paths ---------------------------------------------------

#[test]
fn card_init_sdhc() {
    let p = init_proto(FakeSdHost::with_sdhc_card(8_388_608));
    assert_eq!(p.card_type, CardType::Sdhc);
    assert_eq!(p.block_count, 8_388_608);
    assert_ne!(p.rca, 0); // RCA extracted from CMD3 response
}

#[test]
fn card_init_sdsc_v1() {
    // V1 card: CMD8 times out, no HCS, card_type = Sdsc
    let p = init_proto(FakeSdHost::with_sdsc_card(262_144));
    assert_eq!(p.card_type, CardType::Sdsc);
    assert_eq!(p.block_count, 262_144);
}

#[test]
fn card_init_sdsc_v2_no_hcs() {
    // V2 SDSC card: CMD8 succeeds but ACMD41 response has no HCS bit
    let p = init_proto(FakeSdHost::with_card(CardConfig {
        card_type: CardType::Sdsc,
        sd_version: SdVersion::V2,
        block_count: 262_144,
        rca: 0x1234,
        acmd41_slow_count: 0,
        cid: 0,
    }));
    assert_eq!(p.card_type, CardType::Sdsc);
    assert_eq!(p.block_count, 262_144);
}

#[test]
fn card_init_slow_acmd41_succeeds() {
    // Card takes 50 ACMD41 rounds to power up — should still succeed
    let p = init_proto(FakeSdHost::with_card(CardConfig {
        card_type: CardType::Sdhc,
        sd_version: SdVersion::V2,
        block_count: 1_024,
        rca: 0xABCD,
        acmd41_slow_count: 50,
        cid: 0,
    }));
    assert_eq!(p.card_type, CardType::Sdhc);
}

#[test]
fn card_init_takes_the_address_that_the_card_states() {
    for rca in [0u16, 1, 0x1234, 0xFFFF] {
        let p = init_proto(FakeSdHost::with_card(CardConfig {
            rca,
            ..CardConfig::sdhc(1_024)
        }));
        assert_eq!(p.rca, rca);
    }
}

#[test]
fn card_init_on_the_last_attempt() {
    let p = init_proto(FakeSdHost::with_card(CardConfig {
        acmd41_slow_count: USDHC_ACMD41_RETRIES - 1,
        ..CardConfig::sdhc(2_048)
    }));
    assert_eq!(p.card_type, CardType::Sdhc);
    assert_eq!(p.block_count, 2_048);
}

#[test]
fn card_init_leaves_clock_and_width_to_others() {
    let mut host = FakeSdHost::with_sdhc_card(1_024);
    host.set_clock(123);
    let p = init_proto(host);
    assert_eq!(p.host.clock_hz(), 123);
    assert_eq!(p.host.bus_width(), BusWidth::One);
    assert_eq!(p.host.clock_hz(), p.host.clock_hz);
    assert_eq!(p.host.bus_width(), p.host.bus_width);
}

// ---- card init: error paths ---------------------------------------------------

#[test]
fn card_init_no_card_returns_error() {
    assert!(fresh_proto(FakeSdHost::empty()).card_init().is_err());
}

#[test]
fn card_init_empty_slot_is_a_timeout() {
    assert_eq!(fresh_proto(FakeSdHost::empty()).card_init(), Err(SdError::Timeout));
    assert_eq!(fresh_proto(FakeSdHost::empty()).bring_up(), Err(SdError::Timeout));
}

#[test]
fn card_init_acmd41_never_ready_returns_no_card() {
    // acmd41_slow_count >= USDHC_ACMD41_RETRIES: card never asserts OCR_BUSY
    let fake = FakeSdHost::with_card(CardConfig {
        card_type: CardType::Sdhc,
        sd_version: SdVersion::V2,
        block_count: 1_024,
        rca: 0xABCD,
        acmd41_slow_count: USDHC_ACMD41_RETRIES,
        cid: 0,
    });
    assert_eq!(fresh_proto(fake).card_init(), Err(SdError::NoCard));
}

// ---- bus width ---------------------------------------------------------------

#[test]
fn set_bus_width_4bit_updates_host() {
    let mut p = fresh_proto(FakeSdHost::with_sdhc_card(1_024));
    p.card_init().unwrap();
    assert_eq!(p.host.bus_width, BusWidth::One);
    p.set_bus_width_4bit().unwrap();
    assert_eq!(p.host.bus_width, BusWidth::Four);
}

#[test]
fn set_bus_width_4bit_failure_leaves_the_host_alone() {
    let mut p = init_proto(FakeSdHost::with_sdhc_card(1_024));
    p.host.inject_cmd_error(CMD55_APP_CMD, SdError::CrcError);
    assert_eq!(p.set_bus_width_4bit(), Err(SdError::CrcError));
    assert_eq!(p.host.bus_width, BusWidth::One);
}

// ---- block I/O round trips ---------------------------------------------------

#[test]
fn sdhc_read_write_round_trip() {
    let mut p = init_proto(FakeSdHost::with_sdhc_card(8_388_608));
    let data = [0xAB_u8; 512];
    p.write_single_block(100, &data).unwrap();
    let mut buf = [0u8; 512];
    p.read_single_block(100, &mut buf).unwrap();
    assert_eq!(buf, data);
}

#[test]
fn unwritten_block_reads_as_zeros() {
    let mut p = init_proto(FakeSdHost::with_sdhc_card(8_388_608));
    let mut buf = [0xFF_u8; 512];
    p.read_single_block(0, &mut buf).unwrap();
    assert_eq!(buf, [0u8; 512]);
}

#[test]
fn sdsc_read_write_round_trip() {
    // SDSC uses byte addresses (LBA × 512) at the host level. The fake
    // must translate these back to block indices for storage so that
    // write(LBA=42) is visible to read(LBA=42).
    let mut p = init_proto(FakeSdHost::with_sdsc_card(262_144));
    let data = [0xCD_u8; 512];
    p.write_single_block(42, &data).unwrap();
    let mut buf = [0u8; 512];
    p.read_single_block(42, &mut buf).unwrap();
    assert_eq!(buf, data);
    // Adjacent block is independent
    let mut other = [0xFF_u8; 512];
    p.read_single_block(43, &mut other).unwrap();
    assert_eq!(other, [0u8; 512]);
}

#[test]
fn writing_a_block_leaves_others_alone() {
    for host in [FakeSdHost::with_sdhc_card(1_024), FakeSdHost::with_sdsc_card(1_024)] {
        let mut p = init_proto(host);
        p.write_single_block(7, &[7u8; 512]).unwrap();
        p.write_single_block(8, &[8u8; 512]).unwrap();
        p.write_single_block(7, &[9u8; 512]).unwrap();
        let mut buf = [0u8; 512];
        p.read_single_block(8, &mut buf).unwrap();
        assert_eq!(buf, [8u8; 512]);
        p.read_single_block(7, &mut buf).unwrap();
        assert_eq!(buf, [9u8; 512]);
    }
}

#[test]
fn failed_write_leaves_others_alone() {
    let mut p = init_proto(FakeSdHost::with_sdsc_card(1_024));
    p.write_single_block(3, &[3u8; 512]).unwrap();
    // This block has no address.
    assert!(p.write_single_block(0x0080_0003, &[9u8; 512]).is_err());
    let mut buf = [0u8; 512];
    p.read_single_block(3, &mut buf).unwrap();
    assert_eq!(buf, [3u8; 512]);
}

#[test]
fn sdsc_block_without_an_address_is_a_timeout() {
    let mut p = init_proto(FakeSdHost::with_sdsc_card(1_024));
    let mut buf = [0x5A_u8; 512];
    assert_eq!(p.read_single_block(0x0080_0000, &mut buf), Err(SdError::Timeout));
    assert_eq!(buf, [0x5A_u8; 512]);
    assert_eq!(p.write_single_block(0x0080_0000, &buf), Err(SdError::Timeout));
}

#[test]
fn power_cycle_resets_card_state() {
    let mut p = init_proto(FakeSdHost::with_sdhc_card(1_024));
    // Card is now in Transfer state; a power cycle resets it to Idle.
    p.host.power_cycle();
    // Re-running card_init must succeed (CMD0 → ... → Transfer again).
    p.rca = 0;
    p.card_init().unwrap();
    assert_eq!(p.card_type, CardType::Sdhc);
}

// ---- card init: error injection -----------------------------------------------

#[test]
fn card_init_cmd0_timeout() {
    let mut fake = FakeSdHost::with_sdhc_card(1_024);
    fake.inject_cmd_error(CMD0_GO_IDLE_STATE, SdError::Timeout);
    assert_eq!(fresh_proto(fake).card_init(), Err(SdError::Timeout));
}

#[test]
fn card_init_cmd8_non_timeout_error_propagated() {
    // A non-timeout error on CMD8 must NOT be treated as a v1 fall-through.
    let mut fake = FakeSdHost::with_sdhc_card(1_024);
    fake.inject_cmd_error(CMD8_SEND_IF_COND, SdError::CrcError);
    assert_eq!(fresh_proto(fake).card_init(), Err(SdError::CrcError));
}

#[test]
fn card_init_cmd8_wrong_echo() {
    // A V1 card (CMD8 timeout) initializes correctly as Sdsc: the timeout is
    // a v1 fall-through and not a NoCard error.
    let p = fresh_proto(FakeSdHost::with_sdsc_card(1_024));
    // with_sdsc_card sets SdVersion::V1, so CMD8 times out internally.
    // card_init must NOT return Err here — it should succeed as Sdsc.
    let mut p = p;
    p.card_init().unwrap();
    assert_eq!(p.card_type, CardType::Sdsc);
}

#[test]
fn card_init_cmd55_error_propagated() {
    // CMD55 (APP_CMD prefix) failure must propagate as-is, not be retried.
    let mut fake = FakeSdHost::with_sdhc_card(1_024);
    fake.inject_cmd_error(CMD55_APP_CMD, SdError::CrcError);
    assert_eq!(fresh_proto(fake).card_init(), Err(SdError::CrcError));
}

#[test]
fn card_init_cmd2_error_propagated() {
    // CMD2 (ALL_SEND_CID) failure after successful ACMD41.
    let mut fake = FakeSdHost::with_sdhc_card(1_024);
    fake.inject_cmd_error(CMD2_ALL_SEND_CID, SdError::CrcError);
    assert_eq!(fresh_proto(fake).card_init(), Err(SdError::CrcError));
}

#[test]
fn bring_up_propagates_the_error_of_every_command() {
    let commands = [
        CMD0_GO_IDLE_STATE,
        CMD8_SEND_IF_COND,
        CMD55_APP_CMD,
        41,
        CMD2_ALL_SEND_CID,
        CMD3_SEND_RELATIVE_ADDR,
        CMD9_SEND_CSD,
        CMD7_SELECT_CARD,
        6,
        CMD16_SET_BLOCKLEN,
    ];
    for command in commands {
        let mut fake = FakeSdHost::with_sdhc_card(1_024);
        fake.inject_cmd_error(command, SdError::CommandFailed(command));
        assert_eq!(fresh_proto(fake).bring_up(), Err(SdError::CommandFailed(command)));
    }
}

#[test]
fn cmd8_timeout_is_no_failure() {
    // A card that does not answer CMD8 is taken for a version 1 card.
    let mut fake = FakeSdHost::with_sdhc_card(1_024);
    fake.inject_cmd_error(CMD8_SEND_IF_COND, SdError::Timeout);
    assert_eq!(fresh_proto(fake).bring_up(), Ok(()));
}

// ---- the simulated card --------------------------------------------------------

#[test]
fn simulated_card_states_its_capacity_rounded_down() {
    for (count, stated) in [(0, 1_024), (1_024, 1_024), (5_000, 4_096), (u32::MAX, 0xFFFF_FC00)] {
        assert_eq!(init_proto(FakeSdHost::with_sdhc_card(count)).block_count, stated);
    }
    let cases = [(4, 4), (7, 4), (8, 8), (100, 64), (262_145, 262_144), (2_097_663, 2_097_152)];
    for (count, stated) in cases {
        assert_eq!(init_proto(FakeSdHost::with_sdsc_card(count)).block_count, stated);
    }
}

#[test]
fn simulated_card_refuses_commands_out_of_order() {
    let wrong = Err(SdError::CommandFailed(0x0001_0000));
    let mut fake = FakeSdHost::with_sdhc_card(1_024);
    for command in [
        CMD2_ALL_SEND_CID,
        CMD3_SEND_RELATIVE_ADDR,
        CMD9_SEND_CSD,
        CMD13_SEND_STATUS,
        CMD16_SET_BLOCKLEN,
        12,
    ] {
        assert_eq!(fake.send_cmd(command, 0, UsdCmdFlags::R1), wrong);
    }
    assert_eq!(fake.send_cmd(CMD7_SELECT_CARD, 0xBEEF_0000, UsdCmdFlags::R1B), wrong);
    // A command that is no application command does not follow CMD55.
    fake.send_cmd(CMD55_APP_CMD, 0, UsdCmdFlags::R1).unwrap();
    assert_eq!(fake.send_cmd(CMD0_GO_IDLE_STATE, 0, UsdCmdFlags::NoResponse), wrong);
    assert!(fake.send_cmd(CMD0_GO_IDLE_STATE, 0, UsdCmdFlags::NoResponse).is_ok());
}

#[test]
fn simulated_card_returns_its_cid() {
    let cid = 0x0123_4567_89AB_CDEF_0F1E_2D3C_4B5A_6978u128;
    let mut fake = FakeSdHost::with_card(CardConfig { cid, ..CardConfig::sdhc(1_024) });
    fake.send_cmd(CMD55_APP_CMD, 0, UsdCmdFlags::R1).unwrap();
    fake.send_cmd(41, 0, UsdCmdFlags::R3).unwrap();
    let r = fake.send_cmd(CMD2_ALL_SEND_CID, 0, UsdCmdFlags::R2).unwrap();
    assert_eq!(
        (r.rsp3, r.rsp2, r.rsp1, r.rsp0),
        (0x0123_4567, 0x89AB_CDEF, 0x0F1E_2D3C, 0x4B5A_6978)
    );
}

#[test]
fn simulated_card_is_deselected_by_another_address() {
    let mut p = init_proto(FakeSdHost::with_sdhc_card(1_024));
    p.send_cmd(CMD7_SELECT_CARD, 0x0001_0000, UsdCmdFlags::R1B).unwrap();
    let mut buf = [0u8; 512];
    assert_eq!(
        p.read_single_block(0, &mut buf),
        Err(SdError::CommandFailed(0x0001_0000))
    );
    p.send_cmd(CMD7_SELECT_CARD, 0xBEEF_0000, UsdCmdFlags::R1B).unwrap();
    p.read_single_block(0, &mut buf).unwrap();
}

#[test]
fn queued_errors_wait_for_their_command_in_order() {
    let mut fake = FakeSdHost::with_sdhc_card(1_024);
    fake.inject_cmd_error(CMD55_APP_CMD, SdError::CrcError);
    fake.inject_cmd_error(CMD55_APP_CMD, SdError::NoCard);
    fake.inject_cmd_error(CMD0_GO_IDLE_STATE, SdError::Timeout);
    // The first entry is not for CMD0.
    assert!(fake.send_cmd(CMD0_GO_IDLE_STATE, 0, UsdCmdFlags::NoResponse).is_ok());
    assert_eq!(fake.send_cmd(CMD55_APP_CMD, 0, UsdCmdFlags::R1), Err(SdError::CrcError));
    assert_eq!(fake.send_cmd(CMD55_APP_CMD, 0, UsdCmdFlags::R1), Err(SdError::NoCard));
    assert_eq!(
        fake.send_cmd(CMD0_GO_IDLE_STATE, 0, UsdCmdFlags::NoResponse),
        Err(SdError::Timeout)
    );
    assert!(fake.send_cmd(CMD0_GO_IDLE_STATE, 0, UsdCmdFlags::NoResponse).is_ok());
}

#[test]
fn host_reset_does_not_power_cycle_the_card() {
    let mut p = init_proto(FakeSdHost::with_sdhc_card(1_024));
    p.host.set_clock(25_000_000);
    p.host.reset_and_configure();
    p.host.send_initial_clocks();
    assert_eq!(p.host.clock_hz, 0);
    assert_eq!(p.host.bus_width, BusWidth::One);
    let mut buf = [1u8; 512];
    p.read_single_block(0, &mut buf).unwrap();
    assert_eq!(buf, [0u8; 512]);
}
