//! The CSD register and block addresses.

use imxrt_usdhc::{block_address, parse_csd, CardType, CmdResponse, SdError};

/// Build a `CmdResponse` from a 128-bit CSD value (SD-spec bit positions).
fn csd_response(csd: u128) -> CmdResponse {
    CmdResponse {
        rsp0: csd as u32,
        rsp1: (csd >> 32) as u32,
        rsp2: (csd >> 64) as u32,
        rsp3: (csd >> 96) as u32,
    }
}

#[test]
fn csd_v2_small() {
    // csd_structure=1 [127:126], c_size=3 [69:48]
    // block_count = (3+1)*1024 = 4096
    let csd = (1u128 << 126) | (3u128 << 48);
    let (card_type, block_count) = parse_csd(csd_response(csd));
    assert_eq!(card_type, CardType::Sdhc);
    assert_eq!(block_count, 4096);
}

#[test]
fn csd_v2_4gb() {
    // csd_structure=1, c_size=8191 (0x1FFF)
    // block_count = 8192*1024 = 8_388_608
    let csd = (1u128 << 126) | (0x1FFFu128 << 48);
    let (card_type, block_count) = parse_csd(csd_response(csd));
    assert_eq!(card_type, CardType::Sdhc);
    assert_eq!(block_count, 8_388_608);
}

#[test]
fn csd_v1_128mb() {
    // csd_structure=0 [127:126]
    // read_bl_len=9 [83:80], c_size=1023 [73:62], c_size_mult=6 [49:47]
    // capacity = (1023+1) * (1<<8) * (1<<9) = 134_217_728 bytes
    // block_count = 134_217_728 / 512 = 262_144
    let csd = (9u128 << 80) | (1023u128 << 62) | (6u128 << 47);
    let (card_type, block_count) = parse_csd(csd_response(csd));
    assert_eq!(card_type, CardType::Sdsc);
    assert_eq!(block_count, 262_144);
}

#[test]
fn csd_unknown_version() {
    // csd_structure=2 is reserved
    let csd = 2u128 << 126;
    let (card_type, block_count) = parse_csd(csd_response(csd));
    assert_eq!(card_type, CardType::Sdsc);
    assert_eq!(block_count, 0);
}

#[test]
fn csd_structure_3_is_unknown_too() {
    let (card_type, block_count) = parse_csd(csd_response(3u128 << 126 | 5u128 << 48));
    assert_eq!((card_type, block_count), (CardType::Sdsc, 0));
}

#[test]
fn csd_v1_fields_do_not_leak() {
    // Every bit outside the three fields and CSD_STRUCTURE is set.
    let fields = (0xFu128 << 80) | (0xFFFu128 << 62) | (0x7u128 << 47) | (0x3u128 << 126);
    let csd = (!0u128 & !fields) | (10u128 << 80) | (1u128 << 62);
    // (1+1) * 2^2 * 2^10 = 8192 bytes
    assert_eq!(parse_csd(csd_response(csd)), (CardType::Sdsc, 16));
}

#[test]
fn csd_v1_extremes() {
    // The smallest: 4 bytes are no whole block.
    assert_eq!(parse_csd(csd_response(0)), (CardType::Sdsc, 0));
    // The largest: 4096 * 2^9 * 2^15 bytes.
    let csd = (15u128 << 80) | (0xFFFu128 << 62) | (7u128 << 47);
    assert_eq!(parse_csd(csd_response(csd)), (CardType::Sdsc, 134_217_728));
}

#[test]
fn csd_v2_extremes() {
    assert_eq!(parse_csd(csd_response(1u128 << 126)), (CardType::Sdhc, 1024));
    let below = (1u128 << 126) | (0x3F_FFFEu128 << 48);
    assert_eq!(parse_csd(csd_response(below)), (CardType::Sdhc, 0xFFFF_FC00));
    // 2^32 blocks do not fit the count.
    let most = (1u128 << 126) | (0x3F_FFFFu128 << 48);
    assert_eq!(parse_csd(csd_response(most)), (CardType::Sdhc, 0));
}

#[test]
fn response_words_are_distinct_positions() {
    // The same word in another position is another CSD.
    let word = 0x4000_0000u32;
    let v2 = CmdResponse { rsp0: 0, rsp1: 0, rsp2: 0, rsp3: word };
    let elsewhere = CmdResponse { rsp0: 0, rsp1: 0, rsp2: word, rsp3: 0 };
    assert_ne!(v2, elsewhere);
    assert_eq!(parse_csd(v2), (CardType::Sdhc, 1024));
    assert_eq!(parse_csd(elsewhere).0, CardType::Sdsc);
}

#[test]
fn block_addr_sdhc_passthrough() {
    assert_eq!(block_address(CardType::Sdhc, 0), Ok(0));
    assert_eq!(block_address(CardType::Sdhc, 1000), Ok(1000));
    assert_eq!(block_address(CardType::Sdhc, u32::MAX), Ok(u32::MAX));
}

#[test]
fn block_addr_sdsc_byte_offset() {
    assert_eq!(block_address(CardType::Sdsc, 0), Ok(0));
    assert_eq!(block_address(CardType::Sdsc, 1000), Ok(512_000));
}

#[test]
fn block_addr_sdsc_overflow() {
    // 0x0080_0000 × 512 = 0x1_0000_0000, which overflows u32
    assert_eq!(
        block_address(CardType::Sdsc, 0x0080_0000),
        Err(SdError::Timeout)
    );
}

#[test]
fn block_addr_sdsc_last() {
    assert_eq!(block_address(CardType::Sdsc, 0x007F_FFFF), Ok(0xFFFF_FE00));
    assert_eq!(block_address(CardType::Sdsc, u32::MAX), Err(SdError::Timeout));
}

#[test]
fn block_addrs_are_distinct() {
    for card_type in [CardType::Sdsc, CardType::Sdhc] {
        let mut seen = Vec::new();
        for lba in [0, 1, 2, 511, 512, 513, 0x007F_FFFE, 0x007F_FFFF] {
            let addr = block_address(card_type, lba).unwrap();
            assert!(!seen.contains(&addr));
            seen.push(addr);
        }
    }
}
