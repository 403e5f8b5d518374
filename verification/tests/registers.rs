//! The fields of the USDHC registers, against the register definitions.

use imxrt_ral::usdhc;
use imxrt_usdhc::cmd::{UsdCmdFlags, USDHC_INT_ERROR_MASK};
use imxrt_usdhc::{reg, sequence, transfer, Block};

#[test]
fn present_state_fields() {
    assert_eq!(reg::CIHB, usdhc::PRES_STATE::CIHB::mask);
    assert_eq!(reg::CDIHB, usdhc::PRES_STATE::CDIHB::mask);
    assert_eq!(reg::SDSTB, usdhc::PRES_STATE::SDSTB::mask);
}

#[test]
fn interrupt_status_fields() {
    assert_eq!(reg::INT_CC, usdhc::INT_STATUS::CC::mask);
    assert_eq!(reg::INT_TC, usdhc::INT_STATUS::TC::mask);
    assert_eq!(reg::INT_BWR, usdhc::INT_STATUS::BWR::mask);
    assert_eq!(reg::INT_BRR, usdhc::INT_STATUS::BRR::mask);
    assert_eq!(reg::INT_CTOE, usdhc::INT_STATUS::CTOE::mask);
    assert_eq!(reg::INT_CCE, usdhc::INT_STATUS::CCE::mask);
    assert_eq!(reg::INT_DTOE, usdhc::INT_STATUS::DTOE::mask);
    assert_eq!(reg::INT_DCE, usdhc::INT_STATUS::DCE::mask);
}

#[test]
fn error_mask_is_bits_16_to_28() {
    let mut mask = 0u32;
    for bit in 16..=28 {
        mask |= 1 << bit;
    }
    assert_eq!(USDHC_INT_ERROR_MASK, mask);
    assert_ne!(USDHC_INT_ERROR_MASK & usdhc::INT_STATUS::DMAE::mask, 0);
}

#[test]
fn system_control_fields() {
    assert_eq!(reg::DVS_MASK, usdhc::SYS_CTRL::DVS::mask);
    assert_eq!(reg::SDCLKFS_MASK, usdhc::SYS_CTRL::SDCLKFS::mask);
    assert_eq!(reg::DTOCV_MASK, usdhc::SYS_CTRL::DTOCV::mask);
    assert_eq!(sequence::DATA_TIMEOUT, 0xE << usdhc::SYS_CTRL::DTOCV::offset);
    assert_eq!(reg::RSTA, usdhc::SYS_CTRL::RSTA::mask);
    assert_eq!(reg::RSTC, usdhc::SYS_CTRL::RSTC::mask);
    assert_eq!(reg::RSTD, usdhc::SYS_CTRL::RSTD::mask);
    assert_eq!(reg::INITA, usdhc::SYS_CTRL::INITA::mask);
}

#[test]
fn other_control_fields() {
    assert_eq!(reg::DTDSEL, usdhc::MIX_CTRL::DTDSEL::mask);
    assert_eq!(reg::FRC_SDCLK_ON, usdhc::VEND_SPEC::FRC_SDCLK_ON::mask);
    assert_eq!(reg::DTW_MASK, usdhc::PROT_CTRL::DTW::mask);
    assert_eq!(sequence::DTW_FOUR, 1 << usdhc::PROT_CTRL::DTW::offset);
    assert_eq!(sequence::ONE_BIT_LITTLE_ENDIAN, 2 << usdhc::PROT_CTRL::EMODE::offset);
    assert_eq!(
        sequence::FULL_BLOCK_WATERMARK,
        128 << usdhc::WTMK_LVL::RD_WML::offset | 128 << usdhc::WTMK_LVL::WR_WML::offset
    );
    assert_eq!(
        transfer::ONE_BLOCK,
        512 << usdhc::BLK_ATT::BLKSIZE::offset | 1 << usdhc::BLK_ATT::BLKCNT::offset
    );
}

#[test]
fn polled_flags() {
    let flags = usdhc::INT_STATUS_EN::CCSEN::mask
        | usdhc::INT_STATUS_EN::TCSEN::mask
        | usdhc::INT_STATUS_EN::BWRSEN::mask
        | usdhc::INT_STATUS_EN::BRRSEN::mask
        | usdhc::INT_STATUS_EN::CTOESEN::mask
        | usdhc::INT_STATUS_EN::CCESEN::mask
        | usdhc::INT_STATUS_EN::CEBESEN::mask
        | usdhc::INT_STATUS_EN::CIESEN::mask
        | usdhc::INT_STATUS_EN::DTOESEN::mask
        | usdhc::INT_STATUS_EN::DCESEN::mask
        | usdhc::INT_STATUS_EN::DEBESEN::mask;
    assert_eq!(sequence::POLLED_FLAGS, flags);
}

/// CMD_XFR_TYP from its named fields.
fn xfr_typ(cmd_index: u32, rsptyp: u32, checks: u32) -> u32 {
    ((cmd_index << usdhc::CMD_XFR_TYP::CMDINX::offset) & usdhc::CMD_XFR_TYP::CMDINX::mask)
        | (rsptyp << usdhc::CMD_XFR_TYP::RSPTYP::offset)
        | (checks << usdhc::CMD_XFR_TYP::CCCEN::offset)
        | (checks << usdhc::CMD_XFR_TYP::CICEN::offset)
}

#[test]
fn command_transfer_types() {
    assert_eq!(reg::CCCEN, usdhc::CMD_XFR_TYP::CCCEN::mask);
    assert_eq!(reg::CICEN, usdhc::CMD_XFR_TYP::CICEN::mask);
    assert_eq!(reg::DPSEL, usdhc::CMD_XFR_TYP::DPSEL::mask);
    assert_eq!(reg::CMDINX_MASK, usdhc::CMD_XFR_TYP::CMDINX::mask);
    for index in [0, 1, 8, 41, 55, 63, 64, 0xFFFF_FFFF] {
        assert_eq!(UsdCmdFlags::NoResponse.write_cmd_xfr_typ(index), xfr_typ(index, 0, 0));
        assert_eq!(UsdCmdFlags::R1.write_cmd_xfr_typ(index), xfr_typ(index, 2, 1));
        assert_eq!(UsdCmdFlags::R6.write_cmd_xfr_typ(index), xfr_typ(index, 2, 1));
        assert_eq!(UsdCmdFlags::R7.write_cmd_xfr_typ(index), xfr_typ(index, 2, 1));
        assert_eq!(UsdCmdFlags::R1B.write_cmd_xfr_typ(index), xfr_typ(index, 3, 1));
        assert_eq!(UsdCmdFlags::R2.write_cmd_xfr_typ(index), xfr_typ(index, 1, 0));
        assert_eq!(UsdCmdFlags::R3.write_cmd_xfr_typ(index), xfr_typ(index, 2, 0));
    }
    assert_eq!(UsdCmdFlags::R1.write_cmd_xfr_typ(13), 0x0D1A_0000);
}

#[test]
fn blocks_are_as_long_as_those_of_the_filesystem() {
    assert_eq!(Block::new().contents, embedded_sdmmc::Block::new().contents);
    assert_eq!(Block::new().contents.len(), embedded_sdmmc::Block::LEN);
}
