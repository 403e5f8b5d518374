//! The driver from end to end, with a simulated card.

use imxrt_usdhc::fake::{CardConfig, FakeSdHost};
use imxrt_usdhc::{Block, BusWidth, CardType, SdError, SdProtocol, Usdhc};

fn sdhc_driver() -> Usdhc<FakeSdHost> {
    Usdhc::new(FakeSdHost::with_sdhc_card(8_388_608)).unwrap()
}

#[test]
fn e2e_sdhc_init_and_properties() {
    let driver = sdhc_driver();
    assert_eq!(driver.card_type(), CardType::Sdhc);
    assert_eq!(driver.block_count(), 8_388_608);
    assert_eq!(driver.capacity_mb(), 4096);
    // Full init sequence: clock should have been raised to 25 MHz, bus switched to 4-bit.
    assert_eq!(driver.host().clock_hz, 25_000_000);
    assert_eq!(driver.host().bus_width, BusWidth::Four);
}

#[test]
fn e2e_sdsc_init_and_properties() {
    let driver = Usdhc::new(FakeSdHost::with_sdsc_card(262_144)).unwrap();
    assert_eq!(driver.card_type(), CardType::Sdsc);
    assert_eq!(driver.block_count(), 262_144);
    assert_eq!(driver.host().clock_hz, 25_000_000);
    assert_eq!(driver.host().bus_width, BusWidth::Four);
}

#[test]
fn e2e_no_card_returns_error() {
    assert!(Usdhc::new(FakeSdHost::empty()).is_err());
}

#[test]
fn e2e_card_status() {
    let mut driver = sdhc_driver();
    // Fake returns CURRENT_STATE=4 (Transfer) in R1 bits [12:9]
    assert_eq!(driver.card_status().unwrap(), 4 << 9);
}

#[test]
fn e2e_num_blocks() {
    let driver = sdhc_driver();
    assert_eq!(driver.num_blocks().unwrap(), 8_388_608);
}

#[test]
fn e2e_block_device_write_read_single() {
    let mut driver = sdhc_driver();
    let mut block = Block::new();
    block.contents.fill(0xAB);
    driver.write(&[block.clone()], 100).unwrap();

    let mut read_blocks = [Block::new()];
    driver.read(&mut read_blocks, 100).unwrap();
    assert_eq!(read_blocks[0].contents, block.contents);
}

#[test]
fn e2e_block_device_write_read_multi() {
    let mut driver = sdhc_driver();
    let mut blocks: [Block; 4] = core::array::from_fn(|_| Block::new());
    for (i, b) in blocks.iter_mut().enumerate() {
        b.contents.fill(0x10 + i as u8);
    }
    driver.write(&blocks, 200).unwrap();

    let mut read_blocks: [Block; 4] = core::array::from_fn(|_| Block::new());
    driver.read(&mut read_blocks, 200).unwrap();
    for (i, (written, read)) in blocks.iter().zip(read_blocks.iter()).enumerate() {
        assert_eq!(read.contents, written.contents, "block {i} mismatch");
    }
}

#[test]
fn e2e_unwritten_block_reads_zeros() {
    let mut driver = sdhc_driver();
    let mut blocks = [Block::new()];
    blocks[0].contents.fill(0xFF);
    driver.read(&mut blocks, 0).unwrap();
    assert_eq!(blocks[0].contents, [0u8; 512]);
}

#[test]
fn e2e_sdsc_write_read_via_block_device() {
    // Verify that byte-address translation (LBA × 512) goes through
    // correctly on an SDSC card.
    let mut driver = Usdhc::new(FakeSdHost::with_sdsc_card(262_144)).unwrap();
    let mut block = Block::new();
    block.contents.fill(0xCD);
    driver.write(&[block.clone()], 42).unwrap();

    let mut read_blocks = [Block::new()];
    driver.read(&mut read_blocks, 42).unwrap();
    assert_eq!(read_blocks[0].contents, block.contents);
}

#[test]
fn e2e_power_cycle_without_reinit_returns_error() {
    // After a card power cycle the card state machine drops back to Idle.
    // Any I/O attempt — read, write, or card_status — must fail because
    // the driver has not re-run the init sequence.
    let mut driver = sdhc_driver();

    driver.host_mut().power_cycle();

    assert!(
        driver.read(&mut [Block::new()], 0).is_err(),
        "read after power cycle should return an error"
    );
    assert!(
        driver.write(&[Block::new()], 0).is_err(),
        "write after power cycle should return an error"
    );
    assert!(
        driver.card_status().is_err(),
        "card_status after power cycle should return an error"
    );
}

#[test]
fn e2e_power_cycle_reinit_retains_data() {
    // Write blocks, power cycle, reinitialize with the same host (same
    // underlying flash storage), and confirm the data survives.
    let mut driver = sdhc_driver();

    let mut block_a = Block::new();
    let mut block_b = Block::new();
    block_a.contents.fill(0x11);
    block_b.contents.fill(0x22);
    driver.write(&[block_a.clone()], 10).unwrap();
    driver.write(&[block_b.clone()], 11).unwrap();

    // Verify data is readable before the power cycle.
    let mut readback: [Block; 2] = core::array::from_fn(|_| Block::new());
    driver.read(&mut readback, 10).unwrap();
    assert_eq!(readback[0].contents, block_a.contents);
    assert_eq!(readback[1].contents, block_b.contents);

    // Simulate card power cycle: card resets to Idle, block storage preserved.
    let mut host = driver.into_host();
    host.power_cycle();

    // Reinitialize the driver with the same host.
    let mut driver2 = Usdhc::new(host).unwrap();

    // Data must still be readable after reinit.
    let mut readback2: [Block; 2] = core::array::from_fn(|_| Block::new());
    driver2.read(&mut readback2, 10).unwrap();
    assert_eq!(readback2[0].contents, block_a.contents);
    assert_eq!(readback2[1].contents, block_b.contents);
}

#[test]
fn power_cycle_errors_and_status() {
    let mut driver = sdhc_driver();
    driver.host_mut().power_cycle();
    let wrong = SdError::CommandFailed(0x0001_0000);
    assert_eq!(driver.read(&mut [Block::new()], 0), Err(wrong));
    assert_eq!(driver.write(&[Block::new()], 0), Err(wrong));
    assert_eq!(driver.card_status(), Err(wrong));
    // The peripheral's clock is not affected, the bus width is.
    assert_eq!(driver.host().clock_hz, 25_000_000);
    assert_eq!(driver.host().bus_width, BusWidth::One);
}

#[test]
fn reinit_without_power_cycle_succeeds() {
    let mut driver = sdhc_driver();
    let mut block = Block::new();
    block.contents.fill(0x33);
    driver.write(&[block], 5).unwrap();
    let mut again = Usdhc::new(driver.into_host()).unwrap();
    let mut out = [Block::new()];
    again.read(&mut out, 5).unwrap();
    assert_eq!(out[0].contents, [0x33u8; 512]);
}

#[test]
fn init_error_values() {
    assert_eq!(Usdhc::new(FakeSdHost::empty()).err(), Some(SdError::Timeout));
    let stuck = FakeSdHost::with_card(CardConfig {
        acmd41_slow_count: 1_000,
        ..CardConfig::sdhc(1_024)
    });
    assert_eq!(Usdhc::new(stuck).err(), Some(SdError::NoCard));
}

#[test]
fn init_protocol_keeps_what_it_is_told() {
    let proto = SdProtocol {
        host: FakeSdHost::with_sdsc_card(1_024),
        card_type: CardType::Sdhc,
        block_count: 77,
        rca: 0xFFFF,
    };
    let driver = Usdhc::init_protocol(proto).unwrap();
    assert_eq!(driver.card_type(), CardType::Sdsc);
    assert_eq!(driver.block_count(), 1_024);
    assert_eq!(driver.capacity_mb(), 0);
}

#[test]
fn blocks_are_transferred_up_to_the_first_without_an_address() {
    let mut driver = Usdhc::new(FakeSdHost::with_sdsc_card(1_024)).unwrap();
    let last = 0x007F_FFFF;
    let mut blocks: [Block; 3] = core::array::from_fn(|_| Block::new());
    for b in blocks.iter_mut() {
        b.contents.fill(0x77);
    }
    // Only the first of the three has an address.
    assert_eq!(driver.write(&blocks, last), Err(SdError::Timeout));
    let mut out: [Block; 2] = core::array::from_fn(|_| Block::new());
    out[1].contents.fill(0x99);
    assert_eq!(driver.read(&mut out, last), Err(SdError::Timeout));
    assert_eq!(out[0].contents, [0x77u8; 512]);
    assert_eq!(out[1].contents, [0x99u8; 512]);
}

#[test]
fn no_blocks_at_all() {
    let mut driver = sdhc_driver();
    driver.host_mut().power_cycle();
    assert_eq!(driver.read(&mut [], 0), Ok(()));
    assert_eq!(driver.write(&[], u32::MAX), Ok(()));
}

#[test]
fn last_block_index() {
    let mut driver = sdhc_driver();
    let mut block = Block::new();
    block.contents.fill(0x42);
    driver.write(&[block], u32::MAX).unwrap();
    let mut out = [Block::new()];
    driver.read(&mut out, u32::MAX).unwrap();
    assert_eq!(out[0].contents, [0x42u8; 512]);
}
