//! Boundary behaviour, argument validation and the pure helpers.

use w25q128jv::{
    Error, SimBus, W25q128jv, pack_address, status_is_busy, validate_erase, validate_program,
    DEVICE_SIZE, PAGE_SIZE, SECTOR_SIZE,
};

fn fresh_flash() -> W25q128jv<SimBus> {
    let sim = SimBus::new(1, 1);
    let mut flash = W25q128jv::new(sim);
    flash.init();
    flash
}

#[test]
fn zero_length_read_is_accepted() {
    // A zero-length buffer returns successfully with no data phase and
    // chip-select released; it is not rejected.
    let mut flash = fresh_flash();
    let mut out: Vec<u8> = Vec::new();
    flash.read_data(0x000000, &mut out).unwrap();
    assert_eq!(out.len(), 0);
    let sim = flash.release();
    assert!(!sim.cs_is_low());
}

#[test]
fn program_exactly_one_page_succeeds() {
    let mut flash = fresh_flash();
    flash.erase_sector(0x000000).unwrap();
    let page = vec![0x5A; 256];
    flash.write_data(0x000000, &page).unwrap();
    let mut out = vec![0u8; 256];
    flash.read_data(0x000000, &mut out).unwrap();
    assert_eq!(out, page);
}

#[test]
fn program_over_one_page_is_rejected() {
    let mut flash = fresh_flash();
    let too_long = vec![0x00; 257];
    let r = flash.write_data(0x000000, &too_long);
    assert_eq!(r, Err(Error::DataTooLong { len: 257 }));
}

#[test]
fn program_empty_is_rejected() {
    let mut flash = fresh_flash();
    let r = flash.write_data(0x000000, &Vec::new());
    assert_eq!(r, Err(Error::DataEmpty));
}

#[test]
fn program_crossing_page_boundary_is_rejected() {
    let mut flash = fresh_flash();
    let data = vec![0x00; 129];
    let r = flash.write_data(0x000080, &data);
    assert_eq!(r, Err(Error::PageBoundaryCrossed { address: 0x80, len: 129 }));
}

#[test]
fn program_address_out_of_range_is_rejected() {
    let mut flash = fresh_flash();
    let r = flash.write_data(0x0100_0000, &vec![0x00]);
    assert_eq!(r, Err(Error::AddressOutOfRange { address: 0x0100_0000 }));
}

#[test]
fn read_address_out_of_range_is_rejected() {
    let mut flash = fresh_flash();
    let mut out = vec![0u8; 4];
    let r = flash.read_data(0x0100_0000, &mut out);
    assert_eq!(r, Err(Error::AddressOutOfRange { address: 0x0100_0000 }));
    let r2 = flash.fast_read(0xFFFF_FFFF, &mut out);
    assert_eq!(r2, Err(Error::AddressOutOfRange { address: 0xFFFF_FFFF }));
}

#[test]
fn erase_unaligned_is_rejected() {
    let mut flash = fresh_flash();
    let r = flash.erase_sector(0x000123);
    assert_eq!(r, Err(Error::NotSectorAligned { address: 0x123 }));
    let r2 = flash.erase_sector(0x0100_0000);
    assert_eq!(r2, Err(Error::AddressOutOfRange { address: 0x0100_0000 }));
}

#[test]
fn pack_address_is_big_endian() {
    assert_eq!(pack_address(0x123456), (0x12, 0x34, 0x56));
    assert_eq!(pack_address(0x000000), (0x00, 0x00, 0x00));
    assert_eq!(pack_address(0xFFFFFF), (0xFF, 0xFF, 0xFF));
    assert_eq!(pack_address(0x000A0B), (0x00, 0x0A, 0x0B));
}

#[test]
fn status_busy_flag() {
    assert!(status_is_busy(0x01));
    assert!(status_is_busy(0x03));
    assert!(!status_is_busy(0x00));
    assert!(!status_is_busy(0x02));
}

#[test]
fn validation_order_and_outcomes() {
    assert_eq!(validate_program(0x000000, 1), None);
    assert_eq!(validate_program(0x000000, 256), None);
    // Length checks come before the address check.
    assert_eq!(validate_program(0x0100_0000, 0), Some(Error::DataEmpty));
    assert_eq!(validate_program(0x0100_0000, 300), Some(Error::DataTooLong { len: 300 }));
    assert_eq!(
        validate_program(0x0100_0000, 10),
        Some(Error::AddressOutOfRange { address: 0x0100_0000 })
    );
    assert_eq!(
        validate_program(0x0000FF, 2),
        Some(Error::PageBoundaryCrossed { address: 0xFF, len: 2 })
    );
    assert_eq!(validate_erase(0x003000), None);
    assert_eq!(validate_erase(0x003001), Some(Error::NotSectorAligned { address: 0x3001 }));
    assert_eq!(
        validate_erase(0x0100_0000),
        Some(Error::AddressOutOfRange { address: 0x0100_0000 })
    );
}

#[test]
fn exported_sizes() {
    assert_eq!(SECTOR_SIZE, 4096);
    assert_eq!(PAGE_SIZE, 256);
    assert_eq!(DEVICE_SIZE, 16 * 1024 * 1024);
}
