//! End-to-end scenarios against the simulated chip.

use w25q128jv::{
    SimBus, W25q128jv, FlashBus, JEDEC_CAPACITY, JEDEC_MAN_ID, JEDEC_MEM_TYPE,
};

fn fresh_flash() -> W25q128jv<SimBus> {
    let sim = SimBus::new(2, 4);
    let mut flash = W25q128jv::new(sim);
    flash.init();
    flash
}

#[test]
fn identify() {
    let mut flash = fresh_flash();
    let id = flash.read_jedec_id().unwrap();
    assert_eq!(id, (0xEF, 0x40, 0x18));
    assert_eq!(id, (JEDEC_MAN_ID, JEDEC_MEM_TYPE, JEDEC_CAPACITY));
}

#[test]
fn blank_read() {
    let mut flash = fresh_flash();
    flash.erase_sector(0x000000).unwrap();
    let mut out = vec![0u8; 16];
    flash.read_data(0x000000, &mut out).unwrap();
    assert_eq!(out, vec![0xFF; 16]);
}

#[test]
fn program_and_read_back() {
    let mut flash = fresh_flash();
    let data = vec![0xAB, 0xCD, 0xEF, 0x12, 0x34, 0x56, 0x78, 0x9A];
    flash.erase_sector(0x000000).unwrap();
    flash.write_data(0x000000, &data).unwrap();
    let mut out = vec![0u8; 8];
    flash.read_data(0x000000, &mut out).unwrap();
    assert_eq!(out, data);
}

#[test]
fn erase_restores() {
    let mut flash = fresh_flash();
    let data = vec![0xAB, 0xCD, 0xEF, 0x12, 0x34, 0x56, 0x78, 0x9A];
    flash.erase_sector(0x000000).unwrap();
    flash.write_data(0x000000, &data).unwrap();
    flash.erase_sector(0x000000).unwrap();
    let mut out = vec![0u8; 16];
    flash.read_data(0x000000, &mut out).unwrap();
    assert_eq!(out, vec![0xFF; 16]);
}

#[test]
fn status_transitions() {
    // Leave the chip mid-erase by driving the frames directly, so the
    // injected latency is observable before any waiting operation runs.
    let mut sim = SimBus::new(2, 4);
    sim.set_cs_low();
    sim.bus_write(&vec![0x06]).unwrap();
    sim.set_cs_high();
    sim.set_cs_low();
    sim.bus_write(&vec![0xD8, 0x00, 0x00, 0x00]).unwrap();
    sim.set_cs_high();
    let mut flash = W25q128jv::new(sim);
    assert!(flash.is_busy().unwrap());
    // Any waiting operation rides the busy period out.
    let mut out = vec![0u8; 1];
    flash.read_data(0x000000, &mut out).unwrap();
    assert!(!flash.is_busy().unwrap());
    // Immediately after write_data returns, the chip reports idle.
    flash.write_data(0x000000, &vec![0x55]).unwrap();
    assert!(!flash.is_busy().unwrap());
    assert_eq!(flash.read_status_register().unwrap() & 0x01, 0);
}

#[test]
fn fast_read_equivalence() {
    let mut flash = fresh_flash();
    let data = vec![0xAB, 0xCD, 0xEF, 0x12, 0x34, 0x56, 0x78, 0x9A];
    flash.erase_sector(0x000000).unwrap();
    flash.write_data(0x000000, &data).unwrap();
    let mut standard = vec![0u8; 8];
    flash.read_data(0x000000, &mut standard).unwrap();
    let mut fast = vec![0u8; 8];
    flash.fast_read(0x000000, &mut fast).unwrap();
    assert_eq!(fast, standard);
    assert_eq!(fast, data);
}

#[test]
fn erased_range_within_sector_reads_ones() {
    let mut flash = fresh_flash();
    // Dirty a few bytes spread over the first sector, then erase it.
    flash.erase_sector(0x000000).unwrap();
    flash.write_data(0x000100, &vec![0x00, 0x11, 0x22]).unwrap();
    flash.write_data(0x000f00, &vec![0x33]).unwrap();
    flash.erase_sector(0x000000).unwrap();
    let mut out = vec![0u8; 20];
    flash.read_data(0x000103, &mut out).unwrap();
    assert_eq!(out, vec![0xFF; 20]);
}

#[test]
fn round_trip_full_page() {
    let mut flash = fresh_flash();
    let mut page = Vec::new();
    for i in 0..256usize {
        page.push((i % 256) as u8);
    }
    flash.erase_sector(0x000000).unwrap();
    flash.write_data(0x000100, &page).unwrap();
    let mut out = vec![0u8; 256];
    flash.read_data(0x000100, &mut out).unwrap();
    assert_eq!(out, page);
}

#[test]
fn program_only_clears_bits() {
    let mut flash = fresh_flash();
    flash.erase_sector(0x000000).unwrap();
    flash.write_data(0x000005, &vec![0xF0]).unwrap();
    flash.write_data(0x000005, &vec![0x3C]).unwrap();
    let mut out = vec![0u8; 1];
    flash.read_data(0x000005, &mut out).unwrap();
    assert_eq!(out[0], 0xF0 & 0x3C);
    assert_eq!(out[0], 0x30);
    // The neighbouring bytes are untouched.
    let mut next = vec![0u8; 2];
    flash.read_data(0x000006, &mut next).unwrap();
    assert_eq!(next, vec![0xFF; 2]);
}

#[test]
fn jedec_id_during_erase() {
    let mut sim = SimBus::new(2, 10);
    sim.set_cs_low();
    sim.bus_write(&vec![0x06]).unwrap();
    sim.set_cs_high();
    sim.set_cs_low();
    sim.bus_write(&vec![0xD8, 0x00, 0x00, 0x00]).unwrap();
    sim.set_cs_high();
    let mut flash = W25q128jv::new(sim);
    assert!(flash.is_busy().unwrap());
    let id = flash.read_jedec_id().unwrap();
    assert_eq!(id, (0xEF, 0x40, 0x18));
    assert!(flash.is_busy().unwrap());
}
