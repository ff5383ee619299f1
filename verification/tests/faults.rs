//! Injected bus faults: errors surface, chip-select is released, and the
//! handle stays usable.

use w25q128jv::{Error, SimBus, W25q128jv};

#[test]
fn fault_during_identify_surfaces_and_releases_cs() {
    let mut sim = SimBus::new(1, 1);
    sim.arm_fault();
    let mut flash = W25q128jv::new(sim);
    let r = flash.read_jedec_id();
    assert!(matches!(r, Err(Error::Bus(_))));
    // Chip-select was released on the error path and the handle works.
    let id = flash.read_jedec_id().unwrap();
    assert_eq!(id, (0xEF, 0x40, 0x18));
    let sim = flash.release();
    assert!(!sim.cs_is_low());
}

#[test]
fn fault_during_program_surfaces_and_releases_cs() {
    let sim = SimBus::new(1, 1);
    let mut flash = W25q128jv::new(sim);
    flash.init();
    flash.erase_sector(0x000000).unwrap();
    // The armed fault hits the status poll of the wait before the
    // program; the array must be untouched.
    let mut sim = flash.release();
    sim.arm_fault();
    let mut flash = W25q128jv::new(sim);
    let r = flash.write_data(0x000000, &vec![0x00, 0x01]);
    assert!(matches!(r, Err(Error::Bus(_))));
    let mut out = vec![0u8; 2];
    flash.read_data(0x000000, &mut out).unwrap();
    assert_eq!(out, vec![0xFF, 0xFF]);
}

#[test]
fn fault_during_status_read_surfaces() {
    let mut sim = SimBus::new(1, 1);
    sim.arm_fault();
    let mut flash = W25q128jv::new(sim);
    let r = flash.read_status_register();
    assert!(matches!(r, Err(Error::Bus(_))));
    assert_eq!(flash.read_status_register().unwrap(), 0x00);
}
