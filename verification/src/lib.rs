//! Driver for the Winbond W25Q128JV serial NOR flash memory.
//!
//! The driver translates read / program / erase requests into the byte
//! sequences of the chip's SPI command set, frames every command with the
//! chip-select line, and synchronizes with the chip's internal busy state.
//! It is written against [`bus::FlashBus`], a narrow interface to the SPI
//! endpoint, the chip-select pin and a delay source; [`sim::SimBus`] is a
//! verified software model of the chip behind such a bus, and an embedded
//! integration supplies the hardware implementation outside this crate.
//!
//! The wire protocol itself is formalized in [`protocol`] as a transition
//! system over [`protocol::ChipState`]; every operation of the public
//! driver [`driver::W25q128jv`] carries a contract stated over that model.

pub mod protocol;
pub mod bus;
pub mod driver;
pub mod sim;
pub mod laws;

pub use protocol::{
    ChipState, JEDEC_MAN_ID, JEDEC_MEM_TYPE, JEDEC_CAPACITY, SECTOR_SIZE, PAGE_SIZE, DEVICE_SIZE,
    OPCODE_READ_JEDEC_ID, OPCODE_READ_STATUS_REG_1, OPCODE_WRITE_ENABLE, OPCODE_READ_DATA,
    OPCODE_FAST_READ, OPCODE_PAGE_PROGRAM, OPCODE_SECTOR_ERASE,
};
pub use bus::{BusFault, FlashBus};
pub use driver::{Error, W25q128jv, pack_address, status_is_busy, validate_program, validate_erase};
pub use sim::SimBus;
