//! Host side of a sandboxed guest on a microcontroller: the ledger of the
//! bounded heap, the pin registry, the engine of the shared bus with its table
//! of open devices, and the guest programs' own drawing and driver logic.

pub mod blinky;
pub mod boot;
pub mod bus;
pub mod delay;
pub mod gpio;
pub mod guest;
pub mod heap;
pub mod host;
pub mod spi;
pub mod table;
pub mod wire;
