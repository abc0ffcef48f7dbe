//! Ownership and control of the memory-mapped peripherals of the Sitara
//! AM335x system-on-chip: the interrupt controller, the GPIO banks and the
//! serial ports, reached through a register bus.
pub mod bsp;
pub mod bus;
pub mod console;
pub mod control_mod;
pub mod gpio;
pub mod interrupt_controller;
pub mod memory_map;
pub mod timer;
pub mod uart;
pub mod watchdog;
