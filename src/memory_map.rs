//! Physical base addresses of the SoC's memory and peripherals.
use vstd::prelude::*;

verus! {

/// Start of the RAM.
pub const DRAM_START: u32 = 0x8000_0000;

/// End of the RAM.
pub const DRAM_END: u32 = 0x9FFF_FFFF;

/// Serial ports.
pub const UART0: u32 = 0x44E0_9000;
pub const UART1: u32 = 0x4802_2000;
pub const UART2: u32 = 0x4802_4000;
pub const UART3: u32 = 0x481A_6000;
pub const UART4: u32 = 0x481A_8000;
pub const UART5: u32 = 0x481A_A000;

/// Interrupt controller.
pub const IRQ_CONTROLLER: u32 = 0x4820_0000;

/// General-purpose timer.
pub const TIMER0: u32 = 0x44E0_5000;

/// Watchdog timer.
pub const WATCHDOG: u32 = 0x44E3_5000;

/// GPIO banks.
pub const GPIO0: u32 = 0x44E0_7000;
pub const GPIO1: u32 = 0x4804_C000;
pub const GPIO2: u32 = 0x481A_C000;
pub const GPIO3: u32 = 0x481A_E000;

/// Control module.
pub const CONTROL: u32 = 0x44E1_0000;

} // verus!
