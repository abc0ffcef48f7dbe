//! Board support for the BeagleBone: the pins of its expansion headers.
use vstd::prelude::*;

use crate::bus::{access_value, Access, RegisterBus};
use crate::control_mod::{Control, CONF_NUM};
use crate::gpio::{pin_mask, Gpio, Output, Pin, MAX_GPIO_BASE, OE};
use crate::memory_map;

verus! {

/// The offset of the pad configuration of GPIO `pin` in the control module,
/// for the pins of the P9 header that are free for general use.
pub open spec fn pin_conf_offset(pin: u8) -> Option<u32> {
    match pin {
        38 => Some(0x018u32),
        39 => Some(0x01cu32),
        34 => Some(0x008u32),
        35 => Some(0x00cu32),
        66 => Some(0x090u32),
        67 => Some(0x094u32),
        69 => Some(0x09cu32),
        68 => Some(0x098u32),
        45 => Some(0x034u32),
        44 => Some(0x030u32),
        23 => Some(0x024u32),
        26 => Some(0x028u32),
        47 => Some(0x03cu32),
        46 => Some(0x038u32),
        27 => Some(0x02cu32),
        65 => Some(0x08cu32),
        22 => Some(0x020u32),
        63 => Some(0x084u32),
        62 => Some(0x080u32),
        37 => Some(0x014u32),
        36 => Some(0x010u32),
        33 => Some(0x004u32),
        32 => Some(0x000u32),
        61 => Some(0x07cu32),
        86 => Some(0x0e0u32),
        88 => Some(0x0e8u32),
        87 => Some(0x0e4u32),
        89 => Some(0x0ecu32),
        10 => Some(0x0d8u32),
        11 => Some(0x0dcu32),
        9 => Some(0x0d4u32),
        81 => Some(0x0ccu32),
        8 => Some(0x0d0u32),
        80 => Some(0x0c8u32),
        78 => Some(0x0c0u32),
        79 => Some(0x0c4u32),
        76 => Some(0x0b8u32),
        77 => Some(0x0bcu32),
        74 => Some(0x0b0u32),
        75 => Some(0x0b4u32),
        72 => Some(0x0a8u32),
        73 => Some(0x0acu32),
        70 => Some(0x0a0u32),
        71 => Some(0x0a4u32),
        30 => Some(0x070u32),
        60 => Some(0x078u32),
        31 => Some(0x074u32),
        50 => Some(0x048u32),
        48 => Some(0x040u32),
        51 => Some(0x04cu32),
        5 => Some(0x15cu32),
        4 => Some(0x158u32),
        3 => Some(0x154u32),
        2 => Some(0x150u32),
        49 => Some(0x044u32),
        15 => Some(0x184u32),
        14 => Some(0x180u32),
        115 => Some(0x1a4u32),
        20 => Some(0x1b4u32),
        116 => Some(0x1a8u32),
        7 => Some(0x164u32),
        _ => None,
    }
}

/// The offset of the pad configuration of GPIO `gpio_pin` in the control
/// module, if it is one of the P9 header's pins free for general use.
pub fn get_pin_addr(gpio_pin: u8) -> (r: Option<u32>)
    ensures
        r == pin_conf_offset(gpio_pin),
{
    match gpio_pin {
        38 => Some(0x018),
        39 => Some(0x01c),
        34 => Some(0x008),
        35 => Some(0x00c),
        66 => Some(0x090),
        67 => Some(0x094),
        69 => Some(0x09c),
        68 => Some(0x098),
        45 => Some(0x034),
        44 => Some(0x030),
        23 => Some(0x024),
        26 => Some(0x028),
        47 => Some(0x03c),
        46 => Some(0x038),
        27 => Some(0x02c),
        65 => Some(0x08c),
        22 => Some(0x020),
        63 => Some(0x084),
        62 => Some(0x080),
        37 => Some(0x014),
        36 => Some(0x010),
        33 => Some(0x004),
        32 => Some(0x000),
        61 => Some(0x07c),
        86 => Some(0x0e0),
        88 => Some(0x0e8),
        87 => Some(0x0e4),
        89 => Some(0x0ec),
        10 => Some(0x0d8),
        11 => Some(0x0dc),
        9 => Some(0x0d4),
        81 => Some(0x0cc),
        8 => Some(0x0d0),
        80 => Some(0x0c8),
        78 => Some(0x0c0),
        79 => Some(0x0c4),
        76 => Some(0x0b8),
        77 => Some(0x0bc),
        74 => Some(0x0b0),
        75 => Some(0x0b4),
        72 => Some(0x0a8),
        73 => Some(0x0ac),
        70 => Some(0x0a0),
        71 => Some(0x0a4),
        30 => Some(0x070),
        60 => Some(0x078),
        31 => Some(0x074),
        50 => Some(0x048),
        48 => Some(0x040),
        51 => Some(0x04c),
        5 => Some(0x15c),
        4 => Some(0x158),
        3 => Some(0x154),
        2 => Some(0x150),
        49 => Some(0x044),
        15 => Some(0x184),
        14 => Some(0x180),
        115 => Some(0x1a4),
        20 => Some(0x1b4),
        116 => Some(0x1a8),
        7 => Some(0x164),
        _ => None,
    }
}

/// Writes `state` to the pad configuration of GPIO `pin`, taking the table's
/// offset as the register's index; `None`, with no access, for a pin not in
/// the table. An index past the last register is refused by the control
/// module without any access.
pub fn set_gpio_status<B: RegisterBus>(bus: &mut B, pin: u8, control_mod: &Control, state: u32) -> (r:
    Option<()>)
    ensures
        r is Some <==> pin_conf_offset(pin) is Some,
        match pin_conf_offset(pin) {
            Some(index) => if index < CONF_NUM {
                final(bus).trace() == old(bus).trace().push(
                    Access::Write { addr: control_mod.conf_address(index as int), value: state },
                )
            } else {
                final(bus).trace() == old(bus).trace()
            },
            None => final(bus).trace() == old(bus).trace(),
        },
{
    let index = get_pin_addr(pin)?;
    control_mod.set(bus, index as usize, state);
    Some(())
}

/// Reads the pad configuration of GPIO `pin`, taking the table's offset as
/// the register's index; `None`, with no access, for a pin not in the table
/// or an index past the last register.
pub fn get_gpio_status<B: RegisterBus>(bus: &mut B, pin: u8, control_mod: &Control) -> (r: Option<
    u32,
>)
    ensures
        match pin_conf_offset(pin) {
            Some(index) => if index < CONF_NUM {
                &&& r is Some
                &&& final(bus).trace() == old(bus).trace().push(
                    Access::Read { addr: control_mod.conf_address(index as int), value: r->0 },
                )
            } else {
                r is None && final(bus).trace() == old(bus).trace()
            },
            None => r is None && final(bus).trace() == old(bus).trace(),
        },
{
    let index = get_pin_addr(pin)?;
    control_mod.get(bus, index as usize)
}

/// The physical base address of the GPIO bank that serves GPIO `pin`:
/// pins 0 to 127 fall in banks 0 to 3, 32 each.
pub open spec fn gpio_bank_of(pin: u8) -> Option<u32> {
    if pin / 32 == 0 {
        Some(memory_map::GPIO0)
    } else if pin / 32 == 1 {
        Some(memory_map::GPIO1)
    } else if pin / 32 == 2 {
        Some(memory_map::GPIO2)
    } else if pin / 32 == 3 {
        Some(memory_map::GPIO3)
    } else {
        None
    }
}

/// The physical base address of the GPIO bank that serves GPIO `pin`, if
/// any does.
pub fn gpio_bank_address(pin: u8) -> (r: Option<u32>)
    ensures
        r == gpio_bank_of(pin),
{
    match pin / 32 {
        0 => Some(memory_map::GPIO0),
        1 => Some(memory_map::GPIO1),
        2 => Some(memory_map::GPIO2),
        3 => Some(memory_map::GPIO3),
        _ => None,
    }
}

/// Claims GPIO `pin` as an output, in a fresh handle of the bank whose
/// registers start at `bank_addr`: its bit within the bank is `pin % 32`.
pub fn claim_output_pin<B: RegisterBus>(bus: &mut B, bank_addr: u32, pin: u8) -> (r: Option<
    Pin<Output>,
>)
    requires
        bank_addr <= MAX_GPIO_BASE,
    ensures
        r is Some,
        match r {
            Some(p) => {
                &&& p.number() == pin % 32 && p.bank() == bank_addr
                &&& ({
                    let v = access_value(final(bus).trace()[old(bus).trace().len() as int]);
                    final(bus).trace() == old(bus).trace().push(
                        Access::Read { addr: (bank_addr + OE) as u32, value: v },
                    ).push(
                        Access::Write {
                            addr: (bank_addr + OE) as u32,
                            value: v & !pin_mask((pin % 32) as nat),
                        },
                    )
                })
            },
            None => true,
        },
{
    let mut gpio = Gpio::new(bank_addr);
    let bit = pin % 32;
    proof {
        let b = bit as u32;
        assert(0u32 & (1u32 << b) == 0) by (bit_vector);
    }
    gpio.get_pin_as_output(bus, bit)
}

} // verus!
