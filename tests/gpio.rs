use sitara::bsp::{claim_output_pin, get_gpio_status, get_pin_addr, gpio_bank_address, set_gpio_status};
use sitara::bus::{Access, RegisterBus, RegisterStore};
use sitara::control_mod::Control;
use sitara::gpio::Gpio;
use sitara::memory_map;

const BANK: u32 = 0x4804_C000;
const OE: u32 = BANK + 0x134;
const DATAOUT: u32 = BANK + 0x13C;
const CLEARDATAOUT: u32 = BANK + 0x190;
const SETDATAOUT: u32 = BANK + 0x194;

#[test]
fn output_pin_is_handed_out_once() {
    let mut bus = RegisterStore::new();
    let mut gpio = Gpio::new(BANK);
    let first = gpio.get_pin_as_output(&mut bus, 5);
    assert!(first.is_some());
    assert!(gpio.get_pin_as_output(&mut bus, 5).is_none());
    assert!(gpio.get_pin_as_input(&mut bus, 5).is_none());
    assert_eq!(gpio.get_owned(), 1 << 5);
    assert_eq!(first.unwrap().get_number(), 5);
}

#[test]
fn pin_zero_is_handed_out_once() {
    let mut bus = RegisterStore::new();
    let mut gpio = Gpio::new(BANK);
    assert!(gpio.get_pin_as_input(&mut bus, 0).is_some());
    assert!(gpio.get_pin_as_output(&mut bus, 0).is_none());
}

#[test]
fn pins_past_31_are_refused() {
    let mut bus = RegisterStore::new();
    let mut gpio = Gpio::new(BANK);
    assert!(gpio.get_pin_as_output(&mut bus, 32).is_none());
    assert!(gpio.get_pin_as_input(&mut bus, 32).is_none());
    assert!(gpio.get_pin_as_output(&mut bus, 255).is_none());
    assert!(gpio.get_pin_as_output(&mut bus, 31).is_some());
    assert!(gpio.get_pin_as_output(&mut bus, 40).is_none());
    assert!(gpio.get_pin_as_input(&mut bus, 33).is_none());
    assert_eq!(gpio.get_owned(), 1 << 31);
    // No refused request touched a register.
    assert_eq!(bus.accesses().len(), 2);
}

#[test]
fn set_and_clear_write_the_pin_mask() {
    let mut bus = RegisterStore::new();
    let mut gpio = Gpio::new(BANK);
    let pin = gpio.get_pin_as_output(&mut bus, 3).unwrap();
    pin.set(&mut bus);
    assert_eq!(bus.writes(SETDATAOUT), vec![0x08]);
    pin.clear(&mut bus);
    assert_eq!(bus.writes(CLEARDATAOUT), vec![0x08]);
}

#[test]
fn direction_goes_to_the_output_enable_register() {
    let mut bus = RegisterStore::new();
    bus.write32(OE, 0xFFFF_FFFF);
    let mut gpio = Gpio::new(BANK);
    let _out = gpio.get_pin_as_output(&mut bus, 4).unwrap();
    assert_eq!(bus.peek(OE), 0xFFFF_FFEF);
    let _inp = gpio.get_pin_as_input(&mut bus, 5).unwrap();
    assert_eq!(bus.peek(OE), 0xFFFF_FFEF);
    bus.write32(OE, 0);
    let _inp = gpio.get_pin_as_input(&mut bus, 9).unwrap();
    assert_eq!(bus.peek(OE), 0x200);
}

#[test]
fn switch_flips_the_data_out_bit() {
    let mut bus = RegisterStore::new();
    let mut gpio = Gpio::new(BANK);
    let pin = gpio.get_pin_as_output(&mut bus, 7).unwrap();
    bus.write32(DATAOUT, 0x1);
    assert!(!pin.read(&mut bus));
    pin.switch(&mut bus);
    assert_eq!(bus.peek(DATAOUT), 0x81);
    assert!(pin.read(&mut bus));
    pin.switch(&mut bus);
    assert_eq!(bus.peek(DATAOUT), 0x1);
}

#[test]
fn released_pin_can_be_handed_out_again() {
    let mut bus = RegisterStore::new();
    let mut gpio = Gpio::new(BANK);
    let pin = gpio.get_pin_as_output(&mut bus, 12).unwrap();
    assert!(gpio.get_pin_as_output(&mut bus, 12).is_none());
    assert!(gpio.release(pin).is_ok());
    assert_eq!(gpio.get_owned(), 0);
    assert!(gpio.get_pin_as_input(&mut bus, 12).is_some());
}

#[test]
fn release_refuses_a_pin_of_another_bank() {
    let mut bus = RegisterStore::new();
    let mut a = Gpio::new(BANK);
    let mut b = Gpio::new(BANK + 0x1000);
    let pin = a.get_pin_as_output(&mut bus, 1).unwrap();
    let _other = b.get_pin_as_output(&mut bus, 1).unwrap();
    assert!(b.release(pin).is_err());
    assert_eq!(b.get_owned(), 0x2);
}

#[test]
fn direction_change_keeps_ownership() {
    let mut bus = RegisterStore::new();
    let mut gpio = Gpio::new(BANK);
    let out = gpio.get_pin_as_output(&mut bus, 6).unwrap();
    let inp = out.to_input(&mut bus, &gpio).ok().unwrap();
    assert_eq!(bus.peek(OE), 0x40);
    assert_eq!(gpio.get_owned(), 0x40);
    assert!(gpio.get_pin_as_output(&mut bus, 6).is_none());
    let out = inp.to_output(&mut bus, &gpio).ok().unwrap();
    assert_eq!(bus.peek(OE), 0);
    assert_eq!(out.get_number(), 6);
}

#[test]
fn direction_change_refuses_a_foreign_bank() {
    let mut bus = RegisterStore::new();
    let mut gpio = Gpio::new(BANK);
    let other = Gpio::new(BANK + 0x1000);
    let out = gpio.get_pin_as_output(&mut bus, 6).unwrap();
    let before = bus.accesses().len();
    assert!(out.to_input(&mut bus, &other).is_err());
    assert_eq!(bus.accesses().len(), before);
}

#[test]
fn pin_table_lookups() {
    assert_eq!(get_pin_addr(38), Some(0x018));
    assert_eq!(get_pin_addr(7), Some(0x164));
    assert_eq!(get_pin_addr(116), Some(0x1a8));
    assert_eq!(get_pin_addr(32), Some(0x000));
    assert_eq!(get_pin_addr(0), None);
    assert_eq!(get_pin_addr(255), None);
}

#[test]
fn bank_of_a_pin() {
    assert_eq!(gpio_bank_address(0), Some(memory_map::GPIO0));
    assert_eq!(gpio_bank_address(45), Some(memory_map::GPIO1));
    assert_eq!(gpio_bank_address(70), Some(memory_map::GPIO2));
    assert_eq!(gpio_bank_address(127), Some(memory_map::GPIO3));
    assert_eq!(gpio_bank_address(128), None);
}

#[test]
fn claim_output_pin_uses_the_bit_within_the_bank() {
    let mut bus = RegisterStore::new();
    bus.write32(OE, 0xFFFF_FFFF);
    let pin = claim_output_pin(&mut bus, BANK, 45).unwrap();
    assert_eq!(pin.get_number(), 13);
    assert_eq!(pin.get_bank(), BANK);
    assert_eq!(bus.peek(OE), !(1u32 << 13));
}

#[test]
fn control_module_refuses_indices_past_the_last() {
    let mut bus = RegisterStore::new();
    let control = Control::new(0x44E1_0000);
    control.set(&mut bus, 140, 7);
    control.set(&mut bus, 141, 9);
    assert_eq!(bus.accesses(), vec![Access::Write { addr: 0x44E1_0800 + 4 * 140, value: 7 }]);
    assert_eq!(control.get(&mut bus, 140), Some(7));
    assert_eq!(control.get(&mut bus, 141), None);
}

#[test]
fn gpio_status_through_the_pin_table() {
    let mut bus = RegisterStore::new();
    let control = Control::new(0x44E1_0000);
    // Pin 34 sits at offset 0x008 of the table.
    assert_eq!(set_gpio_status(&mut bus, 34, &control, 0x27), Some(()));
    assert_eq!(bus.peek(0x44E1_0800 + 4 * 0x008), 0x27);
    assert_eq!(get_gpio_status(&mut bus, 34, &control), Some(0x27));
    // Pin 0 is not in the table.
    assert_eq!(set_gpio_status(&mut bus, 0, &control, 1), None);
    assert_eq!(get_gpio_status(&mut bus, 0, &control), None);
    // Pin 7's offset is past the last register index.
    assert_eq!(set_gpio_status(&mut bus, 7, &control, 1), Some(()));
    assert_eq!(get_gpio_status(&mut bus, 7, &control), None);
}
