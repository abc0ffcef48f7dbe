use sitara::bus::{Access, RegisterBus, RegisterStore};
use sitara::interrupt_controller::{InterruptController, InterruptNumber, InterruptRegister};

const BASE: u32 = 0x4820_0000;

fn line(n: u8) -> sitara::interrupt_controller::InterruptLine {
    InterruptController::new(BASE).new_interrupt_line(InterruptNumber::new(n).unwrap())
}

#[test]
fn line_addressing_for_every_number() {
    for n in 0u8..=127 {
        let l = line(n);
        let n32 = n as u32;
        assert_eq!(l.get_bank(), n32 / 32);
        assert_eq!(l.get_bit(), n32 % 32);
        assert_eq!(l.get_bitmask(), 1u32 << (n32 % 32));
        assert_eq!(l.get_bank_addr(), BASE + 0x80 + 0x20 * (n32 / 32));
        assert_eq!(l.get_ilr_addr(), BASE + 0x100 + 4 * n32);
    }
}

#[test]
fn line_addressing_exact_values() {
    let l = line(70);
    assert_eq!(l.get_bank(), 2);
    assert_eq!(l.get_bit(), 6);
    assert_eq!(l.get_bitmask(), 0x40);
    assert_eq!(l.get_bank_addr(), 0x4820_00C0);
    assert_eq!(l.get_ilr_addr(), 0x4820_0218);
}

#[test]
fn bounds_checked_constructor_rejects_above_127() {
    assert!(InterruptNumber::new(128).is_none());
    assert!(InterruptNumber::new(200).is_none());
    assert!(InterruptNumber::new(255).is_none());
    assert_eq!(InterruptNumber::new(127).unwrap().as_u32(), 127);
    assert_eq!(InterruptNumber::new(0).unwrap().as_u32(), 0);
}

#[test]
fn masking_constructor_stays_in_range() {
    for raw in [0u32, 1, 5, 0x7F, 0x80, 200, 0xFFFF, 0xFFFF_FFFF] {
        let n = InterruptNumber::from_u32(raw);
        assert!(n.as_u32() <= 127);
        assert_eq!(n.as_u32(), (raw | 0x7F) & 0x7F);
    }
    assert_eq!(InterruptNumber::from_u32(0).as_u32(), 127);
}

#[test]
fn enable_writes_the_mask_clear_register() {
    let mut bus = RegisterStore::new();
    let l = line(33);
    l.enable(&mut bus);
    assert_eq!(bus.accesses(), vec![Access::Write { addr: BASE + 0xA0 + 0x08, value: 0x2 }]);
}

#[test]
fn disable_writes_the_mask_set_register() {
    let mut bus = RegisterStore::new();
    let l = line(3);
    l.disable(&mut bus);
    assert_eq!(bus.accesses(), vec![Access::Write { addr: BASE + 0x80 + 0x0C, value: 0x8 }]);
}

#[test]
fn disable_twice_leaves_the_same_mask_state() {
    let l = line(45);
    let mut once = RegisterStore::new();
    l.disable(&mut once);
    let mut twice = RegisterStore::new();
    l.disable(&mut twice);
    l.disable(&mut twice);
    let set = BASE + 0xA0 + 0x0C;
    let mir = BASE + 0xA0 + 0x04;
    assert_eq!(once.peek(set), twice.peek(set));
    assert_eq!(twice.peek(set), 1 << 13);
    // The combined mask register is never touched.
    assert!(twice.writes(mir).is_empty());
    // The hardware's mask after the writes: set bits accumulate.
    let mask_once = once.writes(set).iter().fold(0x10u32, |m, v| m | v);
    let mask_twice = twice.writes(set).iter().fold(0x10u32, |m, v| m | v);
    assert_eq!(mask_once, mask_twice);
    assert_eq!(mask_once, 0x10 | (1 << 13));
}

#[test]
fn pending_tests_the_line_bit() {
    let mut bus = RegisterStore::new();
    let pending_addr = BASE + 0x80 + 0x18;
    bus.write32(pending_addr, 0x0000_0010);
    assert!(line(4).pending(&mut bus));
    assert!(!line(5).pending(&mut bus));
    assert_eq!(bus.accesses().last(), Some(&Access::Read { addr: pending_addr, value: 0x10 }));
}

#[test]
fn reg_read_of_write_only_register_is_clear_without_access() {
    let mut bus = RegisterStore::new();
    assert!(!line(1).reg_read(&mut bus, InterruptRegister::MaskSet));
    assert!(bus.accesses().is_empty());
}

#[test]
fn reg_write_mask_changes_only_the_line_bit() {
    let mut bus = RegisterStore::new();
    let mir = BASE + 0x80 + 0x04;
    bus.write32(mir, 0xFFFF_0000);
    line(2).reg_write(&mut bus, InterruptRegister::Mask, true);
    assert_eq!(bus.peek(mir), 0xFFFF_0004);
    line(17).reg_write(&mut bus, InterruptRegister::Mask, false);
    assert_eq!(bus.peek(mir), 0xFFFD_0004);
}

#[test]
fn reg_write_false_to_set_register_does_nothing() {
    let mut bus = RegisterStore::new();
    line(2).reg_write(&mut bus, InterruptRegister::SoftwareSet, false);
    assert!(bus.accesses().is_empty());
    line(2).reg_write(&mut bus, InterruptRegister::SoftwareSet, true);
    assert_eq!(bus.accesses(), vec![Access::Write { addr: BASE + 0x80 + 0x10, value: 0x4 }]);
}

#[test]
fn software_irq_set_and_clear() {
    let mut bus = RegisterStore::new();
    let l = line(100);
    l.debug_set_software_irq(&mut bus);
    l.debug_clear_software_irq(&mut bus);
    assert_eq!(
        bus.accesses(),
        vec![
            Access::Write { addr: BASE + 0xE0 + 0x10, value: 1 << 4 },
            Access::Write { addr: BASE + 0xE0 + 0x14, value: 1 << 4 },
        ]
    );
}

#[test]
fn get_itr_reads_the_status_register() {
    let mut bus = RegisterStore::new();
    bus.write32(BASE + 0x80, 0x1);
    assert!(line(0).get_itr(&mut bus));
    assert!(!line(1).get_itr(&mut bus));
}

#[test]
fn active_irq_goes_through_the_masking_constructor() {
    let mut bus = RegisterStore::new();
    bus.write32(BASE + 0x40, 5);
    bus.write32(BASE + 0x44, 9);
    let c = InterruptController::new(BASE);
    assert_eq!(c.get_active_irq(&mut bus).as_u32(), 127);
    assert_eq!(c.get_active_fiq(&mut bus).as_u32(), 127);
}

#[test]
fn controller_control_writes() {
    let mut bus = RegisterStore::new();
    let c = InterruptController::new(BASE);
    c.reset(&mut bus);
    c.autoidle(&mut bus);
    c.generate_new_irq(&mut bus);
    c.generate_new_fiq(&mut bus);
    assert_eq!(
        bus.accesses(),
        vec![
            Access::Write { addr: BASE + 0x10, value: 2 },
            Access::Write { addr: BASE + 0x10, value: 1 },
            Access::Write { addr: BASE + 0x48, value: 1 },
            Access::Write { addr: BASE + 0x48, value: 2 },
        ]
    );
}

#[test]
fn raw_status_reads_the_four_banks() {
    let mut bus = RegisterStore::new();
    bus.write32(BASE + 0x80, 1);
    bus.write32(BASE + 0xA0, 2);
    bus.write32(BASE + 0xC0, 3);
    bus.write32(BASE + 0xE0, 4);
    let c = InterruptController::new(BASE);
    assert_eq!(c.raw_status(&mut bus), (1, 2, 3, 4));
}

#[test]
fn handles_report_their_bounds() {
    let c = InterruptController::new(BASE);
    assert_eq!(c.get_base(), BASE);
    let l = line(99);
    assert_eq!(l.get_base(), BASE);
    assert_eq!(l.get_number(), 99);
}
