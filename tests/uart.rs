use sitara::bus::{Access, RegisterBus, RegisterStore};
use sitara::bus::WaitTimeout;
use sitara::uart::{Uart, UartConfigB};

const BASE: u32 = 0x44E0_9000;
const DATA: u32 = BASE;
const IER: u32 = BASE + 0x04;
const IIR: u32 = BASE + 0x08;
const LCR: u32 = BASE + 0x0C;
const MCR: u32 = BASE + 0x10;
const LSR: u32 = BASE + 0x14;
const MDR1: u32 = BASE + 0x20;
const SSR: u32 = BASE + 0x44;
const SYSC: u32 = BASE + 0x54;
const SYSS: u32 = BASE + 0x58;

fn w(addr: u32, value: u32) -> Access {
    Access::Write { addr, value }
}

#[test]
fn config_round_trip_restores_line_control() {
    let mut bus = RegisterStore::new();
    bus.write32(LCR, 0x03);
    let uart = Uart::new(BASE);
    let config = uart.to_config_b(&mut bus);
    assert_eq!(config.saved_lcr(), 0x03);
    assert_eq!(bus.peek(LCR), 0xBF);
    let _uart = config.to_operating_mode(&mut bus);
    assert_eq!(bus.peek(LCR), 0x03);
}

#[test]
fn config_mode_sets_the_divisor_and_enhanced_functions() {
    let mut bus = RegisterStore::new();
    let config = UartConfigB::new(BASE, 0x1B);
    config.enable_all_ier(&mut bus);
    config.set_baud(&mut bus);
    let _uart = config.to_operating_mode(&mut bus);
    assert_eq!(
        bus.accesses(),
        vec![w(BASE + 0x08, 0x10), w(BASE + 0x04, 0), w(BASE, 0x1A), w(LCR, 0x1B)]
    );
}

#[test]
fn initialize_then_send_a_character() {
    let mut bus = RegisterStore::new();
    let uart = Uart::new(BASE).initialize(&mut bus);
    assert_eq!(bus.writes(BASE), vec![0x1A]);
    uart.putc(&mut bus, 'A', 10).unwrap();
    assert_eq!(bus.writes(DATA), vec![0x1A, 0x41]);
    assert_eq!(bus.peek(DATA), 0x41);
}

#[test]
fn initialize_follows_the_bring_up_order() {
    let mut bus = RegisterStore::new();
    bus.write32(LCR, 0x03);
    let start = bus.accesses().len();
    let uart = Uart::new(BASE).initialize(&mut bus);
    assert_eq!(uart.get_base(), BASE);
    let done: Vec<Access> = bus.accesses()[start..].to_vec();
    assert_eq!(
        done,
        vec![
            w(MDR1, 7),
            w(IER, 0),
            Access::Read { addr: LCR, value: 0x03 },
            w(LCR, 0xBF),
            w(BASE + 0x08, 0x10),
            w(BASE + 0x04, 0x00),
            w(BASE, 0x1A),
            w(MCR, 0x03),
            w(LCR, 0x03),
            w(MDR1, 0),
            w(LCR, 0x03),
            w(IIR, 0),
            w(IER, 0),
        ]
    );
}

#[test]
fn putc_waits_for_room_and_gives_up() {
    let mut bus = RegisterStore::new();
    bus.write32(SSR, 0x1);
    let uart = Uart::new(BASE);
    assert_eq!(uart.putc(&mut bus, 'x', 3), Err(WaitTimeout));
    assert!(bus.writes(DATA).is_empty());
    assert_eq!(bus.accesses().len(), 1 + 3);
}

#[test]
fn flush_txfifo_succeeds_when_not_full() {
    let mut bus = RegisterStore::new();
    let uart = Uart::new(BASE);
    assert_eq!(uart.flush_txfifo(&mut bus, 1), Ok(()));
    assert_eq!(uart.flush_txfifo(&mut bus, 0), Err(WaitTimeout));
}

#[test]
fn getc_reads_carriage_return_as_newline() {
    let mut bus = RegisterStore::new();
    bus.write32(LSR, 0x1);
    bus.write32(DATA, 0x0D);
    let uart = Uart::new(BASE);
    assert_eq!(uart.getc(&mut bus, 5), Ok('\n'));
    bus.write32(DATA, 0x141);
    assert_eq!(uart.getc(&mut bus, 5), Ok('A'));
}

#[test]
fn getc_times_out_on_empty_fifo() {
    let mut bus = RegisterStore::new();
    let uart = Uart::new(BASE);
    assert_eq!(uart.getc(&mut bus, 4), Err(WaitTimeout));
    assert_eq!(bus.accesses().len(), 4);
}

#[test]
fn write_str_expands_newlines() {
    let mut bus = RegisterStore::new();
    let uart = Uart::new(BASE);
    uart.write_str(&mut bus, "a\nb", 2).unwrap();
    assert_eq!(bus.writes(DATA), vec![0x61, 0x0D, 0x0A, 0x62]);
}

#[test]
fn reset_waits_for_reset_done() {
    let mut bus = RegisterStore::new();
    let uart = Uart::new(BASE);
    assert_eq!(uart.reset(&mut bus, 3), Err(WaitTimeout));
    assert_eq!(bus.writes(SYSC), vec![0x2]);
    bus.write32(SYSS, 0x1);
    assert_eq!(uart.reset(&mut bus, 3), Ok(()));
}

#[test]
fn mode_and_interrupt_writes() {
    let mut bus = RegisterStore::new();
    let uart = Uart::new_from_u32(BASE);
    uart.disable(&mut bus);
    uart.enable(&mut bus);
    uart.disable_irq(&mut bus);
    assert_eq!(bus.accesses(), vec![w(MDR1, 7), w(MDR1, 0), w(IER, 0)]);
}

#[test]
fn debug_reads_and_dump() {
    let mut bus = RegisterStore::new();
    bus.write32(LCR, 3);
    bus.write32(MDR1, 7);
    bus.write32(BASE + 0x24, 1);
    bus.write32(LSR, 0x60);
    bus.write32(MCR, 2);
    bus.write32(IIR, 0xC1);
    bus.write32(BASE + 0x40, 8);
    let uart = Uart::new(BASE);
    assert_eq!(uart.debug_lcr(&mut bus), 3);
    assert_eq!(uart.debug_mdr1(&mut bus), 7);
    assert_eq!(uart.debug_mdr2(&mut bus), 1);
    assert_eq!(uart.debug_lsr(&mut bus), 0x60);
    assert_eq!(uart.dump_registers(&mut bus), [3, 7, 1, 0x60, 2, 0xC1, 8]);
}

#[test]
fn write_str_of_empty_text_touches_nothing() {
    let mut bus = RegisterStore::new();
    let uart = Uart::new(BASE);
    assert_eq!(uart.write_str(&mut bus, "", 0), Ok(()));
    assert!(bus.accesses().is_empty());
}

#[test]
fn write_str_gives_up_on_a_full_fifo() {
    let mut bus = RegisterStore::new();
    bus.write32(SSR, 0x1);
    let uart = Uart::new(BASE);
    assert_eq!(uart.write_str(&mut bus, "hi\n", 3), Err(WaitTimeout));
    assert!(bus.writes(DATA).is_empty());
    let tail: Vec<Access> = bus.accesses()[1..].to_vec();
    assert_eq!(tail, vec![Access::Read { addr: SSR, value: 1 }; 3]);
}

#[test]
fn write_str_writes_only_the_data_register() {
    let mut bus = RegisterStore::new();
    let uart = Uart::new(BASE);
    uart.write_str(&mut bus, "ok\n", 1).unwrap();
    for a in bus.accesses() {
        if let Access::Write { addr, .. } = a {
            assert_eq!(addr, DATA);
        }
    }
    assert_eq!(bus.writes(DATA), vec![0x6F, 0x6B, 0x0D, 0x0A]);
    assert_eq!(uart.get_base(), BASE);
}
