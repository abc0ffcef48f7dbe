use sitara::bus::{Access, RegisterBus, RegisterStore, WaitTimeout};
use sitara::timer::Timer;
use sitara::watchdog::Watchdog;

const TIMER: u32 = 0x44E0_5000;
const WATCHDOG: u32 = 0x44E3_5000;

fn r(addr: u32, value: u32) -> Access {
    Access::Read { addr, value }
}

fn w(addr: u32, value: u32) -> Access {
    Access::Write { addr, value }
}

#[test]
fn timer_init_sequence() {
    let mut bus = RegisterStore::new();
    let timer = Timer::new(TIMER);
    assert_eq!(timer.init(&mut bus, 0x1000, 5), Ok(()));
    let twps = TIMER + 0x48;
    assert_eq!(
        bus.accesses(),
        vec![
            r(TIMER + 0x38, 0),
            w(TIMER + 0x38, 0),
            r(twps, 0),
            w(TIMER + 0x40, 0xFFFF_EFFF),
            r(twps, 0),
            r(TIMER + 0x44, 0),
            w(TIMER + 0x44, 1),
            r(twps, 0),
            w(TIMER + 0x2C, 0x2),
            r(TIMER + 0x44, 1),
            w(TIMER + 0x44, 2),
            r(twps, 0),
            r(TIMER + 0x38, 0),
            w(TIMER + 0x38, 0x3),
            r(twps, 0),
        ]
    );
}

#[test]
fn timer_trigger_wraps() {
    let mut bus = RegisterStore::new();
    bus.write32(TIMER + 0x44, 0xFFFF_FFFF);
    let timer = Timer::new(TIMER);
    timer.start(&mut bus, 1).unwrap();
    assert_eq!(bus.writes(TIMER + 0x44), vec![0xFFFF_FFFF, 0]);
}

#[test]
fn timer_stop_clears_only_the_start_bit() {
    let mut bus = RegisterStore::new();
    bus.write32(TIMER + 0x38, 0x23);
    let timer = Timer::new(TIMER);
    assert_eq!(timer.stop(&mut bus, 1), Ok(()));
    assert_eq!(bus.peek(TIMER + 0x38), 0x22);
}

#[test]
fn timer_wait_gives_up_on_a_pending_write() {
    let mut bus = RegisterStore::new();
    bus.write32(TIMER + 0x48, 0x1);
    let timer = Timer::new(TIMER);
    assert_eq!(timer.stop(&mut bus, 3), Err(WaitTimeout));
    assert_eq!(timer.init(&mut bus, 5, 2), Err(WaitTimeout));
    // The load register is never reached.
    assert!(bus.writes(TIMER + 0x40).is_empty());
}

#[test]
fn timer_interrupt_registers() {
    let mut bus = RegisterStore::new();
    let timer = Timer::new(TIMER);
    timer.debug_set_irq(&mut bus);
    assert_eq!(timer.debug_read_irq(&mut bus), 0x2);
    timer.clear_overflow_irq(&mut bus);
    assert_eq!(bus.writes(TIMER + 0x28), vec![0x2]);
}

#[test]
fn watchdog_counts_from_the_trigger_register() {
    let mut bus = RegisterStore::new();
    bus.write32(WATCHDOG + 0x30, 0xFFFF_FFFE);
    let mut dog = Watchdog::new(&mut bus, WATCHDOG);
    assert_eq!(dog.get_count(), 0xFFFF_FFFE);
    dog.trigger(&mut bus);
    dog.trigger(&mut bus);
    assert_eq!(dog.get_count(), 0);
    assert_eq!(bus.writes(WATCHDOG + 0x30), vec![0xFFFF_FFFE, 0xFFFF_FFFF, 0]);
}

#[test]
fn watchdog_start_and_stop_words() {
    let mut bus = RegisterStore::new();
    let dog = Watchdog::new(&mut bus, WATCHDOG);
    assert_eq!(dog.disable(&mut bus, 2), Ok(()));
    assert_eq!(dog.enable(&mut bus, 2), Ok(()));
    assert_eq!(bus.writes(WATCHDOG + 0x48), vec![0xAAAA, 0x5555, 0xBBBB, 0x4444]);
}

#[test]
fn watchdog_stop_ends_at_a_wait_that_runs_out() {
    let mut bus = RegisterStore::new();
    bus.write32(WATCHDOG + 0x34, 0x10);
    let dog = Watchdog::new(&mut bus, WATCHDOG);
    assert_eq!(dog.disable(&mut bus, 4), Err(WaitTimeout));
    assert_eq!(bus.writes(WATCHDOG + 0x48), vec![0xAAAA]);
}

#[test]
fn watchdog_interrupt_enables() {
    let mut bus = RegisterStore::new();
    let dog = Watchdog::new(&mut bus, WATCHDOG);
    dog.enable_irq(&mut bus);
    dog.enable_delay_irq(&mut bus);
    dog.enable_overflow_irq(&mut bus);
    dog.disable_irq(&mut bus);
    dog.disable_delay_irq(&mut bus);
    dog.disable_overflow_irq(&mut bus);
    assert_eq!(bus.writes(WATCHDOG + 0x5C), vec![0x3, 0x2, 0x1]);
    assert_eq!(bus.writes(WATCHDOG + 0x60), vec![0x3, 0x2, 0x1]);
}
