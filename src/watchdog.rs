//! The watchdog timer.
//!
//! Writes to its start/stop register are posted: the hardware flags a
//! pending write in the write-posting status register (WWPS) until it has
//! taken it.
use vstd::prelude::*;

use crate::bus::{
    extends, lemma_extends_push, lemma_extends_trans, reg_read, reg_write, wait_for, waited, Access,
    RegisterBus, WaitTimeout,
};

verus! {

/// Highest base address at which the watchdog's register block fits in the
/// 32-bit address space.
pub const MAX_WATCHDOG_BASE: u32 = 0xFFFF_FF9C;

/// Register offsets.
pub const WTGR: u32 = 0x30;
pub const WWPS: u32 = 0x34;
pub const WSPR: u32 = 0x48;
pub const WIRQENSET: u32 = 0x5C;
pub const WIRQENCLR: u32 = 0x60;

/// WWPS bit that flags a pending write to WSPR.
pub const W_PEND_WSPR: u32 = 0x10;

/// Interrupt bits of the overflow and delay events.
pub const WIRQ_OVERFLOW: u32 = 0x1;
pub const WIRQ_DELAY: u32 = 0x2;

/// The two start/stop words that stop the watchdog, in order.
pub const STOP_FIRST: u32 = 0x0000_AAAA;
pub const STOP_SECOND: u32 = 0x0000_5555;

/// The two start/stop words that start the watchdog, in order.
pub const START_FIRST: u32 = 0x0000_BBBB;
pub const START_SECOND: u32 = 0x0000_4444;

/// The next value of the trigger counter: one more, wrapping.
pub open spec fn next_count(v: u32) -> u32 {
    if v == 0xFFFF_FFFF {
        0
    } else {
        (v + 1) as u32
    }
}

/// `t` is `t0` followed by a write of `word` to the start/stop register of
/// the watchdog at `base`, and a wait of at most `max_polls` polls for it to
/// be taken.
pub open spec fn wspr_written(
    base: u32,
    t0: Seq<Access>,
    t: Seq<Access>,
    word: u32,
    max_polls: u32,
    ok: bool,
) -> bool {
    waited(
        t0.push(reg_write(base, WSPR, word)),
        t,
        (base + WWPS) as u32,
        W_PEND_WSPR,
        false,
        max_polls,
        ok,
    )
}

/// `t` is `t0` followed by the two-word sequence `first`, `second` written
/// to the start/stop register, each waited for; a wait that runs out ends
/// it.
pub open spec fn sequence_written(
    base: u32,
    t0: Seq<Access>,
    t: Seq<Access>,
    first: u32,
    second: u32,
    max_polls: u32,
    ok: bool,
) -> bool {
    ||| exists|t1: Seq<Access>|
        #[trigger] wspr_written(base, t0, t1, first, max_polls, true) && wspr_written(
            base,
            t1,
            t,
            second,
            max_polls,
            ok,
        )
    ||| !ok && wspr_written(base, t0, t, first, max_polls, false)
}

/// The watchdog timer, and the last value written to its trigger register.
pub struct Watchdog {
    memory_address: u32,
    counter: u32,
}

impl Watchdog {
    #[verifier::type_invariant]
    spec fn inv(&self) -> bool {
        self.memory_address <= MAX_WATCHDOG_BASE
    }

    /// The base address of the watchdog's registers.
    pub closed spec fn base(&self) -> u32 {
        self.memory_address
    }

    /// The value last written to (or first read from) the trigger register.
    pub closed spec fn count(&self) -> u32 {
        self.counter
    }

    /// The watchdog whose registers start at `memory_addr`; the trigger
    /// counter starts from the value its trigger register holds.
    pub fn new<B: RegisterBus>(bus: &mut B, memory_addr: u32) -> (r: Watchdog)
        requires
            memory_addr <= MAX_WATCHDOG_BASE,
        ensures
            r.base() == memory_addr,
            final(bus).trace() == old(bus).trace().push(reg_read(memory_addr, WTGR, r.count())),
    {
        let counter = bus.read32(memory_addr + WTGR);
        Watchdog { memory_address: memory_addr, counter }
    }

    /// The base address of the registers; the whole register block lies
    /// inside the 32-bit address space.
    pub fn get_base(&self) -> (r: u32)
        ensures
            r == self.base(),
            r <= MAX_WATCHDOG_BASE,
    {
        proof {
            use_type_invariant(self);
        }
        self.memory_address
    }

    /// The value last written to (or first read from) the trigger register.
    pub fn get_count(&self) -> (r: u32)
        ensures
            r == self.count(),
    {
        self.counter
    }

    /// Writes `word` to the start/stop register and polls, at most
    /// `max_polls` times, until the write is taken.
    fn write_wspr<B: RegisterBus>(&self, bus: &mut B, word: u32, max_polls: u32) -> (r: Result<
        (),
        WaitTimeout,
    >)
        ensures
            wspr_written(self.base(), old(bus).trace(), final(bus).trace(), word, max_polls, r is Ok),
            extends(final(bus).trace(), old(bus).trace()),
    {
        proof {
            use_type_invariant(self);
        }
        bus.write32(self.memory_address + WSPR, word);
        let ghost t1 = bus.trace();
        let r = wait_for(bus, self.memory_address + WWPS, W_PEND_WSPR, false, max_polls);
        proof {
            lemma_extends_push(old(bus).trace(), reg_write(self.base(), WSPR, word));
            lemma_extends_trans(old(bus).trace(), t1, bus.trace());
        }
        r
    }

    /// Writes `first` then `second` to the start/stop register, waiting for
    /// each to be taken.
    fn write_sequence<B: RegisterBus>(&self, bus: &mut B, first: u32, second: u32, max_polls: u32) -> (r:
        Result<(), WaitTimeout>)
        ensures
            sequence_written(
                self.base(),
                old(bus).trace(),
                final(bus).trace(),
                first,
                second,
                max_polls,
                r is Ok,
            ),
    {
        let ghost t0 = bus.trace();
        self.write_wspr(bus, first, max_polls)?;
        let ghost t1 = bus.trace();
        let r = self.write_wspr(bus, second, max_polls);
        proof {
            assert(wspr_written(self.base(), t0, t1, first, max_polls, true));
        }
        r
    }

    /// Stops the watchdog: writes its two stop words, waiting at most
    /// `max_polls` polls for each to be taken.
    pub fn disable<B: RegisterBus>(&self, bus: &mut B, max_polls: u32) -> (r: Result<(), WaitTimeout>)
        ensures
            sequence_written(
                self.base(),
                old(bus).trace(),
                final(bus).trace(),
                STOP_FIRST,
                STOP_SECOND,
                max_polls,
                r is Ok,
            ),
    {
        self.write_sequence(bus, STOP_FIRST, STOP_SECOND, max_polls)
    }

    /// Starts the watchdog: writes its two start words, waiting at most
    /// `max_polls` polls for each to be taken.
    pub fn enable<B: RegisterBus>(&self, bus: &mut B, max_polls: u32) -> (r: Result<(), WaitTimeout>)
        ensures
            sequence_written(
                self.base(),
                old(bus).trace(),
                final(bus).trace(),
                START_FIRST,
                START_SECOND,
                max_polls,
                r is Ok,
            ),
    {
        self.write_sequence(bus, START_FIRST, START_SECOND, max_polls)
    }

    fn write<B: RegisterBus>(&self, bus: &mut B, offset: u32, value: u32)
        requires
            offset <= WIRQENCLR,
        ensures
            final(bus).trace() == old(bus).trace().push(reg_write(self.base(), offset, value)),
    {
        proof {
            use_type_invariant(self);
        }
        bus.write32(self.memory_address + offset, value);
    }

    /// Enables the delay and overflow interrupts.
    pub fn enable_irq<B: RegisterBus>(&self, bus: &mut B)
        ensures
            final(bus).trace() == old(bus).trace().push(
                reg_write(self.base(), WIRQENSET, WIRQ_DELAY | WIRQ_OVERFLOW),
            ),
    {
        self.write(bus, WIRQENSET, WIRQ_DELAY | WIRQ_OVERFLOW);
    }

    /// Disables the delay and overflow interrupts.
    pub fn disable_irq<B: RegisterBus>(&self, bus: &mut B)
        ensures
            final(bus).trace() == old(bus).trace().push(
                reg_write(self.base(), WIRQENCLR, WIRQ_DELAY | WIRQ_OVERFLOW),
            ),
    {
        self.write(bus, WIRQENCLR, WIRQ_DELAY | WIRQ_OVERFLOW);
    }

    /// Enables the delay interrupt.
    pub fn enable_delay_irq<B: RegisterBus>(&self, bus: &mut B)
        ensures
            final(bus).trace() == old(bus).trace().push(reg_write(self.base(), WIRQENSET, WIRQ_DELAY)),
    {
        self.write(bus, WIRQENSET, WIRQ_DELAY);
    }

    /// Disables the delay interrupt.
    pub fn disable_delay_irq<B: RegisterBus>(&self, bus: &mut B)
        ensures
            final(bus).trace() == old(bus).trace().push(reg_write(self.base(), WIRQENCLR, WIRQ_DELAY)),
    {
        self.write(bus, WIRQENCLR, WIRQ_DELAY);
    }

    /// Enables the overflow interrupt.
    pub fn enable_overflow_irq<B: RegisterBus>(&self, bus: &mut B)
        ensures
            final(bus).trace() == old(bus).trace().push(
                reg_write(self.base(), WIRQENSET, WIRQ_OVERFLOW),
            ),
    {
        self.write(bus, WIRQENSET, WIRQ_OVERFLOW);
    }

    /// Disables the overflow interrupt.
    pub fn disable_overflow_irq<B: RegisterBus>(&self, bus: &mut B)
        ensures
            final(bus).trace() == old(bus).trace().push(
                reg_write(self.base(), WIRQENCLR, WIRQ_OVERFLOW),
            ),
    {
        self.write(bus, WIRQENCLR, WIRQ_OVERFLOW);
    }

    /// Reloads the watchdog's counter: writes a value different from the
    /// last one (the next, wrapping) to the trigger register.
    pub fn trigger<B: RegisterBus>(&mut self, bus: &mut B)
        ensures
            final(self).base() == old(self).base(),
            final(self).count() == next_count(old(self).count()),
            final(bus).trace() == old(bus).trace().push(
                reg_write(old(self).base(), WTGR, next_count(old(self).count())),
            ),
    {
        proof {
            use_type_invariant(&*self);
        }
        if self.counter == 0xFFFF_FFFF {
            self.counter = 0;
        } else {
            self.counter = self.counter + 1;
        }
        bus.write32(self.memory_address + WTGR, self.counter);
    }
}

} // verus!
