//! The general-purpose timers.
//!
//! Writes to the control, load and trigger registers are posted: the
//! hardware takes them over some cycles later, and flags each pending write
//! in the write-posting status register (TWPS) until then.
use vstd::prelude::*;

use crate::bus::{
    access_value, ends_with_polls_set, extends, lemma_extends_push, lemma_polls_set_widen,
    lemma_waited_timeout, lemma_extends_trans, reg_read, reg_write, wait_for,
    waited, Access, RegisterBus, WaitTimeout,
};

verus! {

/// Highest base address at which a timer's register block fits in the
/// 32-bit address space.
pub const MAX_TIMER_BASE: u32 = 0xFFFF_FFA4;

/// Register offsets.
pub const IRQSTATUS_RAW: u32 = 0x24;
pub const IRQSTATUS: u32 = 0x28;
pub const IRQENABLE_SET: u32 = 0x2C;
pub const TCLR: u32 = 0x38;
pub const TLDR: u32 = 0x40;
pub const TTGR: u32 = 0x44;
pub const TWPS: u32 = 0x48;

/// TCLR bits: start, auto-reload, prescaler enable.
pub const TCLR_ST: u32 = 0x1;
pub const TCLR_AR: u32 = 0x2;
pub const TCLR_PRE: u32 = 0x20;

/// Interrupt bit of the overflow event.
pub const IRQ_OVERFLOW: u32 = 0x2;

/// TWPS bits that flag a pending write to TCLR, TLDR and TTGR.
pub const W_PEND_TCLR: u32 = 0x1;
pub const W_PEND_TLDR: u32 = 0x4;
pub const W_PEND_TTGR: u32 = 0x8;

/// The value a trigger writes after reading `v`: the next one, wrapping.
pub open spec fn next_trigger(v: u32) -> u32 {
    if v == 0xFFFF_FFFF {
        0
    } else {
        (v + 1) as u32
    }
}

/// `t` is `t0` followed by a trigger of the timer at `base`: a read of the
/// trigger register, a write of the next value, and a wait of at most
/// `max_polls` polls for that write to be taken.
pub open spec fn triggered(base: u32, t0: Seq<Access>, t: Seq<Access>, max_polls: u32, ok: bool) -> bool {
    &&& t.len() >= t0.len() + 2
    &&& ({
        let v = access_value(t[t0.len() as int]);
        waited(
            t0.push(reg_read(base, TTGR, v)).push(reg_write(base, TTGR, next_trigger(v))),
            t,
            (base + TWPS) as u32,
            W_PEND_TTGR,
            false,
            max_polls,
            ok,
        )
    })
}

/// `t` is `t0` followed by an update of the control register of the timer
/// at `base`: a read, a write of the value read with the bits `clear`
/// cleared and then the bits `set` set, and a wait of at most `max_polls`
/// polls for that write to be taken.
pub open spec fn tclr_updated(
    base: u32,
    t0: Seq<Access>,
    t: Seq<Access>,
    set: u32,
    clear: u32,
    max_polls: u32,
    ok: bool,
) -> bool {
    &&& t.len() >= t0.len() + 2
    &&& ({
        let c = access_value(t[t0.len() as int]);
        waited(
            t0.push(reg_read(base, TCLR, c)).push(reg_write(base, TCLR, (c & !clear) | set)),
            t,
            (base + TWPS) as u32,
            W_PEND_TCLR,
            false,
            max_polls,
            ok,
        )
    })
}

/// `t` is `t0` followed by a start of the timer at `base`: a trigger, then
/// an update of the control register that sets the start and auto-reload
/// bits. A wait that runs out ends it.
pub open spec fn started(base: u32, t0: Seq<Access>, t: Seq<Access>, max_polls: u32, ok: bool) -> bool {
    ||| exists|t1: Seq<Access>|
        #[trigger] triggered(base, t0, t1, max_polls, true) && tclr_updated(
            base,
            t1,
            t,
            TCLR_ST | TCLR_AR,
            TCLR_ST | TCLR_AR,
            max_polls,
            ok,
        )
    ||| !ok && triggered(base, t0, t, max_polls, false)
}

/// A trace that ends with a trigger extends the one it started from.
pub proof fn lemma_triggered_extends(base: u32, t0: Seq<Access>, t: Seq<Access>, max_polls: u32, ok: bool)
    requires
        triggered(base, t0, t, max_polls, ok),
    ensures
        extends(t, t0),
{
    let v = access_value(t[t0.len() as int]);
    let t1 = t0.push(reg_read(base, TTGR, v));
    let t2 = t1.push(reg_write(base, TTGR, next_trigger(v)));
    lemma_extends_push(t0, reg_read(base, TTGR, v));
    lemma_extends_push(t1, reg_write(base, TTGR, next_trigger(v)));
    lemma_extends_trans(t0, t1, t2);
    lemma_extends_trans(t0, t2, t);
}

/// A trace that ends with an update of the control register extends the
/// one it started from.
pub proof fn lemma_tclr_updated_extends(
    base: u32,
    t0: Seq<Access>,
    t: Seq<Access>,
    set: u32,
    clear: u32,
    max_polls: u32,
    ok: bool,
)
    requires
        tclr_updated(base, t0, t, set, clear, max_polls, ok),
    ensures
        extends(t, t0),
{
    let c = access_value(t[t0.len() as int]);
    let t1 = t0.push(reg_read(base, TCLR, c));
    let t2 = t1.push(reg_write(base, TCLR, (c & !clear) | set));
    lemma_extends_push(t0, reg_read(base, TCLR, c));
    lemma_extends_push(t1, reg_write(base, TCLR, (c & !clear) | set));
    lemma_extends_trans(t0, t1, t2);
    lemma_extends_trans(t0, t2, t);
}

/// A trace that ends with a start extends the one it started from.
pub proof fn lemma_started_extends(base: u32, t0: Seq<Access>, t: Seq<Access>, max_polls: u32, ok: bool)
    requires
        started(base, t0, t, max_polls, ok),
    ensures
        extends(t, t0),
{
    if exists|t1: Seq<Access>|
        #[trigger] triggered(base, t0, t1, max_polls, true) && tclr_updated(
            base,
            t1,
            t,
            TCLR_ST | TCLR_AR,
            TCLR_ST | TCLR_AR,
            max_polls,
            ok,
        ) {
        let t1 = choose|t1: Seq<Access>|
            #[trigger] triggered(base, t0, t1, max_polls, true) && tclr_updated(
                base,
                t1,
                t,
                TCLR_ST | TCLR_AR,
                TCLR_ST | TCLR_AR,
                max_polls,
                ok,
            );
        lemma_triggered_extends(base, t0, t1, max_polls, true);
        lemma_tclr_updated_extends(base, t1, t, TCLR_ST | TCLR_AR, TCLR_ST | TCLR_AR, max_polls, ok);
        lemma_extends_trans(t0, t1, t);
    } else {
        lemma_triggered_extends(base, t0, t, max_polls, ok);
    }
}

/// Any of the TWPS bits of a pending write to TCLR, TLDR or TTGR.
pub const W_PEND_ANY: u32 = 0xD;

/// A trigger whose wait ran out ends with `max_polls` polls that found a
/// write pending.
pub proof fn lemma_triggered_timeout(base: u32, t0: Seq<Access>, t: Seq<Access>, max_polls: u32)
    requires
        triggered(base, t0, t, max_polls, false),
    ensures
        ends_with_polls_set(t, (base + TWPS) as u32, W_PEND_ANY, max_polls),
{
    let v = access_value(t[t0.len() as int]);
    lemma_waited_timeout(
        t0.push(reg_read(base, TTGR, v)).push(reg_write(base, TTGR, next_trigger(v))),
        t,
        (base + TWPS) as u32,
        W_PEND_TTGR,
        max_polls,
    );
    assert(W_PEND_TTGR & W_PEND_ANY == W_PEND_TTGR) by (bit_vector);
    lemma_polls_set_widen(t, (base + TWPS) as u32, W_PEND_TTGR, W_PEND_ANY, max_polls);
}

/// An update of the control register whose wait ran out ends with
/// `max_polls` polls that found a write pending.
pub proof fn lemma_tclr_updated_timeout(
    base: u32,
    t0: Seq<Access>,
    t: Seq<Access>,
    set: u32,
    clear: u32,
    max_polls: u32,
)
    requires
        tclr_updated(base, t0, t, set, clear, max_polls, false),
    ensures
        ends_with_polls_set(t, (base + TWPS) as u32, W_PEND_ANY, max_polls),
{
    let c = access_value(t[t0.len() as int]);
    lemma_waited_timeout(
        t0.push(reg_read(base, TCLR, c)).push(reg_write(base, TCLR, (c & !clear) | set)),
        t,
        (base + TWPS) as u32,
        W_PEND_TCLR,
        max_polls,
    );
    assert(W_PEND_TCLR & W_PEND_ANY == W_PEND_TCLR) by (bit_vector);
    lemma_polls_set_widen(t, (base + TWPS) as u32, W_PEND_TCLR, W_PEND_ANY, max_polls);
}

/// A start whose wait ran out ends with `max_polls` polls that found a
/// write pending.
pub proof fn lemma_started_timeout(base: u32, t0: Seq<Access>, t: Seq<Access>, max_polls: u32)
    requires
        started(base, t0, t, max_polls, false),
    ensures
        ends_with_polls_set(t, (base + TWPS) as u32, W_PEND_ANY, max_polls),
{
    if exists|t1: Seq<Access>|
        #[trigger] triggered(base, t0, t1, max_polls, true) && tclr_updated(
            base,
            t1,
            t,
            TCLR_ST | TCLR_AR,
            TCLR_ST | TCLR_AR,
            max_polls,
            false,
        ) {
        let t1 = choose|t1: Seq<Access>|
            #[trigger] triggered(base, t0, t1, max_polls, true) && tclr_updated(
                base,
                t1,
                t,
                TCLR_ST | TCLR_AR,
                TCLR_ST | TCLR_AR,
                max_polls,
                false,
            );
        lemma_tclr_updated_timeout(base, t1, t, TCLR_ST | TCLR_AR, TCLR_ST | TCLR_AR, max_polls);
    } else {
        lemma_triggered_timeout(base, t0, t, max_polls);
    }
}

/// A general-purpose timer.
pub struct Timer {
    memory_address: u32,
}

impl Timer {
    #[verifier::type_invariant]
    spec fn inv(&self) -> bool {
        self.memory_address <= MAX_TIMER_BASE
    }

    /// The base address of the timer's registers.
    pub closed spec fn base(&self) -> u32 {
        self.memory_address
    }

    /// The timer whose registers start at `memory_addr`.
    pub fn new(memory_addr: u32) -> (r: Timer)
        requires
            memory_addr <= MAX_TIMER_BASE,
        ensures
            r.base() == memory_addr,
    {
        Timer { memory_address: memory_addr }
    }

    /// The base address of the registers; the whole register block lies
    /// inside the 32-bit address space.
    pub fn get_base(&self) -> (r: u32)
        ensures
            r == self.base(),
            r <= MAX_TIMER_BASE,
    {
        proof {
            use_type_invariant(self);
        }
        self.memory_address
    }

    /// Polls, at most `max_polls` times, until the posted writes flagged by
    /// `pending` are taken.
    fn wait<B: RegisterBus>(&self, bus: &mut B, pending: u32, max_polls: u32) -> (r: Result<
        (),
        WaitTimeout,
    >)
        ensures
            waited(
                old(bus).trace(),
                final(bus).trace(),
                (self.base() + TWPS) as u32,
                pending,
                false,
                max_polls,
                r is Ok,
            ),
    {
        proof {
            use_type_invariant(self);
        }
        wait_for(bus, self.memory_address + TWPS, pending, false, max_polls)
    }

    /// Reads the control register, writes it back with the bits `clear`
    /// cleared and the bits `set` set, and waits for the write to be taken.
    fn update_tclr<B: RegisterBus>(&self, bus: &mut B, set: u32, clear: u32, max_polls: u32) -> (r:
        Result<(), WaitTimeout>)
        ensures
            tclr_updated(self.base(), old(bus).trace(), final(bus).trace(), set, clear, max_polls, r is Ok),
    {
        proof {
            use_type_invariant(self);
        }
        let c = bus.read32(self.memory_address + TCLR);
        bus.write32(self.memory_address + TCLR, (c & !clear) | set);
        let ghost t2 = bus.trace();
        let r = self.wait(bus, W_PEND_TCLR, max_polls);
        proof {
            assert(bus.trace().subrange(0, t2.len() as int) == t2);
            assert(bus.trace()[old(bus).trace().len() as int] == t2[old(bus).trace().len() as int]);
        }
        r
    }

    /// Reloads the counter: writes the next value to the trigger register
    /// and waits for the write to be taken.
    fn trigger<B: RegisterBus>(&self, bus: &mut B, max_polls: u32) -> (r: Result<(), WaitTimeout>)
        ensures
            triggered(self.base(), old(bus).trace(), final(bus).trace(), max_polls, r is Ok),
    {
        proof {
            use_type_invariant(self);
        }
        let mut val = bus.read32(self.memory_address + TTGR);
        if val == 0xFFFF_FFFF {
            val = 0;
        } else {
            val = val + 1;
        }
        bus.write32(self.memory_address + TTGR, val);
        let ghost t2 = bus.trace();
        let r = self.wait(bus, W_PEND_TTGR, max_polls);
        proof {
            assert(bus.trace().subrange(0, t2.len() as int) == t2);
            assert(bus.trace()[old(bus).trace().len() as int] == t2[old(bus).trace().len() as int]);
        }
        r
    }

    /// Starts the timer: reloads the counter, then sets the start and
    /// auto-reload bits. Each wait for a posted write takes at most
    /// `max_polls` polls; one that runs out ends the start there.
    pub fn start<B: RegisterBus>(&self, bus: &mut B, max_polls: u32) -> (r: Result<(), WaitTimeout>)
        ensures
            started(self.base(), old(bus).trace(), final(bus).trace(), max_polls, r is Ok),
    {
        let ghost t0 = bus.trace();
        self.trigger(bus, max_polls)?;
        let ghost t1 = bus.trace();
        let r = self.update_tclr(bus, TCLR_ST | TCLR_AR, TCLR_ST | TCLR_AR, max_polls);
        proof {
            assert(triggered(self.base(), t0, t1, max_polls, true));
        }
        r
    }

    /// Stops the timer by clearing the start bit.
    pub fn stop<B: RegisterBus>(&self, bus: &mut B, max_polls: u32) -> (r: Result<(), WaitTimeout>)
        ensures
            tclr_updated(self.base(), old(bus).trace(), final(bus).trace(), 0, TCLR_ST, max_polls, r is Ok),
    {
        self.update_tclr(bus, 0, TCLR_ST, max_polls)
    }

    /// Sets the timer to overflow every `length` ticks and starts it: stops
    /// it with the prescaler off, loads `0xFFFF_FFFF - length`, reloads the
    /// counter, enables the overflow interrupt and starts it. Each wait for
    /// a posted write takes at most `max_polls` polls; one that runs out ends
    /// the sequence there.
    pub fn init<B: RegisterBus>(&self, bus: &mut B, length: u32, max_polls: u32) -> (r: Result<
        (),
        WaitTimeout,
    >)
        ensures
            extends(final(bus).trace(), old(bus).trace()),
            r is Err ==> ends_with_polls_set(
                final(bus).trace(),
                (self.base() + TWPS) as u32,
                W_PEND_ANY,
                max_polls,
            ),
            r is Ok ==> exists|t1: Seq<Access>, t2: Seq<Access>, t3: Seq<Access>|
                #![trigger tclr_updated(self.base(), old(bus).trace(), t1, 0, TCLR_ST | TCLR_PRE, max_polls, true), waited(t1.push(reg_write(self.base(), TLDR, (0xFFFF_FFFF - length) as u32)), t2, (self.base() + TWPS) as u32, W_PEND_TLDR, false, max_polls, true), triggered(self.base(), t2, t3, max_polls, true)]
                {
                    &&& tclr_updated(
                        self.base(),
                        old(bus).trace(),
                        t1,
                        0,
                        TCLR_ST | TCLR_PRE,
                        max_polls,
                        true,
                    )
                    &&& waited(
                        t1.push(reg_write(self.base(), TLDR, (0xFFFF_FFFF - length) as u32)),
                        t2,
                        (self.base() + TWPS) as u32,
                        W_PEND_TLDR,
                        false,
                        max_polls,
                        true,
                    )
                    &&& triggered(self.base(), t2, t3, max_polls, true)
                    &&& started(
                        self.base(),
                        t3.push(reg_write(self.base(), IRQENABLE_SET, IRQ_OVERFLOW)),
                        final(bus).trace(),
                        max_polls,
                        true,
                    )
                },
    {
        proof {
            use_type_invariant(self);
        }
        let ghost t0 = bus.trace();
        let r = self.update_tclr(bus, 0, TCLR_ST | TCLR_PRE, max_polls);
        let ghost t1 = bus.trace();
        proof {
            lemma_tclr_updated_extends(self.base(), t0, t1, 0, TCLR_ST | TCLR_PRE, max_polls, r is Ok);
        }
        if r.is_err() {
            proof {
                lemma_tclr_updated_timeout(self.base(), t0, t1, 0, TCLR_ST | TCLR_PRE, max_polls);
            }
            return r;
        }
        let timer_rate = 0xFFFF_FFFF - length;
        bus.write32(self.memory_address + TLDR, timer_rate);
        let ghost t1w = bus.trace();
        let r = self.wait(bus, W_PEND_TLDR, max_polls);
        let ghost t2 = bus.trace();
        proof {
            lemma_extends_push(t1, reg_write(self.base(), TLDR, timer_rate));
            lemma_extends_trans(t0, t1, t1w);
            lemma_extends_trans(t0, t1w, t2);
        }
        if r.is_err() {
            proof {
                lemma_waited_timeout(t1w, t2, (self.base() + TWPS) as u32, W_PEND_TLDR, max_polls);
                assert(W_PEND_TLDR & W_PEND_ANY == W_PEND_TLDR) by (bit_vector);
                lemma_polls_set_widen(t2, (self.base() + TWPS) as u32, W_PEND_TLDR, W_PEND_ANY, max_polls);
            }
            return r;
        }
        let r = self.trigger(bus, max_polls);
        let ghost t3 = bus.trace();
        proof {
            lemma_triggered_extends(self.base(), t2, t3, max_polls, r is Ok);
            lemma_extends_trans(t0, t2, t3);
        }
        if r.is_err() {
            proof {
                lemma_triggered_timeout(self.base(), t2, t3, max_polls);
            }
            return r;
        }
        bus.write32(self.memory_address + IRQENABLE_SET, IRQ_OVERFLOW);
        let ghost t4 = bus.trace();
        let r = self.start(bus, max_polls);
        proof {
            lemma_extends_push(t3, reg_write(self.base(), IRQENABLE_SET, IRQ_OVERFLOW));
            lemma_extends_trans(t0, t3, t4);
            lemma_started_extends(self.base(), t4, bus.trace(), max_polls, r is Ok);
            lemma_extends_trans(t0, t4, bus.trace());
            if r is Err {
                lemma_started_timeout(self.base(), t4, bus.trace(), max_polls);
            }
            assert(tclr_updated(self.base(), t0, t1, 0, TCLR_ST | TCLR_PRE, max_polls, true));
            assert(triggered(self.base(), t2, t3, max_polls, true));
        }
        r
    }

    /// Sets the raw status bit of the overflow interrupt.
    pub fn debug_set_irq<B: RegisterBus>(&self, bus: &mut B)
        ensures
            final(bus).trace() == old(bus).trace().push(
                reg_write(self.base(), IRQSTATUS_RAW, IRQ_OVERFLOW),
            ),
    {
        proof {
            use_type_invariant(self);
        }
        bus.write32(self.memory_address + IRQSTATUS_RAW, IRQ_OVERFLOW);
    }

    /// Reads the raw status bits of the interrupts.
    pub fn debug_read_irq<B: RegisterBus>(&self, bus: &mut B) -> (r: u32)
        ensures
            final(bus).trace() == old(bus).trace().push(reg_read(self.base(), IRQSTATUS_RAW, r)),
    {
        proof {
            use_type_invariant(self);
        }
        bus.read32(self.memory_address + IRQSTATUS_RAW)
    }

    /// Clears the overflow interrupt.
    pub fn clear_overflow_irq<B: RegisterBus>(&self, bus: &mut B)
        ensures
            final(bus).trace() == old(bus).trace().push(reg_write(self.base(), IRQSTATUS, IRQ_OVERFLOW)),
    {
        proof {
            use_type_invariant(self);
        }
        bus.write32(self.memory_address + IRQSTATUS, IRQ_OVERFLOW);
    }
}

} // verus!
