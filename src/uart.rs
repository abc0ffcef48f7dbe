//! The serial ports (UART).
//!
//! One register block serves two layouts. In operating mode it holds the
//! data, status and FIFO registers; writing 0xBF to the line-control register
//! switches it to configuration mode B, where the same addresses hold the
//! baud-rate divisor latches and the enhanced-feature register. [`Uart`] and
//! [`UartConfigB`] are the two modes: each transition consumes one handle and
//! returns the other, so both cannot be held at once.
use vstd::prelude::*;

use crate::bus::{
    access_value, ends_with_polls_set, lemma_polled_writes, lemma_waited_timeout, lemma_writes_to_append, lemma_writes_to_push, wait_for,
    reg_read, reg_write, value_after, waited, writes_to, Access, RegisterBus, WaitTimeout,
};

verus! {

/// Highest base address at which a port's register block fits in the
/// 32-bit address space.
pub const MAX_UART_BASE: u32 = 0xFFFF_FFA4;

/// Offsets in operating mode.
pub const DATA: u32 = 0x00;
pub const IER: u32 = 0x04;
/// Reads as the interrupt identification register, written as the FIFO control register.
pub const IIR: u32 = 0x08;
pub const LCR: u32 = 0x0C;
pub const MCR: u32 = 0x10;
pub const LSR: u32 = 0x14;
pub const MDR1: u32 = 0x20;
pub const MDR2: u32 = 0x24;
pub const SCR: u32 = 0x40;
pub const SSR: u32 = 0x44;
pub const SYSC: u32 = 0x54;
pub const SYSS: u32 = 0x58;

/// Offsets in configuration mode B.
pub const DLL: u32 = 0x00;
pub const DLH: u32 = 0x04;
pub const EFR: u32 = 0x08;

/// Line-control value that switches the block to configuration mode B.
pub const LCR_CONFIG_B: u32 = 0xBF;

/// Line-control value for 8-bit characters, no parity, one stop bit.
pub const LCR_CHAR_8BIT: u32 = 0x03;

/// Enhanced-feature register bit that enables the enhanced functions.
pub const EFR_ENHANCED: u32 = 0x10;

/// Modem-control value that asserts DTR and RTS (both driven low).
pub const MCR_DTR_RTS_LOW: u32 = 0x03;

/// Mode-select values of MDR1.
pub const MDR1_UART16: u32 = 0;
pub const MDR1_DISABLE: u32 = 7;

/// Divisor latch values for 115200 baud from the 48 MHz functional clock.
pub const DLL_115200: u32 = 0x1A;
pub const DLH_115200: u32 = 0x00;

/// SYSC bit that starts a software reset.
pub const SYSC_SOFTRESET: u32 = 0x2;

/// SYSS bit set once a reset is done.
pub const SYSS_RESETDONE: u32 = 0x1;

/// LSR bit set while the receive FIFO holds at least one character.
pub const LSR_RXFIFOE: u32 = 0x1;

/// SSR bit set while the transmit FIFO is full.
pub const SSR_TXFIFOFULL: u32 = 0x1;

/// Carriage return.
pub const CR: u32 = 0x0D;

/// Newline.
pub const LF: u32 = 0x0A;

/// The baud rates the port can be set to.
pub enum BaudRate {
    Baud115200,
}

/// The character a received byte stands for: the low byte of the data
/// register, with carriage return read as newline.
pub open spec fn received_char(data: u32) -> char {
    if (data as u8) as u32 == CR {
        '\n'
    } else {
        (data as u8) as char
    }
}

/// The values one character puts in the data register: its code, or
/// carriage return then newline for a newline.
pub open spec fn char_bytes(c: char) -> Seq<u32> {
    if c == '\n' {
        seq![CR, LF]
    } else {
        seq![c as u32]
    }
}

/// The values a text puts in the data register: each character's code,
/// with a newline sent as carriage return then newline.
pub open spec fn console_bytes(s: Seq<char>) -> Seq<u32>
    decreases s.len(),
{
    if s.len() == 0 {
        Seq::empty()
    } else {
        console_bytes(s.drop_last()) + char_bytes(s.last())
    }
}

/// The values of two texts one after the other are the values of the
/// first followed by those of the second.
pub proof fn lemma_console_bytes_append(a: Seq<char>, b: Seq<char>)
    ensures
        console_bytes(a + b) == console_bytes(a) + console_bytes(b),
    decreases b.len(),
{
    if b.len() == 0 {
        assert(a + b =~= a);
        assert(console_bytes(a) + console_bytes(b) =~= console_bytes(a));
    } else {
        let b0 = b.drop_last();
        assert((a + b).drop_last() =~= a + b0);
        assert((a + b).last() == b.last());
        lemma_console_bytes_append(a, b0);
        assert(console_bytes(a) + (console_bytes(b0) + char_bytes(b.last())) =~= (console_bytes(a)
            + console_bytes(b0)) + char_bytes(b.last()));
    }
}

/// The values of the first `i` characters of a text begin the values of
/// the whole text.
pub proof fn lemma_console_bytes_prefix(s: Seq<char>, i: int)
    requires
        0 <= i <= s.len(),
    ensures
        console_bytes(s.subrange(0, i)).len() <= console_bytes(s).len(),
        console_bytes(s).subrange(0, console_bytes(s.subrange(0, i)).len() as int) == console_bytes(
            s.subrange(0, i),
        ),
{
    assert(s =~= s.subrange(0, i) + s.subrange(i, s.len() as int));
    lemma_console_bytes_append(s.subrange(0, i), s.subrange(i, s.len() as int));
    let p = console_bytes(s.subrange(0, i));
    let q = console_bytes(s.subrange(i, s.len() as int));
    assert((p + q).subrange(0, p.len() as int) =~= p);
}

/// A serial port in operating mode.
pub struct Uart {
    memory_address: u32,
}

/// A serial port in configuration mode B, holding the line-control value
/// that returning to operating mode restores.
pub struct UartConfigB {
    memory_address: u32,
    saved_lcr: u32,
}

/// The accesses that switch the block at `base` from operating mode to
/// configuration mode B, when its line-control register reads `lcr`.
pub open spec fn enter_config_b(base: u32, lcr: u32) -> Seq<Access> {
    seq![reg_read(base, LCR, lcr), reg_write(base, LCR, LCR_CONFIG_B)]
}

/// The accesses that return the block at `base` to operating mode,
/// restoring the line-control value `lcr`.
pub open spec fn leave_config_b(base: u32, lcr: u32) -> Seq<Access> {
    seq![reg_write(base, LCR, lcr)]
}

/// The accesses of the bring-up sequence of the port at `base`, when its
/// line-control register reads `lcr` on entering configuration mode.
pub open spec fn bring_up(base: u32, lcr: u32) -> Seq<Access> {
    seq![
        reg_write(base, MDR1, MDR1_DISABLE),
        reg_write(base, IER, 0),
    ] + enter_config_b(base, lcr) + seq![
        reg_write(base, EFR, EFR_ENHANCED),
        reg_write(base, DLH, DLH_115200),
        reg_write(base, DLL, DLL_115200),
        reg_write(base, MCR, MCR_DTR_RTS_LOW),
        reg_write(base, LCR, LCR_CHAR_8BIT),
        reg_write(base, MDR1, MDR1_UART16),
    ] + leave_config_b(base, lcr) + seq![reg_write(base, IIR, 0), reg_write(base, IER, 0)]
}

impl UartConfigB {
    #[verifier::type_invariant]
    spec fn inv(&self) -> bool {
        self.memory_address <= MAX_UART_BASE
    }

    /// The base address of the port's registers.
    pub closed spec fn base(&self) -> u32 {
        self.memory_address
    }

    /// The line-control value that returning to operating mode restores.
    pub closed spec fn saved(&self) -> u32 {
        self.saved_lcr
    }

    /// The port at `memory_addr`, already in configuration mode B, which
    /// restores `saved_lcr` on return to operating mode.
    pub fn new(memory_addr: u32, saved_lcr: u32) -> (r: UartConfigB)
        requires
            memory_addr <= MAX_UART_BASE,
        ensures
            r.base() == memory_addr,
            r.saved() == saved_lcr,
    {
        UartConfigB { memory_address: memory_addr, saved_lcr }
    }

    /// The base address of the registers; the whole register block lies
    /// inside the 32-bit address space.
    pub fn get_base(&self) -> (r: u32)
        ensures
            r == self.base(),
            r <= MAX_UART_BASE,
    {
        proof {
            use_type_invariant(self);
        }
        self.memory_address
    }

    /// The line-control value that returning to operating mode restores.
    pub fn saved_lcr(&self) -> (r: u32)
        ensures
            r == self.saved(),
    {
        self.saved_lcr
    }

    /// Returns to operating mode by writing the saved line-control value back.
    pub fn to_operating_mode<B: RegisterBus>(self, bus: &mut B) -> (r: Uart)
        ensures
            r.base() == self.base(),
            final(bus).trace() == old(bus).trace() + leave_config_b(self.base(), self.saved()),
    {
        proof {
            use_type_invariant(&self);
        }
        bus.write32(self.memory_address + LCR, self.saved_lcr);
        proof {
            assert(final(bus).trace() =~= old(bus).trace() + leave_config_b(self.base(), self.saved()));
        }
        Uart::new(self.memory_address)
    }

    /// Enables the enhanced functions (enhanced-feature register).
    pub fn enable_all_ier<B: RegisterBus>(&self, bus: &mut B)
        ensures
            final(bus).trace() == old(bus).trace().push(reg_write(self.base(), EFR, EFR_ENHANCED)),
    {
        proof {
            use_type_invariant(self);
        }
        bus.write32(self.memory_address + EFR, EFR_ENHANCED);
    }

    /// Sets the divisor latches for 115200 baud: the high byte, then the low.
    pub fn set_baud<B: RegisterBus>(&self, bus: &mut B)
        ensures
            final(bus).trace() == old(bus).trace().push(reg_write(self.base(), DLH, DLH_115200)).push(
                reg_write(self.base(), DLL, DLL_115200),
            ),
    {
        proof {
            use_type_invariant(self);
        }
        bus.write32(self.memory_address + DLH, DLH_115200);
        bus.write32(self.memory_address + DLL, DLL_115200);
    }

    /// Writes `value` to the register at `offset`.
    fn write<B: RegisterBus>(&self, bus: &mut B, offset: u32, value: u32)
        requires
            offset <= SYSS,
        ensures
            final(bus).trace() == old(bus).trace().push(reg_write(self.base(), offset, value)),
    {
        proof {
            use_type_invariant(self);
        }
        bus.write32(self.memory_address + offset, value);
    }
}

impl Uart {
    #[verifier::type_invariant]
    spec fn inv(&self) -> bool {
        self.memory_address <= MAX_UART_BASE
    }

    /// The base address of the port's registers.
    pub closed spec fn base(&self) -> u32 {
        self.memory_address
    }

    /// The port whose registers start at `memory_addr`, in operating mode.
    pub fn new(memory_addr: u32) -> (r: Uart)
        requires
            memory_addr <= MAX_UART_BASE,
        ensures
            r.base() == memory_addr,
    {
        Uart { memory_address: memory_addr }
    }

    /// The port whose registers start at `memory_addr`, in operating mode.
    pub fn new_from_u32(memory_addr: u32) -> (r: Uart)
        requires
            memory_addr <= MAX_UART_BASE,
        ensures
            r.base() == memory_addr,
    {
        Uart::new(memory_addr)
    }

    /// The base address of the port's registers.
    pub fn get_base(&self) -> (r: u32)
        ensures
            r == self.base(),
            r <= MAX_UART_BASE,
    {
        proof {
            use_type_invariant(self);
        }
        self.memory_address
    }

    /// Writes `value` to the register at `offset`.
    fn write<B: RegisterBus>(&self, bus: &mut B, offset: u32, value: u32)
        requires
            offset <= SYSS,
        ensures
            final(bus).trace() == old(bus).trace().push(reg_write(self.base(), offset, value)),
    {
        proof {
            use_type_invariant(self);
        }
        bus.write32(self.memory_address + offset, value);
    }

    /// Reads the register at `offset`.
    fn read<B: RegisterBus>(&self, bus: &mut B, offset: u32) -> (r: u32)
        requires
            offset <= SYSS,
        ensures
            final(bus).trace() == old(bus).trace().push(reg_read(self.base(), offset, r)),
    {
        proof {
            use_type_invariant(self);
        }
        bus.read32(self.memory_address + offset)
    }

    /// Starts a software reset.
    pub fn start_reset<B: RegisterBus>(&self, bus: &mut B)
        ensures
            final(bus).trace() == old(bus).trace().push(reg_write(self.base(), SYSC, SYSC_SOFTRESET)),
    {
        self.write(bus, SYSC, SYSC_SOFTRESET);
    }

    /// Waits, for at most `max_polls` reads of the status register, until a
    /// reset is done.
    pub fn wait_reset_done<B: RegisterBus>(&self, bus: &mut B, max_polls: u32) -> (r: Result<
        (),
        WaitTimeout,
    >)
        ensures
            waited(
                old(bus).trace(),
                final(bus).trace(),
                (self.base() + SYSS) as u32,
                SYSS_RESETDONE,
                true,
                max_polls,
                r is Ok,
            ),
    {
        proof {
            use_type_invariant(self);
        }
        wait_for(bus, self.memory_address + SYSS, SYSS_RESETDONE, true, max_polls)
    }

    /// Starts a software reset and waits, for at most `max_polls` reads of
    /// the status register, until the reset is done.
    pub fn reset<B: RegisterBus>(&self, bus: &mut B, max_polls: u32) -> (r: Result<(), WaitTimeout>)
        ensures
            waited(
                old(bus).trace().push(reg_write(self.base(), SYSC, SYSC_SOFTRESET)),
                final(bus).trace(),
                (self.base() + SYSS) as u32,
                SYSS_RESETDONE,
                true,
                max_polls,
                r is Ok,
            ),
    {
        self.start_reset(bus);
        self.wait_reset_done(bus, max_polls)
    }

    /// Disables every interrupt source of the port.
    pub fn disable_irq<B: RegisterBus>(&self, bus: &mut B)
        ensures
            final(bus).trace() == old(bus).trace().push(reg_write(self.base(), IER, 0)),
    {
        self.write(bus, IER, 0);
    }

    /// Switches to configuration mode B: saves the line-control value, then
    /// writes the value that selects the other layout.
    pub fn to_config_b<B: RegisterBus>(self, bus: &mut B) -> (r: UartConfigB)
        ensures
            r.base() == self.base(),
            final(bus).trace() == old(bus).trace() + enter_config_b(self.base(), r.saved()),
    {
        proof {
            use_type_invariant(&self);
        }
        let saved_lcr = self.read(bus, LCR);
        self.write(bus, LCR, LCR_CONFIG_B);
        proof {
            assert(final(bus).trace() =~= old(bus).trace() + enter_config_b(self.base(), saved_lcr));
        }
        UartConfigB::new(self.memory_address, saved_lcr)
    }

    /// Disables the port (mode select).
    pub fn disable<B: RegisterBus>(&self, bus: &mut B)
        ensures
            final(bus).trace() == old(bus).trace().push(reg_write(self.base(), MDR1, MDR1_DISABLE)),
    {
        self.write(bus, MDR1, MDR1_DISABLE);
    }

    /// Enables the port as a UART with 16x oversampling (mode select).
    pub fn enable<B: RegisterBus>(&self, bus: &mut B)
        ensures
            final(bus).trace() == old(bus).trace().push(reg_write(self.base(), MDR1, MDR1_UART16)),
    {
        self.write(bus, MDR1, MDR1_UART16);
    }

    /// Brings the port up at 115200 baud, 8 bits, no parity, one stop bit,
    /// in the order the hardware requires: disable the port and its
    /// interrupts, enter configuration mode B, enable the enhanced
    /// functions, set the divisor latches, assert DTR and RTS, set the line
    /// format, select 16x UART mode, return to operating mode, clear the FIFO
    /// control register and disable the interrupts again.
    pub fn initialize<B: RegisterBus>(self, bus: &mut B) -> (r: Uart)
        ensures
            r.base() == self.base(),
            ({
                let lcr = access_value(final(bus).trace()[old(bus).trace().len() + 2int]);
                final(bus).trace() == old(bus).trace() + bring_up(self.base(), lcr)
            }),
    {
        let ghost base = self.base();
        self.disable(bus);
        self.disable_irq(bus);
        let ghost t2 = bus.trace();
        let config_b = self.to_config_b(bus);
        let ghost lcr = config_b.saved();
        config_b.enable_all_ier(bus);
        config_b.set_baud(bus);
        config_b.write(bus, MCR, MCR_DTR_RTS_LOW);
        config_b.write(bus, LCR, LCR_CHAR_8BIT);
        config_b.write(bus, MDR1, MDR1_UART16);
        let uart = config_b.to_operating_mode(bus);
        uart.write(bus, IIR, 0);
        uart.disable_irq(bus);
        proof {
            assert(t2 + enter_config_b(base, lcr) == t2.push(reg_read(base, LCR, lcr)).push(
                reg_write(base, LCR, LCR_CONFIG_B),
            )) by {
                assert(t2 + enter_config_b(base, lcr) =~= t2.push(reg_read(base, LCR, lcr)).push(
                    reg_write(base, LCR, LCR_CONFIG_B),
                ));
            }
            assert(final(bus).trace() =~= old(bus).trace() + bring_up(base, lcr));
        }
        uart
    }

    /// The line-control register.
    pub fn debug_lcr<B: RegisterBus>(&self, bus: &mut B) -> (r: u32)
        ensures
            final(bus).trace() == old(bus).trace().push(reg_read(self.base(), LCR, r)),
    {
        self.read(bus, LCR)
    }

    /// The mode-definition register 1.
    pub fn debug_mdr1<B: RegisterBus>(&self, bus: &mut B) -> (r: u32)
        ensures
            final(bus).trace() == old(bus).trace().push(reg_read(self.base(), MDR1, r)),
    {
        self.read(bus, MDR1)
    }

    /// The mode-definition register 2.
    pub fn debug_mdr2<B: RegisterBus>(&self, bus: &mut B) -> (r: u32)
        ensures
            final(bus).trace() == old(bus).trace().push(reg_read(self.base(), MDR2, r)),
    {
        self.read(bus, MDR2)
    }

    /// The line-status register.
    pub fn debug_lsr<B: RegisterBus>(&self, bus: &mut B) -> (r: u32)
        ensures
            final(bus).trace() == old(bus).trace().push(reg_read(self.base(), LSR, r)),
    {
        self.read(bus, LSR)
    }

    /// Reads, in order, LCR, MDR1, MDR2, LSR, MCR, IIR and SCR.
    pub fn dump_registers<B: RegisterBus>(&self, bus: &mut B) -> (r: [u32; 7])
        ensures
            final(bus).trace() == old(bus).trace() + seq![
                reg_read(self.base(), LCR, r[0]),
                reg_read(self.base(), MDR1, r[1]),
                reg_read(self.base(), MDR2, r[2]),
                reg_read(self.base(), LSR, r[3]),
                reg_read(self.base(), MCR, r[4]),
                reg_read(self.base(), IIR, r[5]),
                reg_read(self.base(), SCR, r[6]),
            ],
    {
        let lcr = self.read(bus, LCR);
        let mdr1 = self.read(bus, MDR1);
        let mdr2 = self.read(bus, MDR2);
        let lsr = self.read(bus, LSR);
        let mcr = self.read(bus, MCR);
        let iir = self.read(bus, IIR);
        let scr = self.read(bus, SCR);
        let r = [lcr, mdr1, mdr2, lsr, mcr, iir, scr];
        proof {
            assert(final(bus).trace() =~= old(bus).trace() + seq![
                reg_read(self.base(), LCR, r[0]),
                reg_read(self.base(), MDR1, r[1]),
                reg_read(self.base(), MDR2, r[2]),
                reg_read(self.base(), LSR, r[3]),
                reg_read(self.base(), MCR, r[4]),
                reg_read(self.base(), IIR, r[5]),
                reg_read(self.base(), SCR, r[6]),
            ]);
        }
        r
    }

    /// Waits, for at most `max_polls` reads of the supplementary status
    /// register, until the transmit FIFO is not full.
    pub fn flush_txfifo<B: RegisterBus>(&self, bus: &mut B, max_polls: u32) -> (r: Result<
        (),
        WaitTimeout,
    >)
        ensures
            waited(
                old(bus).trace(),
                final(bus).trace(),
                (self.base() + SSR) as u32,
                SSR_TXFIFOFULL,
                false,
                max_polls,
                r is Ok,
            ),
    {
        proof {
            use_type_invariant(self);
        }
        wait_for(bus, self.memory_address + SSR, SSR_TXFIFOFULL, false, max_polls)
    }

    /// Sends `c`: waits, for at most `max_polls` polls, until the transmit
    /// FIFO is not full, then writes the character's code to the data
    /// register. Nothing is written if the wait runs out.
    pub fn putc<B: RegisterBus>(&self, bus: &mut B, c: char, max_polls: u32) -> (r: Result<
        (),
        WaitTimeout,
    >)
        ensures
            r is Ok ==> {
                &&& final(bus).trace().len() > 0
                &&& final(bus).trace().last() == reg_write(self.base(), DATA, c as u32)
                &&& waited(
                    old(bus).trace(),
                    final(bus).trace().drop_last(),
                    (self.base() + SSR) as u32,
                    SSR_TXFIFOFULL,
                    false,
                    max_polls,
                    true,
                )
            },
            r is Err ==> waited(
                old(bus).trace(),
                final(bus).trace(),
                (self.base() + SSR) as u32,
                SSR_TXFIFOFULL,
                false,
                max_polls,
                false,
            ),
    {
        let ghost t0 = bus.trace();
        match self.flush_txfifo(bus, max_polls) {
            Ok(()) => {
                let ghost t1 = bus.trace();
                self.write(bus, DATA, c as u32);
                proof {
                    assert(bus.trace().drop_last() =~= t1);
                }
                Ok(())
            },
            Err(e) => Err(e),
        }
    }

    /// Waits, for at most `max_polls` polls of the line-status register,
    /// until a character has been received, then reads it from the data
    /// register; a carriage return is read as a newline.
    pub fn getc<B: RegisterBus>(&self, bus: &mut B, max_polls: u32) -> (r: Result<char, WaitTimeout>)
        ensures
            match r {
                Ok(c) => {
                    let data = access_value(final(bus).trace().last());
                    &&& final(bus).trace().len() > 0
                    &&& final(bus).trace().last() == reg_read(self.base(), DATA, data)
                    &&& c == received_char(data)
                    &&& waited(
                        old(bus).trace(),
                        final(bus).trace().drop_last(),
                        (self.base() + LSR) as u32,
                        LSR_RXFIFOE,
                        true,
                        max_polls,
                        true,
                    )
                },
                Err(_) => waited(
                    old(bus).trace(),
                    final(bus).trace(),
                    (self.base() + LSR) as u32,
                    LSR_RXFIFOE,
                    true,
                    max_polls,
                    false,
                ),
            },
    {
        proof {
            use_type_invariant(self);
        }
        match wait_for(bus, self.memory_address + LSR, LSR_RXFIFOE, true, max_polls) {
            Ok(()) => {
                let ghost t1 = bus.trace();
                let data = self.read(bus, DATA);
                proof {
                    assert(bus.trace().drop_last() =~= t1);
                }
                Ok(received(data))
            },
            Err(e) => Err(e),
        }
    }

    /// Sends the text `s`, each newline as carriage return then newline,
    /// giving each character at most `max_polls` polls of the transmit
    /// FIFO. Only the data register is written. On success it has received
    /// exactly the text's values; on a timeout, the values of the characters
    /// before it, and the last `max_polls` accesses are status reads that
    /// found the transmit FIFO full. An empty text succeeds with no access.
    pub fn write_str<B: RegisterBus>(&self, bus: &mut B, s: &str, max_polls: u32) -> (r: Result<
        (),
        WaitTimeout,
    >)
        ensures
            s@.len() == 0 ==> r is Ok && final(bus).trace() == old(bus).trace(),
            forall|a: u32|
                a != (self.base() + DATA) as u32 ==> #[trigger] writes_to(final(bus).trace(), a)
                    == writes_to(old(bus).trace(), a),
            r is Ok ==> writes_to(final(bus).trace(), (self.base() + DATA) as u32) == writes_to(
                old(bus).trace(),
                (self.base() + DATA) as u32,
            ) + console_bytes(s@),
            r is Err ==> exists|k: int|
                0 <= k <= console_bytes(s@).len() && writes_to(
                    final(bus).trace(),
                    (self.base() + DATA) as u32,
                ) == writes_to(old(bus).trace(), (self.base() + DATA) as u32) + #[trigger] console_bytes(
                    s@,
                ).subrange(0, k),
            r is Err ==> {
                &&& s@.len() > 0
                &&& final(bus).trace().len() >= old(bus).trace().len() + max_polls
                &&& ends_with_polls_set(
                    final(bus).trace(),
                    (self.base() + SSR) as u32,
                    SSR_TXFIFOFULL,
                    max_polls,
                )
            },
    {
        proof {
            use_type_invariant(self);
        }
        let ghost data = (self.base() + DATA) as u32;
        let ghost w0 = writes_to(old(bus).trace(), data);
        let n = s.unicode_len();
        let mut i: usize = 0;
        while i < n
            invariant
                n == s@.len(),
                i <= n,
                data == (self.base() + DATA) as u32,
                w0 == writes_to(old(bus).trace(), data),
                writes_to(bus.trace(), data) == w0 + console_bytes(s@.subrange(0, i as int)),
                forall|a: u32|
                    a != data ==> #[trigger] writes_to(bus.trace(), a) == writes_to(
                        old(bus).trace(),
                        a,
                    ),
                bus.trace().len() >= old(bus).trace().len(),
                i == 0 ==> bus.trace() == old(bus).trace(),
            decreases n - i,
        {
            let c = s.get_char(i);
            let ghost before = s@.subrange(0, i as int);
            let ghost t_before = bus.trace();
            proof {
                assert(s@.subrange(0, i + 1).drop_last() =~= before);
                assert(s@.subrange(0, i + 1).last() == c);
                lemma_console_bytes_prefix(s@, i as int);
                lemma_console_bytes_prefix(s@, i + 1);
            }
            if c == '\n' {
                let r1 = self.put_tracked(bus, '\r', max_polls);
                if r1.is_err() {
                    proof {
                        let w = writes_to(bus.trace(), data);
                        let k = console_bytes(before).len() as int;
                        assert(w =~= w0 + console_bytes(before));
                        assert(w =~= w0 + console_bytes(s@).subrange(0, k));
                    }
                    return r1;
                }
                let r2 = self.put_tracked(bus, '\n', max_polls);
                proof {
                    assert('\r' as u32 == 13);
                    assert('\n' as u32 == 10);
                    assert(char_bytes(c) =~= seq![CR, LF]);
                }
                if r2.is_err() {
                    proof {
                        let w = writes_to(bus.trace(), data);
                        let k = console_bytes(before).len() + 1int;
                        let whole = console_bytes(s@.subrange(0, i + 1));
                        assert(whole =~= console_bytes(before) + seq![CR, LF]);
                        assert(w =~= w0 + console_bytes(before).push(CR));
                        assert(console_bytes(s@).subrange(0, k) =~= whole.subrange(0, k));
                        assert(w =~= w0 + console_bytes(s@).subrange(0, k));
                    }
                    return r2;
                }
                proof {
                    assert(writes_to(bus.trace(), data) =~= w0 + console_bytes(
                        s@.subrange(0, i + 1),
                    ));
                }
            } else {
                let r1 = self.put_tracked(bus, c, max_polls);
                if r1.is_err() {
                    proof {
                        let w = writes_to(bus.trace(), data);
                        let k = console_bytes(before).len() as int;
                        assert(w =~= w0 + console_bytes(before));
                        assert(w =~= w0 + console_bytes(s@).subrange(0, k));
                    }
                    return r1;
                }
                proof {
                    assert(writes_to(bus.trace(), data) =~= w0 + console_bytes(
                        s@.subrange(0, i + 1),
                    ));
                }
            }
            i = i + 1;
        }
        proof {
            assert(s@.subrange(0, n as int) =~= s@);
        }
        Ok(())
    }

    /// Sends `c` as `putc` does, and states what that does to the writes of
    /// every register, and how a timeout ends.
    fn put_tracked<B: RegisterBus>(&self, bus: &mut B, c: char, max_polls: u32) -> (r: Result<
        (),
        WaitTimeout,
    >)
        ensures
            final(bus).trace().len() >= old(bus).trace().len(),
            forall|a: u32|
                a != (self.base() + DATA) as u32 ==> #[trigger] writes_to(final(bus).trace(), a)
                    == writes_to(old(bus).trace(), a),
            r is Ok ==> writes_to(final(bus).trace(), (self.base() + DATA) as u32) == writes_to(
                old(bus).trace(),
                (self.base() + DATA) as u32,
            ).push(c as u32),
            r is Err ==> {
                &&& writes_to(final(bus).trace(), (self.base() + DATA) as u32) == writes_to(
                    old(bus).trace(),
                    (self.base() + DATA) as u32,
                )
                &&& final(bus).trace().len() >= old(bus).trace().len() + max_polls
                &&& ends_with_polls_set(
                    final(bus).trace(),
                    (self.base() + SSR) as u32,
                    SSR_TXFIFOFULL,
                    max_polls,
                )
            },
    {
        let r = self.putc(bus, c, max_polls);
        proof {
            let data = (self.base() + DATA) as u32;
            let ssr = (self.base() + SSR) as u32;
            if r is Ok {
                let t1 = final(bus).trace().drop_last();
                assert(final(bus).trace() =~= t1.push(final(bus).trace().last()));
                assert forall|a: u32| #[trigger]
                    writes_to(final(bus).trace(), a) == if a == data {
                        writes_to(old(bus).trace(), a).push(c as u32)
                    } else {
                        writes_to(old(bus).trace(), a)
                    } by {
                    lemma_polled_writes(old(bus).trace(), t1, ssr, SSR_TXFIFOFULL, false, a);
                    lemma_writes_to_push(t1, final(bus).trace().last(), a);
                }
            } else {
                assert forall|a: u32| #[trigger]
                    writes_to(final(bus).trace(), a) == writes_to(old(bus).trace(), a) by {
                    lemma_polled_writes(
                        old(bus).trace(),
                        final(bus).trace(),
                        ssr,
                        SSR_TXFIFOFULL,
                        false,
                        a,
                    );
                }
                lemma_waited_timeout(
                    old(bus).trace(),
                    final(bus).trace(),
                    ssr,
                    SSR_TXFIFOFULL,
                    max_polls,
                );
            }
        }
        r
    }
}

/// The character a received data-register value stands for.
pub fn received(data: u32) -> (r: char)
    ensures
        r == received_char(data),
{
    let byte = data as u8;
    if byte as u32 == CR {
        '\n'
    } else {
        byte as char
    }
}

/// Switching a port to configuration mode B and back leaves its
/// line-control register as it was: whatever the register held when it was
/// read on the way in is the last value written to it on the way out.
pub proof fn lemma_config_round_trip(base: u32, lcr: u32, t: Seq<Access>, init: u32)
    ensures
        value_after(
            init,
            t + enter_config_b(base, lcr) + leave_config_b(base, lcr),
            (base + LCR) as u32,
        ) == lcr,
{
    let a = (base + LCR) as u32;
    let u = enter_config_b(base, lcr) + leave_config_b(base, lcr);
    assert(t + enter_config_b(base, lcr) + leave_config_b(base, lcr) =~= t + u);
    lemma_writes_to_append(t, u, a);
    assert(u =~= seq![reg_read(base, LCR, lcr)].push(reg_write(base, LCR, LCR_CONFIG_B)).push(
        reg_write(base, LCR, lcr),
    ));
    let s0 = seq![reg_read(base, LCR, lcr)];
    let s1 = s0.push(reg_write(base, LCR, LCR_CONFIG_B));
    lemma_writes_to_push(s1, reg_write(base, LCR, lcr), a);
    assert(writes_to(t + u, a).last() == lcr);
}

/// On a register that reads as what it holds (as a [`RegisterStore`] cell
/// does), switching the port to configuration mode B and back leaves the
/// line-control register holding what it held before: 0x03 stays 0x03.
///
/// [`RegisterStore`]: crate::bus::RegisterStore
pub proof fn lemma_config_round_trip_restores(base: u32, t: Seq<Access>, init: u32)
    ensures
        ({
            let a = (base + LCR) as u32;
            let held = value_after(init, t, a);
            value_after(
                init,
                t + enter_config_b(base, held) + leave_config_b(base, held),
                a,
            ) == held
        }),
{
    lemma_config_round_trip(base, value_after(init, t, (base + LCR) as u32), t, init);
}

} // verus!
