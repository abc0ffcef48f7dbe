//! The interrupt controller of the AM335x Sitara SoC.
//!
//! The controller serves 128 interrupt lines in four banks of 32. Each bank
//! has its own block of registers; a line is one bit in each of them.
use vstd::prelude::*;

use crate::bus::{access_value, Access, RegisterBus};

verus! {

/// Largest valid interrupt number.
pub const MAX_INTERRUPT: u8 = 127;

/// Highest base address at which the controller's register block, up to
/// the priority register of the last line, fits in the 32-bit address space.
pub const MAX_INTC_BASE: u32 = 0xFFFF_FD00;

/// Offset of the first bank's register block from the controller's base.
pub const BANK_OFFSET: u32 = 0x80;

/// Distance between the register blocks of two neighbouring banks.
pub const BANK_STRIDE: u32 = 0x20;

/// Offset of the first line's priority register (ILR) from the controller's base.
pub const ILR_OFFSET: u32 = 0x100;

/// Offset of the system configuration register.
pub const SYSCONFIG: u32 = 0x10;

/// Offset of the register that holds the active IRQ's number.
pub const SIR_IRQ: u32 = 0x40;

/// Offset of the register that holds the active FIQ's number.
pub const SIR_FIQ: u32 = 0x44;

/// Offset of the control register that acknowledges the active IRQ or FIQ.
pub const CONTROL: u32 = 0x48;

/// SYSCONFIG bit that starts a software reset.
pub const SYSCONFIG_SOFT_RESET: u32 = 0x2;

/// SYSCONFIG bit that lets the interface clock idle by itself.
pub const SYSCONFIG_AUTOIDLE: u32 = 0x1;

/// CONTROL bit that allows a new IRQ to be generated.
pub const CONTROL_NEW_IRQ: u32 = 0x1;

/// CONTROL bit that allows a new FIQ to be generated.
pub const CONTROL_NEW_FIQ: u32 = 0x2;

/// Offsets within a bank's register block.
pub const ITR: u32 = 0x00;
pub const MIR: u32 = 0x04;
pub const MIR_CLEAR: u32 = 0x08;
pub const MIR_SET: u32 = 0x0C;
pub const ISR_SET: u32 = 0x10;
pub const ISR_CLEAR: u32 = 0x14;
pub const PENDING_IRQ: u32 = 0x18;
pub const PENDING_FIQ: u32 = 0x1C;

/// The registers of a bank.
#[derive(Clone, Copy, Debug, PartialEq, Eq, Structural)]
pub enum InterruptRegister {
    Status,
    Mask,
    MaskClear,
    MaskSet,
    SoftwareSet,
    SoftwareClear,
    PendingIRQ,
    PendingFIQ,
}

impl InterruptRegister {
    /// The register's offset within its bank's block.
    pub open spec fn spec_offset(self) -> u32 {
        match self {
            InterruptRegister::Status => ITR,
            InterruptRegister::Mask => MIR,
            InterruptRegister::MaskClear => MIR_CLEAR,
            InterruptRegister::MaskSet => MIR_SET,
            InterruptRegister::SoftwareSet => ISR_SET,
            InterruptRegister::SoftwareClear => ISR_CLEAR,
            InterruptRegister::PendingIRQ => PENDING_IRQ,
            InterruptRegister::PendingFIQ => PENDING_FIQ,
        }
    }

    /// Whether reading the register yields its state: the set and clear
    /// registers of the mask and of the software interrupts are write-only.
    pub open spec fn spec_readable(self) -> bool {
        match self {
            InterruptRegister::MaskClear
            | InterruptRegister::MaskSet
            | InterruptRegister::SoftwareClear => false,
            _ => true,
        }
    }

    /// The register's offset within its bank's block.
    pub fn offset(&self) -> (r: u32)
        ensures
            r == self.spec_offset(),
    {
        match self {
            InterruptRegister::Status => ITR,
            InterruptRegister::Mask => MIR,
            InterruptRegister::MaskClear => MIR_CLEAR,
            InterruptRegister::MaskSet => MIR_SET,
            InterruptRegister::SoftwareSet => ISR_SET,
            InterruptRegister::SoftwareClear => ISR_CLEAR,
            InterruptRegister::PendingIRQ => PENDING_IRQ,
            InterruptRegister::PendingFIQ => PENDING_FIQ,
        }
    }

    /// Whether reading the register yields its state.
    pub fn readable(&self) -> (r: bool)
        ensures
            r == self.spec_readable(),
    {
        match self {
            InterruptRegister::MaskClear
            | InterruptRegister::MaskSet
            | InterruptRegister::SoftwareClear => false,
            _ => true,
        }
    }
}

/// What the hardware's mask register of the bank at `bank` holds after the
/// accesses `t`, when it held `m` before them. The mask register itself
/// takes a written value; writing to its set register sets the written bits,
/// writing to its clear register clears them.
pub open spec fn mask_after(m: u32, t: Seq<Access>, bank: int) -> u32
    decreases t.len(),
{
    if t.len() == 0 {
        m
    } else {
        let before = mask_after(m, t.drop_last(), bank);
        match t.last() {
            Access::Write { addr, value } => if addr == bank + MIR {
                value
            } else if addr == bank + MIR_SET {
                before | value
            } else if addr == bank + MIR_CLEAR {
                before & !value
            } else {
                before
            },
            Access::Read { .. } => before,
        }
    }
}

/// What the masking constructor makes of a raw value: the raw value is
/// combined with the mask 0x7F by `|`, which forces every low bit to one, and
/// the result is kept to seven bits.
pub open spec fn masked_number(raw: u32) -> nat {
    ((raw | 0x7F) & 0x7F) as nat
}

/// The number of an interrupt line, in `0..=127`.
#[derive(Debug, PartialEq, Eq, Structural)]
pub struct InterruptNumber(u8);

impl View for InterruptNumber {
    type V = nat;

    closed spec fn view(&self) -> nat {
        self.0 as nat
    }
}

impl InterruptNumber {
    #[verifier::type_invariant]
    spec fn inv(&self) -> bool {
        self.0 <= MAX_INTERRUPT
    }

    /// The number `number`, if it names a line (at most 127).
    pub fn new(number: u8) -> (r: Option<InterruptNumber>)
        ensures
            match r {
                Some(n) => number <= 127 && n@ == number as nat,
                None => number > 127,
            },
    {
        if number > MAX_INTERRUPT {
            None
        } else {
            Some(InterruptNumber(number))
        }
    }

    /// The number that a raw register value stands for, forced into range.
    ///
    /// The raw value is combined with 0x7F by `|` rather than `&`, so every
    /// raw value maps to line 127. This likely wants `&`; it stays as it is
    /// until the hardware manual confirms which one the registers need.
    pub fn from_u32(number: u32) -> (r: InterruptNumber)
        ensures
            r@ == masked_number(number),
            r@ <= 127,
    {
        let bitmask: u32 = 0x7F;
        let forced = number | bitmask;
        let kept = forced & bitmask;
        assert(forced & 0x7F <= 0x7F) by (bit_vector);
        InterruptNumber(kept as u8)
    }

    /// The line's bit within its bank.
    pub fn get_shift(&self) -> (r: u32)
        ensures
            r == self@ % 32,
    {
        (self.0 % 32) as u32
    }

    /// The line's bank.
    pub fn get_offset(&self) -> (r: u32)
        ensures
            r == self@ / 32,
            r <= 3,
    {
        proof {
            use_type_invariant(self);
        }
        (self.0 / 32) as u32
    }

    /// The number as a `u32`.
    pub fn as_u32(&self) -> (r: u32)
        ensures
            r == self@,
    {
        self.0 as u32
    }
}

/// The bank index of line `n`.
pub open spec fn bank_index(n: nat) -> nat {
    n / 32
}

/// The bit index of line `n` within its bank.
pub open spec fn bit_index(n: nat) -> nat {
    n % 32
}

/// The address of the register block of line `n`'s bank, for the
/// controller at `base`.
pub open spec fn bank_address(base: u32, n: nat) -> int {
    base + BANK_OFFSET + BANK_STRIDE * bank_index(n)
}

/// The address of line `n`'s priority register (ILR), for the controller
/// at `base`.
pub open spec fn ilr_address(base: u32, n: nat) -> int {
    base + ILR_OFFSET + 4 * n
}

/// The mask that selects line `n`'s bit in its bank's registers.
pub open spec fn line_mask(n: nat) -> u32 {
    1u32 << (bit_index(n) as u32)
}

/// One interrupt line of a controller.
#[derive(Debug)]
pub struct InterruptLine {
    number: InterruptNumber,
    memory_address: u32,
}

impl InterruptLine {
    #[verifier::type_invariant]
    spec fn inv(&self) -> bool {
        self.memory_address <= MAX_INTC_BASE
    }

    /// The line's number.
    pub closed spec fn number(&self) -> nat {
        self.number@
    }

    /// The base address of the line's controller.
    pub closed spec fn base(&self) -> u32 {
        self.memory_address
    }

    /// The address of the register block of the line's bank.
    pub open spec fn bank(&self) -> int {
        bank_address(self.base(), self.number())
    }

    /// The mask that selects the line's bit.
    pub open spec fn mask(&self) -> u32 {
        line_mask(self.number())
    }

    /// A write of the line's mask to the bank's register at `offset`.
    pub open spec fn mask_write(&self, offset: u32) -> Access {
        Access::Write { addr: (self.bank() + offset) as u32, value: self.mask() }
    }

    /// A read of the bank's register at `offset` that returned `value`.
    pub open spec fn bank_read(&self, offset: u32, value: u32) -> Access {
        Access::Read { addr: (self.bank() + offset) as u32, value }
    }

    /// The line `number` of the controller at `memory_address`.
    pub fn new(number: InterruptNumber, memory_address: u32) -> (r: InterruptLine)
        requires
            memory_address <= MAX_INTC_BASE,
        ensures
            r.number() == number@,
            r.base() == memory_address,
    {
        InterruptLine { number, memory_address }
    }

    /// The base address of the registers; the whole register block lies
    /// inside the 32-bit address space.
    pub fn get_base(&self) -> (r: u32)
        ensures
            r == self.base(),
            r <= MAX_INTC_BASE,
    {
        proof {
            use_type_invariant(self);
        }
        self.memory_address
    }

    /// The line's number, at most 127.
    pub fn get_number(&self) -> (r: u32)
        ensures
            r == self.number(),
            r <= 127,
    {
        proof {
            use_type_invariant(&self.number);
        }
        self.number.as_u32()
    }

    /// The line's bank.
    pub fn get_bank(&self) -> (r: u32)
        ensures
            r == bank_index(self.number()),
    {
        self.number.get_offset()
    }

    /// The line's bit within its bank.
    pub fn get_bit(&self) -> (r: u32)
        ensures
            r == bit_index(self.number()),
    {
        self.number.get_shift()
    }

    /// The mask that selects the line's bit in its bank's registers.
    pub fn get_bitmask(&self) -> (r: u32)
        ensures
            r == self.mask(),
    {
        1u32 << self.number.get_shift()
    }

    /// The address of the register block of the line's bank.
    pub fn get_bank_addr(&self) -> (r: u32)
        ensures
            r == self.bank(),
    {
        proof {
            use_type_invariant(self);
        }
        self.memory_address + BANK_OFFSET + self.number.get_offset() * BANK_STRIDE
    }

    /// The address of the line's priority register (ILR).
    pub fn get_ilr_addr(&self) -> (r: u32)
        ensures
            r == ilr_address(self.base(), self.number()),
    {
        proof {
            use_type_invariant(self);
            use_type_invariant(&self.number);
        }
        self.memory_address + ILR_OFFSET + self.number.as_u32() * 4
    }

    /// Whether the line's bit is set in a value read from one of its bank's
    /// registers.
    pub fn is_set_in(&self, value: u32) -> (r: bool)
        ensures
            r == (value & self.mask() != 0),
    {
        value & self.get_bitmask() != 0
    }

    /// Reads the line's bit in the bank's register `reg`. A write-only
    /// register is not read, and its bit reads as clear.
    pub fn reg_read<B: RegisterBus>(&self, bus: &mut B, reg: InterruptRegister) -> (r: bool)
        ensures
            reg.spec_readable() ==> ({
                let v = access_value(final(bus).trace().last());
                &&& final(bus).trace() == old(bus).trace().push(
                    self.bank_read(reg.spec_offset(), v),
                )
                &&& r == (v & self.mask() != 0)
            }),
            !reg.spec_readable() ==> final(bus).trace() == old(bus).trace() && !r,
    {
        if !reg.readable() {
            return false;
        }
        proof {
            use_type_invariant(self);
            use_type_invariant(&self.number);
        }
        let val = bus.read32(self.get_bank_addr() + reg.offset());
        self.is_set_in(val)
    }

    /// Sets the line's bit in the bank's register `reg` to `val`.
    ///
    /// The mask register is updated by reading it and writing it back with
    /// only the line's bit changed. Each set or clear register takes the
    /// line's mask when `val` is true; a write of false to one of them, and
    /// any write to a read-only register, does nothing.
    pub fn reg_write<B: RegisterBus>(&self, bus: &mut B, reg: InterruptRegister, val: bool)
        ensures
            reg == InterruptRegister::Mask ==> ({
                let v = access_value(final(bus).trace()[old(bus).trace().len() as int]);
                let bitset: u32 = if val {
                    self.mask()
                } else {
                    0
                };
                final(bus).trace() == old(bus).trace().push(self.bank_read(MIR, v)).push(
                    Access::Write {
                        addr: (self.bank() + MIR) as u32,
                        value: (v & !self.mask()) | bitset,
                    },
                )
            }),
            (reg == InterruptRegister::MaskClear || reg == InterruptRegister::MaskSet || reg
                == InterruptRegister::SoftwareSet || reg == InterruptRegister::SoftwareClear)
                ==> final(bus).trace() == if val {
                old(bus).trace().push(self.mask_write(reg.spec_offset()))
            } else {
                old(bus).trace()
            },
            (reg == InterruptRegister::Status || reg == InterruptRegister::PendingIRQ || reg
                == InterruptRegister::PendingFIQ) ==> final(bus).trace() == old(bus).trace(),
    {
        proof {
            use_type_invariant(self);
            use_type_invariant(&self.number);
        }
        let bitmask = self.get_bitmask();
        let bank = self.get_bank_addr();
        match reg {
            InterruptRegister::Mask => {
                let bitset: u32 = if val {
                    bitmask
                } else {
                    0
                };
                let current_mask = bus.read32(bank + MIR);
                let new_mask = (current_mask & !bitmask) | bitset;
                bus.write32(bank + MIR, new_mask);
            },
            InterruptRegister::MaskClear => {
                if val {
                    bus.write32(bank + MIR_CLEAR, bitmask);
                }
            },
            InterruptRegister::MaskSet => {
                if val {
                    bus.write32(bank + MIR_SET, bitmask);
                }
            },
            InterruptRegister::SoftwareSet => {
                if val {
                    bus.write32(bank + ISR_SET, bitmask);
                }
            },
            InterruptRegister::SoftwareClear => {
                if val {
                    bus.write32(bank + ISR_CLEAR, bitmask);
                }
            },
            _ => {},
        }
    }

    /// Reads the line's bit in the bank's raw status register (ITR).
    pub fn get_itr<B: RegisterBus>(&self, bus: &mut B) -> (r: bool)
        ensures
            ({
                let v = access_value(final(bus).trace().last());
                &&& final(bus).trace() == old(bus).trace().push(self.bank_read(ITR, v))
                &&& r == (v & self.mask() != 0)
            }),
    {
        self.reg_read(bus, InterruptRegister::Status)
    }

    /// Unmasks the line, by writing its mask to the bank's mask-clear register.
    pub fn enable<B: RegisterBus>(&self, bus: &mut B)
        ensures
            final(bus).trace() == old(bus).trace().push(self.mask_write(MIR_CLEAR)),
    {
        proof {
            use_type_invariant(self);
            use_type_invariant(&self.number);
        }
        bus.write32(self.get_bank_addr() + MIR_CLEAR, self.get_bitmask());
    }

    /// Masks the line, by writing its mask to the bank's mask-set register.
    pub fn disable<B: RegisterBus>(&self, bus: &mut B)
        ensures
            final(bus).trace() == old(bus).trace().push(self.mask_write(MIR_SET)),
    {
        proof {
            use_type_invariant(self);
            use_type_invariant(&self.number);
        }
        bus.write32(self.get_bank_addr() + MIR_SET, self.get_bitmask());
    }

    /// Whether the line has an IRQ pending, from the bank's pending-IRQ register.
    pub fn pending<B: RegisterBus>(&self, bus: &mut B) -> (r: bool)
        ensures
            ({
                let v = access_value(final(bus).trace().last());
                &&& final(bus).trace() == old(bus).trace().push(self.bank_read(PENDING_IRQ, v))
                &&& r == (v & self.mask() != 0)
            }),
    {
        self.reg_read(bus, InterruptRegister::PendingIRQ)
    }

    /// Raises the line by software, for diagnostics.
    pub fn debug_set_software_irq<B: RegisterBus>(&self, bus: &mut B)
        ensures
            final(bus).trace() == old(bus).trace().push(self.mask_write(ISR_SET)),
    {
        proof {
            use_type_invariant(self);
            use_type_invariant(&self.number);
        }
        bus.write32(self.get_bank_addr() + ISR_SET, self.get_bitmask());
    }

    /// Withdraws a software-raised interrupt on the line.
    pub fn debug_clear_software_irq<B: RegisterBus>(&self, bus: &mut B)
        ensures
            final(bus).trace() == old(bus).trace().push(self.mask_write(ISR_CLEAR)),
    {
        proof {
            use_type_invariant(self);
            use_type_invariant(&self.number);
        }
        bus.write32(self.get_bank_addr() + ISR_CLEAR, self.get_bitmask());
    }
}

/// Masking a line twice in a row leaves its bank's mask register as masking
/// it once does, whatever the register held and whatever was done before.
pub proof fn lemma_disable_idempotent(line: &InterruptLine, m: u32, t: Seq<Access>)
    ensures
        mask_after(m, t.push(line.mask_write(MIR_SET)).push(line.mask_write(MIR_SET)), line.bank())
            == mask_after(m, t.push(line.mask_write(MIR_SET)), line.bank()),
{
    let w = line.mask_write(MIR_SET);
    let once = t.push(w);
    let twice = once.push(w);
    assert(twice.drop_last() =~= once);
    assert(once.drop_last() =~= t);
    let prior = mask_after(m, t, line.bank());
    let b = line.mask();
    assert((prior | b) | b == prior | b) by (bit_vector);
    assert((prior & !b) & !b == prior & !b) by (bit_vector);
}

/// The interrupt controller.
#[derive(Debug)]
pub struct InterruptController {
    memory_address: u32,
}

impl InterruptController {
    #[verifier::type_invariant]
    spec fn inv(&self) -> bool {
        self.memory_address <= MAX_INTC_BASE
    }

    /// The base address of the controller's registers.
    pub closed spec fn base(&self) -> u32 {
        self.memory_address
    }

    /// A read of the controller's register at `offset` that returned `value`.
    pub open spec fn ctrl_read(&self, offset: u32, value: u32) -> Access {
        Access::Read { addr: (self.base() + offset) as u32, value }
    }

    /// A write of `value` to the controller's register at `offset`.
    pub open spec fn ctrl_write(&self, offset: u32, value: u32) -> Access {
        Access::Write { addr: (self.base() + offset) as u32, value }
    }

    /// The controller whose registers start at `memory_address`.
    pub fn new(memory_address: u32) -> (r: InterruptController)
        requires
            memory_address <= MAX_INTC_BASE,
        ensures
            r.base() == memory_address,
    {
        InterruptController { memory_address }
    }

    /// The base address of the registers; the whole register block lies
    /// inside the 32-bit address space.
    pub fn get_base(&self) -> (r: u32)
        ensures
            r == self.base(),
            r <= MAX_INTC_BASE,
    {
        proof {
            use_type_invariant(self);
        }
        self.memory_address
    }

    /// Reads the raw status registers (ITR) of the four banks, in order.
    pub fn raw_status<B: RegisterBus>(&self, bus: &mut B) -> (r: (u32, u32, u32, u32))
        ensures
            final(bus).trace() == old(bus).trace().push(self.ctrl_read(0x80, r.0)).push(
                self.ctrl_read(0xa0, r.1),
            ).push(self.ctrl_read(0xc0, r.2)).push(self.ctrl_read(0xe0, r.3)),
    {
        proof {
            use_type_invariant(self);
        }
        let itr0 = bus.read32(self.memory_address + 0x80);
        let itr1 = bus.read32(self.memory_address + 0xa0);
        let itr2 = bus.read32(self.memory_address + 0xc0);
        let itr3 = bus.read32(self.memory_address + 0xe0);
        (itr0, itr1, itr2, itr3)
    }

    /// The handle of line `number`; no register is touched.
    pub fn new_interrupt_line(&self, number: InterruptNumber) -> (r: InterruptLine)
        ensures
            r.number() == number@,
            r.base() == self.base(),
    {
        proof {
            use_type_invariant(self);
        }
        InterruptLine::new(number, self.memory_address)
    }

    /// The number of the active IRQ, as the masking constructor makes it
    /// of the value read.
    pub fn get_active_irq<B: RegisterBus>(&self, bus: &mut B) -> (r: InterruptNumber)
        ensures
            ({
                let v = access_value(final(bus).trace().last());
                &&& final(bus).trace() == old(bus).trace().push(self.ctrl_read(SIR_IRQ, v))
                &&& r@ == masked_number(v)
            }),
    {
        proof {
            use_type_invariant(self);
        }
        let active_irq = bus.read32(self.memory_address + SIR_IRQ);
        InterruptNumber::from_u32(active_irq)
    }

    /// The number of the active FIQ, as the masking constructor makes it
    /// of the value read.
    pub fn get_active_fiq<B: RegisterBus>(&self, bus: &mut B) -> (r: InterruptNumber)
        ensures
            ({
                let v = access_value(final(bus).trace().last());
                &&& final(bus).trace() == old(bus).trace().push(self.ctrl_read(SIR_FIQ, v))
                &&& r@ == masked_number(v)
            }),
    {
        proof {
            use_type_invariant(self);
        }
        let active_fiq = bus.read32(self.memory_address + SIR_FIQ);
        InterruptNumber::from_u32(active_fiq)
    }

    /// Starts a software reset of the controller.
    pub fn reset<B: RegisterBus>(&self, bus: &mut B)
        ensures
            final(bus).trace() == old(bus).trace().push(
                self.ctrl_write(SYSCONFIG, SYSCONFIG_SOFT_RESET),
            ),
    {
        proof {
            use_type_invariant(self);
        }
        bus.write32(self.memory_address + SYSCONFIG, SYSCONFIG_SOFT_RESET);
    }

    /// Lets the controller's interface clock idle by itself.
    pub fn autoidle<B: RegisterBus>(&self, bus: &mut B)
        ensures
            final(bus).trace() == old(bus).trace().push(
                self.ctrl_write(SYSCONFIG, SYSCONFIG_AUTOIDLE),
            ),
    {
        proof {
            use_type_invariant(self);
        }
        bus.write32(self.memory_address + SYSCONFIG, SYSCONFIG_AUTOIDLE);
    }

    /// Acknowledges the active IRQ, so that a new one can be generated.
    pub fn generate_new_irq<B: RegisterBus>(&self, bus: &mut B)
        ensures
            final(bus).trace() == old(bus).trace().push(self.ctrl_write(CONTROL, CONTROL_NEW_IRQ)),
    {
        proof {
            use_type_invariant(self);
        }
        bus.write32(self.memory_address + CONTROL, CONTROL_NEW_IRQ);
    }

    /// Acknowledges the active FIQ, so that a new one can be generated.
    pub fn generate_new_fiq<B: RegisterBus>(&self, bus: &mut B)
        ensures
            final(bus).trace() == old(bus).trace().push(self.ctrl_write(CONTROL, CONTROL_NEW_FIQ)),
    {
        proof {
            use_type_invariant(self);
        }
        bus.write32(self.memory_address + CONTROL, CONTROL_NEW_FIQ);
    }
}

} // verus!
