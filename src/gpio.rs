//! The GPIO banks: 32 pins each, handed out one owner per pin.
//!
//! A [`Gpio`] keeps a mask of the pins it has handed out. A [`Pin`] is the
//! capability to drive one of them; its direction is a type parameter.
use vstd::prelude::*;

use core::marker::PhantomData;

use crate::bus::{access_value, Access, RegisterBus};

verus! {

/// Highest pin number within a bank.
pub const MAX_PIN: u8 = 31;

/// Highest base address at which a bank's register block fits in the
/// 32-bit address space.
pub const MAX_GPIO_BASE: u32 = 0xFFFF_FE68;

/// Offset of the output-enable register: a set bit makes its pin an input.
pub const OE: u32 = 0x134;

/// Offset of the register that holds the pins' sampled input levels.
pub const DATAIN: u32 = 0x138;

/// Offset of the register that holds the pins' requested output levels.
pub const DATAOUT: u32 = 0x13C;

/// Offset of the register whose written bits clear the same bits of DATAOUT.
pub const CLEARDATAOUT: u32 = 0x190;

/// Offset of the register whose written bits set the same bits of DATAOUT.
pub const SETDATAOUT: u32 = 0x194;

/// The mask that selects pin `n`'s bit in a bank's registers.
pub open spec fn pin_mask(n: nat) -> u32 {
    1u32 << (n as u32)
}

/// Whether pin `n` is marked in the ownership mask `owned`.
pub open spec fn mask_owns(owned: u32, n: nat) -> bool {
    owned & pin_mask(n) != 0
}

/// The direction of a pin that drives its line.
#[derive(Debug)]
pub struct Output;

/// The direction of a pin that samples its line.
#[derive(Debug)]
pub struct Input;

/// The capability to use one pin of a bank, in direction `T`.
pub struct Pin<T> {
    number: u8,
    memory_address: u32,
    gpio_type: PhantomData<T>,
}

impl<T> Pin<T> {
    #[verifier::type_invariant]
    spec fn inv(&self) -> bool {
        self.number <= MAX_PIN && self.memory_address <= MAX_GPIO_BASE
    }

    /// The pin's number within its bank.
    pub closed spec fn number(&self) -> nat {
        self.number as nat
    }

    /// The base address of the pin's bank.
    pub closed spec fn bank(&self) -> u32 {
        self.memory_address
    }

    /// The mask that selects the pin's bit.
    pub open spec fn mask(&self) -> u32 {
        pin_mask(self.number())
    }

    /// A read of the bank's register at `offset` that returned `value`.
    pub open spec fn read_at(&self, offset: u32, value: u32) -> Access {
        Access::Read { addr: (self.bank() + offset) as u32, value }
    }

    /// A write of `value` to the bank's register at `offset`.
    pub open spec fn write_at(&self, offset: u32, value: u32) -> Access {
        Access::Write { addr: (self.bank() + offset) as u32, value }
    }

    fn new(number: u8, memory_address: u32) -> (r: Self)
        requires
            number <= MAX_PIN,
            memory_address <= MAX_GPIO_BASE,
        ensures
            r.number() == number,
            r.bank() == memory_address,
    {
        Pin { number, memory_address, gpio_type: PhantomData }
    }

    /// The pin's number within its bank.
    pub fn get_number(&self) -> (r: u8)
        ensures
            r == self.number(),
            r <= MAX_PIN,
    {
        proof {
            use_type_invariant(self);
        }
        self.number
    }

    /// The base address of the pin's bank.
    pub fn get_bank(&self) -> (r: u32)
        ensures
            r == self.bank(),
            r <= MAX_GPIO_BASE,
    {
        proof {
            use_type_invariant(self);
        }
        self.memory_address
    }

    fn bitmask(&self) -> (r: u32)
        ensures
            r == self.mask(),
    {
        proof {
            use_type_invariant(self);
        }
        1u32 << (self.number as u32)
    }

    fn register(&self, offset: u32) -> (r: u32)
        requires
            offset <= SETDATAOUT,
        ensures
            r == self.bank() + offset,
    {
        proof {
            use_type_invariant(self);
        }
        self.memory_address + offset
    }
}

impl Pin<Output> {
    /// Makes the pin an input, in the bank `gpio` that owns it; the pin stays
    /// owned throughout. A pin of another bank, or one that `gpio` does not
    /// own, is handed back untouched.
    pub fn to_input<B: RegisterBus>(self, bus: &mut B, gpio: &Gpio) -> (r: Result<
        Pin<Input>,
        Pin<Output>,
    >)
        ensures
            match r {
                Ok(p) => {
                    &&& self.bank() == gpio.base() && gpio.owns(self.number())
                    &&& p.number() == self.number() && p.bank() == self.bank()
                    &&& ({
                        let v = access_value(final(bus).trace()[old(bus).trace().len() as int]);
                        final(bus).trace() == old(bus).trace().push(self.read_at(OE, v)).push(
                            self.write_at(OE, v | self.mask()),
                        )
                    })
                },
                Err(p) => {
                    &&& !(self.bank() == gpio.base() && gpio.owns(self.number()))
                    &&& p == self
                    &&& final(bus).trace() == old(bus).trace()
                },
            },
    {
        proof {
            use_type_invariant(&self);
        }
        if self.memory_address != gpio.memory_address || gpio.owned & self.bitmask() == 0 {
            return Err(self);
        }
        let oe = self.register(OE);
        let bitset = bus.read32(oe);
        bus.write32(oe, bitset | self.bitmask());
        Ok(Pin::new(self.number, self.memory_address))
    }

    /// Whether the pin is driven high, from the data-out register: the level
    /// requested, not necessarily the line's electrical level.
    pub fn read<B: RegisterBus>(&self, bus: &mut B) -> (r: bool)
        ensures
            ({
                let v = access_value(final(bus).trace().last());
                &&& final(bus).trace() == old(bus).trace().push(self.read_at(DATAOUT, v))
                &&& r == (v & self.mask() != 0)
            }),
    {
        let v = bus.read32(self.register(DATAOUT));
        v & self.bitmask() != 0
    }

    /// Drives the pin high, by writing its mask to the set-data-out register.
    pub fn set<B: RegisterBus>(&self, bus: &mut B)
        ensures
            final(bus).trace() == old(bus).trace().push(self.write_at(SETDATAOUT, self.mask())),
    {
        bus.write32(self.register(SETDATAOUT), self.bitmask());
    }

    /// Drives the pin low, by writing its mask to the clear-data-out register.
    pub fn clear<B: RegisterBus>(&self, bus: &mut B)
        ensures
            final(bus).trace() == old(bus).trace().push(self.write_at(CLEARDATAOUT, self.mask())),
    {
        bus.write32(self.register(CLEARDATAOUT), self.bitmask());
    }

    /// Flips the pin's level, by reading the data-out register and writing it
    /// back with the pin's bit inverted. The hardware has no toggle register,
    /// so another writer of the bank between the two accesses is overwritten.
    pub fn switch<B: RegisterBus>(&self, bus: &mut B)
        ensures
            ({
                let v = access_value(final(bus).trace()[old(bus).trace().len() as int]);
                final(bus).trace() == old(bus).trace().push(self.read_at(DATAOUT, v)).push(
                    self.write_at(DATAOUT, v ^ self.mask()),
                )
            }),
    {
        let dataout = self.register(DATAOUT);
        let bits = bus.read32(dataout) ^ self.bitmask();
        bus.write32(dataout, bits);
    }
}

impl Pin<Input> {
    /// Makes the pin an output, in the bank `gpio` that owns it; the pin
    /// stays owned throughout. A pin of another bank, or one that `gpio` does
    /// not own, is handed back untouched.
    pub fn to_output<B: RegisterBus>(self, bus: &mut B, gpio: &Gpio) -> (r: Result<
        Pin<Output>,
        Pin<Input>,
    >)
        ensures
            match r {
                Ok(p) => {
                    &&& self.bank() == gpio.base() && gpio.owns(self.number())
                    &&& p.number() == self.number() && p.bank() == self.bank()
                    &&& ({
                        let v = access_value(final(bus).trace()[old(bus).trace().len() as int]);
                        final(bus).trace() == old(bus).trace().push(self.read_at(OE, v)).push(
                            self.write_at(OE, v & !self.mask()),
                        )
                    })
                },
                Err(p) => {
                    &&& !(self.bank() == gpio.base() && gpio.owns(self.number()))
                    &&& p == self
                    &&& final(bus).trace() == old(bus).trace()
                },
            },
    {
        proof {
            use_type_invariant(&self);
        }
        if self.memory_address != gpio.memory_address || gpio.owned & self.bitmask() == 0 {
            return Err(self);
        }
        let oe = self.register(OE);
        let bitset = bus.read32(oe);
        bus.write32(oe, bitset & !self.bitmask());
        Ok(Pin::new(self.number, self.memory_address))
    }
}

/// A GPIO bank and the mask of its pins that have been handed out.
pub struct Gpio {
    memory_address: u32,
    owned: u32,
}

impl Gpio {
    #[verifier::type_invariant]
    spec fn inv(&self) -> bool {
        self.memory_address <= MAX_GPIO_BASE
    }

    /// The base address of the bank's registers.
    pub closed spec fn base(&self) -> u32 {
        self.memory_address
    }

    /// The ownership mask: bit `n` is set while pin `n` is handed out.
    pub closed spec fn owned(&self) -> u32 {
        self.owned
    }

    /// Whether pin `n` is handed out.
    pub open spec fn owns(&self, n: nat) -> bool {
        mask_owns(self.owned(), n)
    }

    /// A read of the bank's register at `offset` that returned `value`.
    pub open spec fn read_at(&self, offset: u32, value: u32) -> Access {
        Access::Read { addr: (self.base() + offset) as u32, value }
    }

    /// A write of `value` to the bank's register at `offset`.
    pub open spec fn write_at(&self, offset: u32, value: u32) -> Access {
        Access::Write { addr: (self.base() + offset) as u32, value }
    }

    /// The bank whose registers start at `memory_addr`, with no pin handed out.
    pub fn new(memory_addr: u32) -> (r: Gpio)
        requires
            memory_addr <= MAX_GPIO_BASE,
        ensures
            r.base() == memory_addr,
            r.owned() == 0,
    {
        Gpio { memory_address: memory_addr, owned: 0 }
    }

    /// The base address of the registers; the whole register block lies
    /// inside the 32-bit address space.
    pub fn get_base(&self) -> (r: u32)
        ensures
            r == self.base(),
            r <= MAX_GPIO_BASE,
    {
        proof {
            use_type_invariant(self);
        }
        self.memory_address
    }

    /// The ownership mask: bit `n` is set while pin `n` is handed out.
    pub fn get_owned(&self) -> (r: u32)
        ensures
            r == self.owned(),
    {
        self.owned
    }

    /// Hands out pin `number` as an input: refused if the bank has no such
    /// pin or it is already handed out. On success the pin is marked owned
    /// and its bit is set in the output-enable register.
    pub fn get_pin_as_input<B: RegisterBus>(&mut self, bus: &mut B, number: u8) -> (r: Option<
        Pin<Input>,
    >)
        ensures
            final(self).base() == old(self).base(),
            match r {
                Some(p) => {
                    &&& number <= MAX_PIN && !old(self).owns(number as nat)
                    &&& p.number() == number && p.bank() == old(self).base()
                    &&& final(self).owned() == old(self).owned() | pin_mask(number as nat)
                    &&& ({
                        let v = access_value(final(bus).trace()[old(bus).trace().len() as int]);
                        final(bus).trace() == old(bus).trace().push(old(self).read_at(OE, v)).push(
                            old(self).write_at(OE, v | pin_mask(number as nat)),
                        )
                    })
                },
                None => {
                    &&& number > MAX_PIN || old(self).owns(number as nat)
                    &&& final(self).owned() == old(self).owned()
                    &&& final(bus).trace() == old(bus).trace()
                },
            },
    {
        proof {
            use_type_invariant(&*self);
        }
        if number > MAX_PIN {
            return None;
        }
        let bit = 1u32 << (number as u32);
        if self.owned & bit != 0 {
            return None;
        }
        self.owned = self.owned | bit;
        let oe = self.memory_address + OE;
        let bitset = bus.read32(oe);
        bus.write32(oe, bitset | bit);
        Some(Pin::new(number, self.memory_address))
    }

    /// Hands out pin `number` as an output: refused if the bank has no such
    /// pin or it is already handed out. On success the pin is marked owned
    /// and its bit is cleared in the output-enable register.
    pub fn get_pin_as_output<B: RegisterBus>(&mut self, bus: &mut B, number: u8) -> (r: Option<
        Pin<Output>,
    >)
        ensures
            final(self).base() == old(self).base(),
            match r {
                Some(p) => {
                    &&& number <= MAX_PIN && !old(self).owns(number as nat)
                    &&& p.number() == number && p.bank() == old(self).base()
                    &&& final(self).owned() == old(self).owned() | pin_mask(number as nat)
                    &&& ({
                        let v = access_value(final(bus).trace()[old(bus).trace().len() as int]);
                        final(bus).trace() == old(bus).trace().push(old(self).read_at(OE, v)).push(
                            old(self).write_at(OE, v & !pin_mask(number as nat)),
                        )
                    })
                },
                None => {
                    &&& number > MAX_PIN || old(self).owns(number as nat)
                    &&& final(self).owned() == old(self).owned()
                    &&& final(bus).trace() == old(bus).trace()
                },
            },
    {
        proof {
            use_type_invariant(&*self);
        }
        if number > MAX_PIN {
            return None;
        }
        let bit = 1u32 << (number as u32);
        if self.owned & bit != 0 {
            return None;
        }
        self.owned = self.owned | bit;
        let oe = self.memory_address + OE;
        let bitset = bus.read32(oe);
        bus.write32(oe, bitset & !bit);
        Some(Pin::new(number, self.memory_address))
    }

    /// Takes back a pin handed out by this bank, so that it can be handed out
    /// again. A pin of another bank is handed back untouched.
    pub fn release<T>(&mut self, pin: Pin<T>) -> (r: Result<(), Pin<T>>)
        ensures
            final(self).base() == old(self).base(),
            match r {
                Ok(()) => {
                    &&& pin.bank() == old(self).base()
                    &&& final(self).owned() == old(self).owned() & !pin.mask()
                },
                Err(p) => {
                    &&& pin.bank() != old(self).base()
                    &&& p == pin
                    &&& final(self).owned() == old(self).owned()
                },
            },
    {
        proof {
            use_type_invariant(&*self);
        }
        if pin.memory_address != self.memory_address {
            return Err(pin);
        }
        self.owned = self.owned & !pin.bitmask();
        Ok(())
    }
}

/// Handing out pin `n` marks it owned and leaves every other pin's
/// ownership as it was: so a pin that is handed out is refused to every
/// later request until it is released.
pub proof fn lemma_claim_marks_owned(owned: u32, n: nat, i: nat)
    requires
        n <= 31,
        i <= 31,
    ensures
        mask_owns(owned | pin_mask(n), i) == (i == n || mask_owns(owned, i)),
{
    let nn = n as u32;
    let ii = i as u32;
    assert(((owned | (1u32 << nn)) & (1u32 << ii) != 0) == (ii == nn || owned & (1u32 << ii) != 0))
        by (bit_vector)
        requires
            nn <= 31,
            ii <= 31,
    ;
}

/// Releasing pin `n` frees it and leaves every other pin's ownership as it
/// was.
pub proof fn lemma_release_frees(owned: u32, n: nat, i: nat)
    requires
        n <= 31,
        i <= 31,
    ensures
        mask_owns(owned & !pin_mask(n), i) == (i != n && mask_owns(owned, i)),
{
    let nn = n as u32;
    let ii = i as u32;
    assert(((owned & !(1u32 << nn)) & (1u32 << ii) != 0) == (ii != nn && owned & (1u32 << ii)
        != 0)) by (bit_vector)
        requires
            nn <= 31,
            ii <= 31,
    ;
}

} // verus!
