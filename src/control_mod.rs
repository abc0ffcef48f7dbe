//! The pad configuration registers of the control module.
use vstd::prelude::*;

use crate::bus::{Access, RegisterBus};

verus! {

/// Number of pad configuration registers.
pub const CONF_NUM: usize = 141;

/// Offset of the first pad configuration register from the module's base.
pub const CONF_OFFSET: u32 = 0x800;

/// Highest base address at which the module's pad configuration registers
/// fit in the 32-bit address space.
pub const MAX_CONTROL_BASE: u32 = 0xFFFF_F5CC;

/// The control module's pad configuration registers.
pub struct Control {
    memory_address: u32,
}

impl Control {
    #[verifier::type_invariant]
    spec fn inv(&self) -> bool {
        self.memory_address <= MAX_CONTROL_BASE
    }

    /// The base address of the control module.
    pub closed spec fn base(&self) -> u32 {
        self.memory_address
    }

    /// The address of pad configuration register `index`.
    pub open spec fn conf_address(&self, index: int) -> u32 {
        (self.base() + CONF_OFFSET + 4 * index) as u32
    }

    /// The control module whose registers start at `memory_addr`.
    pub fn new(memory_addr: u32) -> (r: Control)
        requires
            memory_addr <= MAX_CONTROL_BASE,
        ensures
            r.base() == memory_addr,
    {
        Control { memory_address: memory_addr }
    }

    /// The base address of the registers; the whole register block lies
    /// inside the 32-bit address space.
    pub fn get_base(&self) -> (r: u32)
        ensures
            r == self.base(),
            r <= MAX_CONTROL_BASE,
    {
        proof {
            use_type_invariant(self);
        }
        self.memory_address
    }

    /// Writes `value` to pad configuration register `index`; an index past
    /// the last register is refused without any access.
    pub fn set<B: RegisterBus>(&self, bus: &mut B, index: usize, value: u32)
        ensures
            index < CONF_NUM ==> final(bus).trace() == old(bus).trace().push(
                Access::Write { addr: self.conf_address(index as int), value },
            ),
            index >= CONF_NUM ==> final(bus).trace() == old(bus).trace(),
    {
        proof {
            use_type_invariant(self);
        }
        if index >= CONF_NUM {
            return;
        }
        bus.write32(self.memory_address + CONF_OFFSET + 4 * (index as u32), value);
    }

    /// Reads pad configuration register `index`; `None`, without any access,
    /// for an index past the last register.
    pub fn get<B: RegisterBus>(&self, bus: &mut B, index: usize) -> (r: Option<u32>)
        ensures
            match r {
                Some(v) => index < CONF_NUM && final(bus).trace() == old(bus).trace().push(
                    Access::Read { addr: self.conf_address(index as int), value: v },
                ),
                None => index >= CONF_NUM && final(bus).trace() == old(bus).trace(),
            },
    {
        proof {
            use_type_invariant(self);
        }
        if index >= CONF_NUM {
            return None;
        }
        Some(bus.read32(self.memory_address + CONF_OFFSET + 4 * (index as u32)))
    }
}

} // verus!
