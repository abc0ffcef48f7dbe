//! Access to memory-mapped 32-bit registers.
//!
//! Every driver in this crate talks to hardware through a [`RegisterBus`].
//! Its model is the trace of accesses issued so far, in program order: a
//! volatile access is never merged, dropped or reordered, so the trace is
//! exactly what the peripheral observes. A read may return anything (the
//! hardware decides); the trace records what came back.
use vstd::prelude::*;

verus! {

/// One 32-bit register access at an absolute address.
#[derive(Clone, Copy, Debug, PartialEq, Eq, Structural)]
pub enum Access {
    Read { addr: u32, value: u32 },
    Write { addr: u32, value: u32 },
}

/// A path to memory-mapped registers.
pub trait RegisterBus {
    /// Every access issued on this bus so far, oldest first.
    ///
    /// This is ghost state. A verified implementation defines it; one
    /// written outside verified code (a hardware bus) keeps this default,
    /// and the drivers' contracts then describe the accesses it is asked to
    /// make, in order.
    closed spec fn trace(&self) -> Seq<Access> {
        Seq::empty()
    }

    /// Reads the 32-bit register at `addr`.
    fn read32(&mut self, addr: u32) -> (r: u32)
        ensures
            final(self).trace() == old(self).trace().push(Access::Read { addr, value: r }),
    ;

    /// Writes `value` to the 32-bit register at `addr`.
    fn write32(&mut self, addr: u32, value: u32)
        ensures
            final(self).trace() == old(self).trace().push(Access::Write { addr, value }),
    ;
}

/// The value of an access: what was read or written.
pub open spec fn access_value(a: Access) -> u32 {
    match a {
        Access::Read { value, .. } => value,
        Access::Write { value, .. } => value,
    }
}

/// A write of `value` to the register at `offset` of the block at `base`.
pub open spec fn reg_write(base: u32, offset: u32, value: u32) -> Access {
    Access::Write { addr: (base + offset) as u32, value }
}

/// A read of the register at `offset` of the block at `base` that returned `value`.
pub open spec fn reg_read(base: u32, offset: u32, value: u32) -> Access {
    Access::Read { addr: (base + offset) as u32, value }
}

/// `t` is `t0` followed by further accesses.
pub open spec fn extends(t: Seq<Access>, t0: Seq<Access>) -> bool {
    t0.len() <= t.len() && t.subrange(0, t0.len() as int) == t0
}

/// A trace that extends one that extends `a` extends `a`.
pub proof fn lemma_extends_trans(a: Seq<Access>, b: Seq<Access>, c: Seq<Access>)
    requires
        extends(b, a),
        extends(c, b),
    ensures
        extends(c, a),
{
    assert(c.subrange(0, a.len() as int) =~= c.subrange(0, b.len() as int).subrange(0, a.len() as int));
}

/// A trace extends itself with one access appended.
pub proof fn lemma_extends_push(a: Seq<Access>, x: Access)
    ensures
        extends(a.push(x), a),
{
    assert(a.push(x).subrange(0, a.len() as int) =~= a);
}

/// Whether `a` is a read of the register at `addr`.
pub open spec fn is_read_of(a: Access, addr: u32) -> bool {
    match a {
        Access::Read { addr: x, .. } => x == addr,
        Access::Write { .. } => false,
    }
}

/// The values written to `addr` in `t`, oldest first.
pub open spec fn writes_to(t: Seq<Access>, addr: u32) -> Seq<u32>
    decreases t.len(),
{
    if t.len() == 0 {
        Seq::empty()
    } else {
        let rest = writes_to(t.drop_last(), addr);
        match t.last() {
            Access::Write { addr: a, value } => if a == addr {
                rest.push(value)
            } else {
                rest
            },
            Access::Read { .. } => rest,
        }
    }
}

/// The value a plain memory cell at `addr` holds after the accesses `t`,
/// when it held `init` before them: the last value written, if any.
pub open spec fn value_after(init: u32, t: Seq<Access>, addr: u32) -> u32 {
    let w = writes_to(t, addr);
    if w.len() == 0 {
        init
    } else {
        w.last()
    }
}

/// Appending one access to a trace appends its value to the writes of its
/// address, and nothing to the writes of any other.
pub proof fn lemma_writes_to_push(t: Seq<Access>, x: Access, addr: u32)
    ensures
        writes_to(t.push(x), addr) == match x {
            Access::Write { addr: a, value } => if a == addr {
                writes_to(t, addr).push(value)
            } else {
                writes_to(t, addr)
            },
            Access::Read { .. } => writes_to(t, addr),
        },
{
    assert(t.push(x).drop_last() =~= t);
}

/// The writes to an address in two traces, one after the other, are its
/// writes in the first followed by those in the second.
pub proof fn lemma_writes_to_append(t: Seq<Access>, u: Seq<Access>, addr: u32)
    ensures
        writes_to(t + u, addr) == writes_to(t, addr) + writes_to(u, addr),
    decreases u.len(),
{
    if u.len() == 0 {
        assert(t + u =~= t);
        assert(writes_to(t, addr) + writes_to(u, addr) =~= writes_to(t, addr));
    } else {
        let v = u.drop_last();
        let x = u.last();
        assert(u =~= v.push(x));
        assert(t + u =~= (t + v).push(x));
        lemma_writes_to_append(t, v, addr);
        lemma_writes_to_push(t + v, x, addr);
        lemma_writes_to_push(v, x, addr);
        match x {
            Access::Write { addr: a, value } => {
                if a == addr {
                    assert(writes_to(t, addr) + writes_to(v, addr).push(value) =~= (
                    writes_to(t, addr) + writes_to(v, addr)).push(value));
                }
            },
            Access::Read { .. } => {},
        }
    }
}

/// A bounded wait ran out of polls before the hardware was ready.
#[derive(Clone, Copy, Debug, PartialEq, Eq, Structural)]
pub struct WaitTimeout;

/// Whether the bits `mask` of `v` are in the state `want` (some set, or all
/// clear).
pub open spec fn reached(v: u32, mask: u32, want: bool) -> bool {
    (v & mask != 0) == want
}

/// `t` is `t0` followed by reads of `addr` only, of which every one but the
/// last found the bits `mask` not yet in the state `want`.
pub open spec fn polled(t0: Seq<Access>, t: Seq<Access>, addr: u32, mask: u32, want: bool) -> bool {
    &&& t0.len() <= t.len()
    &&& t.subrange(0, t0.len() as int) == t0
    &&& forall|i: int|
        t0.len() <= i < t.len() ==> is_read_of(#[trigger] t[i], addr)
    &&& forall|i: int|
        t0.len() <= i < t.len() - 1 ==> !reached(access_value(#[trigger] t[i]), mask, want)
}

/// `t` is what a wait of at most `max_polls` reads of `addr`, for the bits
/// `mask` to be in the state `want`, adds to `t0`: it succeeded (`ok`) on
/// the first read that found them so, or failed after `max_polls` reads that
/// did not.
pub open spec fn waited(
    t0: Seq<Access>,
    t: Seq<Access>,
    addr: u32,
    mask: u32,
    want: bool,
    max_polls: u32,
    ok: bool,
) -> bool {
    &&& polled(t0, t, addr, mask, want)
    &&& if ok {
        t.len() > t0.len() && t.len() - t0.len() <= max_polls && reached(
            access_value(t.last()),
            mask,
            want,
        )
    } else {
        &&& t.len() - t0.len() == max_polls
        &&& t.len() > t0.len() ==> !reached(access_value(t.last()), mask, want)
    }
}

/// Reads from a poll add no writes to any address.
pub proof fn lemma_polled_writes(t0: Seq<Access>, t: Seq<Access>, addr: u32, mask: u32, want: bool, a: u32)
    requires
        polled(t0, t, addr, mask, want),
    ensures
        writes_to(t, a) == writes_to(t0, a),
    decreases t.len() - t0.len(),
{
    if t.len() == t0.len() {
        assert(t =~= t0);
    } else {
        let u = t.drop_last();
        assert(u.subrange(0, t0.len() as int) =~= t.subrange(0, t0.len() as int));
        assert forall|i: int| t0.len() <= i < u.len() implies is_read_of(#[trigger] u[i], addr) by {
            assert(u[i] == t[i]);
        }
        assert forall|i: int| t0.len() <= i < u.len() - 1 implies !reached(
            access_value(#[trigger] u[i]),
            mask,
            want,
        ) by {
            assert(u[i] == t[i]);
        }
        lemma_polled_writes(t0, u, addr, mask, want, a);
        assert(t =~= u.push(t.last()));
        assert(is_read_of(t[t.len() - 1], addr));
        lemma_writes_to_push(u, t.last(), a);
    }
}

/// Polls the register at `addr`, at most `max_polls` times, until its bits
/// `mask` are in the state `want`.
pub fn wait_for<B: RegisterBus>(bus: &mut B, addr: u32, mask: u32, want: bool, max_polls: u32) -> (r:
    Result<(), WaitTimeout>)
    ensures
        waited(old(bus).trace(), final(bus).trace(), addr, mask, want, max_polls, r is Ok),
{
    let ghost t0 = bus.trace();
    let mut polls: u32 = 0;
    while polls < max_polls
        invariant
            old(bus).trace() == t0,
            bus.trace().len() == t0.len() + polls,
            polls <= max_polls,
            bus.trace().subrange(0, t0.len() as int) == t0,
            forall|i: int|
                t0.len() <= i < bus.trace().len() ==> is_read_of(#[trigger] bus.trace()[i], addr),
            forall|i: int|
                t0.len() <= i < bus.trace().len() ==> !reached(
                    access_value(#[trigger] bus.trace()[i]),
                    mask,
                    want,
                ),
        decreases max_polls - polls,
    {
        let ghost before = bus.trace();
        let v = bus.read32(addr);
        proof {
            assert(bus.trace().subrange(0, t0.len() as int) =~= before.subrange(
                0,
                t0.len() as int,
            ));
            assert forall|i: int| t0.len() <= i < before.len() implies bus.trace()[i] == before[i] by {}
        }
        if (v & mask != 0) == want {
            proof {
                let t = bus.trace();
                assert(t.last() == (Access::Read { addr, value: v }));
                assert forall|i: int| t0.len() <= i < t.len() implies is_read_of(
                    #[trigger] t[i],
                    addr,
                ) by {
                    if i < before.len() {
                        assert(t[i] == before[i]);
                    } else {
                        assert(t[i] == (Access::Read { addr, value: v }));
                    }
                }
                assert forall|i: int| t0.len() <= i < t.len() - 1 implies !reached(
                    access_value(#[trigger] t[i]),
                    mask,
                    want,
                ) by {
                    assert(t[i] == before[i]);
                }
            }
            return Ok(());
        }
        polls = polls + 1;
    }
    Err(WaitTimeout)
}

/// The last `n` accesses of `t` are reads of `addr` that each found some
/// of the bits `mask` set.
pub open spec fn ends_with_polls_set(t: Seq<Access>, addr: u32, mask: u32, n: u32) -> bool {
    &&& n <= t.len()
    &&& forall|j: int|
        t.len() - n <= j < t.len() ==> is_read_of(#[trigger] t[j], addr) && access_value(t[j]) & mask
            != 0
}

/// A wait for the bits `mask` to clear that ran out ends with `max_polls`
/// reads, each of which found some of them set.
pub proof fn lemma_waited_timeout(t0: Seq<Access>, t: Seq<Access>, addr: u32, mask: u32, max_polls: u32)
    requires
        waited(t0, t, addr, mask, false, max_polls, false),
    ensures
        ends_with_polls_set(t, addr, mask, max_polls),
        t.len() >= t0.len() + max_polls,
{
}

/// Polls that found some of the bits `m1` set found some of any wider set
/// of bits `m2` set.
pub proof fn lemma_polls_set_widen(t: Seq<Access>, addr: u32, m1: u32, m2: u32, n: u32)
    requires
        ends_with_polls_set(t, addr, m1, n),
        m1 & m2 == m1,
    ensures
        ends_with_polls_set(t, addr, m2, n),
{
    assert forall|j: int| t.len() - n <= j < t.len() implies is_read_of(#[trigger] t[j], addr)
        && access_value(t[j]) & m2 != 0 by {
        let v = access_value(t[j]);
        assert(v & m1 != 0 && m1 & m2 == m1 ==> v & m2 != 0) by (bit_vector);
    }
}

/// A register file held in ordinary memory, standing in for hardware.
///
/// Every cell reads as the last value written to it, or as zero if none was.
/// It keeps the trace of accesses so that what a driver did can be inspected.
pub struct RegisterStore {
    log: Vec<Access>,
}

impl RegisterStore {
    /// The value the cell at `addr` holds.
    pub open spec fn cell(&self, addr: u32) -> u32 {
        value_after(0, self.trace(), addr)
    }

    /// An empty register file: no access issued, every cell zero.
    pub fn new() -> (r: RegisterStore)
        ensures
            r.trace() == Seq::<Access>::empty(),
    {
        RegisterStore { log: Vec::new() }
    }

    /// The value the cell at `addr` holds, without issuing an access.
    pub fn peek(&self, addr: u32) -> (r: u32)
        ensures
            r == self.cell(addr),
    {
        let mut r: u32 = 0;
        let mut i: usize = 0;
        while i < self.log.len()
            invariant
                i <= self.log@.len(),
                r == value_after(0, self.log@.subrange(0, i as int), addr),
            decreases self.log@.len() - i,
        {
            proof {
                assert(self.log@.subrange(0, i + 1) =~= self.log@.subrange(0, i as int).push(
                    self.log@[i as int],
                ));
                lemma_writes_to_push(self.log@.subrange(0, i as int), self.log@[i as int], addr);
            }
            match self.log[i] {
                Access::Write { addr: a, value } => {
                    if a == addr {
                        r = value;
                    }
                },
                Access::Read { .. } => {},
            }
            i = i + 1;
        }
        assert(self.log@.subrange(0, self.log@.len() as int) =~= self.log@);
        r
    }

    /// The values written to `addr` so far, oldest first.
    pub fn writes(&self, addr: u32) -> (r: Vec<u32>)
        ensures
            r@ == writes_to(self.trace(), addr),
    {
        let mut r: Vec<u32> = Vec::new();
        let mut i: usize = 0;
        while i < self.log.len()
            invariant
                i <= self.log@.len(),
                r@ == writes_to(self.log@.subrange(0, i as int), addr),
            decreases self.log@.len() - i,
        {
            proof {
                assert(self.log@.subrange(0, i + 1) =~= self.log@.subrange(0, i as int).push(
                    self.log@[i as int],
                ));
                lemma_writes_to_push(self.log@.subrange(0, i as int), self.log@[i as int], addr);
            }
            match self.log[i] {
                Access::Write { addr: a, value } => {
                    if a == addr {
                        r.push(value);
                    }
                },
                Access::Read { .. } => {},
            }
            i = i + 1;
        }
        assert(self.log@.subrange(0, self.log@.len() as int) =~= self.log@);
        r
    }

    /// Every access issued so far, oldest first.
    pub fn accesses(&self) -> (r: Vec<Access>)
        ensures
            r@ == self.trace(),
    {
        self.log.clone()
    }
}

impl RegisterBus for RegisterStore {
    closed spec fn trace(&self) -> Seq<Access> {
        self.log@
    }

    /// Reads the cell at `addr`, which holds the last value written to it.
    fn read32(&mut self, addr: u32) -> (r: u32)
        ensures
            r == old(self).cell(addr),
    {
        let r = self.peek(addr);
        self.log.push(Access::Read { addr, value: r });
        r
    }

    fn write32(&mut self, addr: u32, value: u32) {
        self.log.push(Access::Write { addr, value });
    }
}

} // verus!
