use vstd::prelude::*;

use crate::bus::clock::rising;
use crate::bus::cpu_bus::{CpuBus, MREQ, RD, WR};
use crate::bus::identifiable::{Identifiable, Identifier};
use crate::bus::scheduler::TaskYield;
use super::breakpoints::{last_hit, without, BreakEvent, BreakpointEntry, BreakpointManager, StatePredicate};
use crate::cpu::state::CpuState;

verus! {

/// Size of the address space
pub const MEMORY_SIZE: usize = 0x10000;

/// The first 16KB are ROM
pub open spec fn spec_writable(addr: u16) -> bool {
    addr & 0xc000 != 0
}

/// Memory contents after a write: ROM keeps its byte
pub open spec fn after_write(contents: Seq<u8>, addr: u16, byte: u8) -> Seq<u8> {
    if spec_writable(addr) { contents.update(addr as int, byte) } else { contents }
}

/// Memory contents after loading `data` at `addr`
pub open spec fn after_load(contents: Seq<u8>, addr: u16, data: Seq<u8>) -> Seq<u8> {
    Seq::new(contents.len(), |k: int| if addr <= k < addr + data.len() { data[k - addr] } else { contents[k] })
}

/// Condition to break on a memory access
#[derive(Clone, Copy, PartialEq, Eq, Debug, Structural)]
pub enum MemoryBreakpoint {
    /// Any access to the address
    Access(u16),
    /// Any access to an address of the range, both ends included
    AccessRange(u16, u16),
    /// A write to the address
    Write(u16),
    /// A read from the address
    Read(u16),
}

/// 64KB memory whose first 16KB are ROM
pub trait Memory {
    /// Bytes of the memory, by address
    spec fn contents(&self) -> Seq<u8>;

    /// Check if given address is writable (located in RAM)
    fn writable(&self, addr: u16) -> (r: bool)
        ensures
            r == spec_writable(addr);

    /// Write byte to the memory; writes to ROM are ignored
    fn write(&mut self, addr: u16, byte: u8)
        requires
            old(self).contents().len() == MEMORY_SIZE,
        ensures
            final(self).contents() == after_write(old(self).contents(), addr, byte);

    /// Read byte from the memory
    fn read(&self, addr: u16) -> (r: u8)
        requires
            self.contents().len() == MEMORY_SIZE,
        ensures
            r == self.contents()[addr as int];
}

fn writable_addr(addr: u16) -> (r: bool)
    ensures
        r == spec_writable(addr),
{
    addr & 0xc000 != 0
}

fn zeroed() -> (v: Vec<u8>)
    ensures
        v@ == Seq::new(MEMORY_SIZE as nat, |k: int| 0u8),
{
    let mut v: Vec<u8> = Vec::new();
    while v.len() < MEMORY_SIZE
        invariant
            v.len() <= MEMORY_SIZE,
            forall|k: int| 0 <= k < v.len() ==> v@[k] == 0,
        decreases MEMORY_SIZE - v.len(),
    {
        v.push(0);
    }
    assert(v@ =~= Seq::new(MEMORY_SIZE as nat, |k: int| 0u8));
    v
}

fn load_bytes(memory: &mut Vec<u8>, addr: u16, data: &Vec<u8>)
    requires
        old(memory).len() == MEMORY_SIZE,
        addr + data.len() <= MEMORY_SIZE,
    ensures
        final(memory)@ == after_load(old(memory)@, addr, data@),
{
    let mut i: usize = 0;
    while i < data.len()
        invariant
            memory.len() == MEMORY_SIZE,
            addr + data.len() <= MEMORY_SIZE,
            i <= data.len(),
            memory@ == after_load(old(memory)@, addr, data@.subrange(0, i as int)),
        decreases data.len() - i,
    {
        memory.set(addr as usize + i, data[i]);
        i = i + 1;
        assert(memory@ =~= after_load(old(memory)@, addr, data@.subrange(0, i as int)));
    }
    assert(data@.subrange(0, data@.len() as int) =~= data@);
}

/// Static 48k memory: answers the memory requests on the bus
pub struct Static48k {
    id: Identifier,
    memory: Vec<u8>,
    /// The last step stopped at a breakpoint; the wait for the next edge is still due
    pending_wait: bool,
    /// The bus was in a state the memory cannot answer
    faulted: bool,
}

impl Identifiable for Static48k {
    open spec fn spec_id(&self) -> Identifier {
        self.spec_mem_id()
    }

    fn id(&self) -> (r: Identifier) {
        self.id
    }
}

impl Memory for Static48k {
    closed spec fn contents(&self) -> Seq<u8> {
        self.memory@
    }

    fn writable(&self, addr: u16) -> (r: bool) {
        writable_addr(addr)
    }

    fn write(&mut self, addr: u16, byte: u8) {
        self.store_byte(addr, byte);
    }

    fn read(&self, addr: u16) -> (r: u8) {
        self.memory[addr as usize]
    }
}

/// Control lines of the bus: memory request, read, write
pub open spec fn ctrl_bits(bus: CpuBus) -> u8 {
    match bus.ctrl@ {
        Some((_, c)) => c.bits,
        None => 0,
    }
}

pub open spec fn is_mem_read(bus: CpuBus) -> bool {
    let c = ctrl_bits(bus);
    c & MREQ == MREQ && c & RD == RD && c & WR != WR
}

pub open spec fn is_mem_write(bus: CpuBus) -> bool {
    let c = ctrl_bits(bus);
    c & MREQ == MREQ && c & WR == WR && c & RD != RD
}

/// The byte and address of a memory write on the bus that another device than `id` drives
pub open spec fn stored(bus: CpuBus, id: Identifier) -> Option<(u16, u8)> {
    if is_mem_write(bus) && bus.addr@ is Some && bus.data@ is Some && bus.data@.unwrap().0 != id {
        Some((bus.addr@.unwrap().1, bus.data@.unwrap().1))
    } else {
        None
    }
}

/// The bus lets a memory `id` answer a request: an address is driven for a read or a write, the
/// data bus is free or its own for a read, and another device drives it for a write
pub open spec fn mem_clear(bus: CpuBus, id: Identifier) -> bool {
    &&& (is_mem_read(bus) || is_mem_write(bus)) ==> bus.addr@ is Some
    &&& is_mem_read(bus) ==> bus.data.can_drive(id)
    &&& is_mem_write(bus) ==> bus.data@ is Some && !bus.data.owner_is(id)
}

/// The breakpoint that a memory access on the bus hits, if any: the last one added whose
/// condition matches a read or a write at the address
pub open spec fn access_hit<P: StatePredicate>(bps: Seq<BreakpointEntry<P>>, bus: CpuBus) -> Option<int> {
    if is_mem_read(bus) {
        last_hit(bps, BreakEvent::AfterMemoryRead, bus.addr@.unwrap().1, CpuState::reset())
    } else if is_mem_write(bus) {
        last_hit(bps, BreakEvent::AfterMemoryWrite, bus.addr@.unwrap().1, CpuState::reset())
    } else {
        None
    }
}

/// Breakpoints after hit `k`: a one-time breakpoint is removed
pub open spec fn after_hit<P: StatePredicate>(bps: Seq<BreakpointEntry<P>>, k: int) -> Seq<BreakpointEntry<P>> {
    if bps[k].once { without(bps, bps[k].id) } else { bps }
}

impl Static48k {

    /// Neither faulted nor owing the wait after a breakpoint: this step answers the bus
    pub closed spec fn acts(&self) -> bool {
        !self.faulted && !self.pending_wait
    }

    pub closed spec fn spec_mem_id(&self) -> Identifier {
        self.id
    }

    pub closed spec fn is_faulted(&self) -> bool {
        self.faulted
    }

    fn store_byte(&mut self, addr: u16, byte: u8)
        requires
            old(self).memory.len() == MEMORY_SIZE,
        ensures
            final(self).memory@ == after_write(old(self).memory@, addr, byte),
            final(self).id == old(self).id,
            final(self).faulted == old(self).faulted,
            final(self).pending_wait == old(self).pending_wait,
    {
        if writable_addr(addr) {
            self.memory.set(addr as usize, byte);
        }
    }

    /// Create new memory instance, all bytes zero
    pub fn new(id: Identifier) -> (r: Static48k)
        ensures
            r.contents() == Seq::new(MEMORY_SIZE as nat, |k: int| 0u8),
            r.spec_mem_id() == id,
            !r.is_faulted(),
    {
        Static48k { id, memory: zeroed(), pending_wait: false, faulted: false }
    }

    /// Load data to the memory at the given address (ROM included)
    pub fn load(&mut self, addr: u16, data: &Vec<u8>)
        requires
            old(self).contents().len() == MEMORY_SIZE,
            addr + data.len() <= MEMORY_SIZE,
        ensures
            final(self).contents() == after_load(old(self).contents(), addr, data@),
            final(self).spec_mem_id() == old(self).spec_mem_id(),
            final(self).is_faulted() == old(self).is_faulted(),
    {
        load_bytes(&mut self.memory, addr, data);
    }

    /// Run the memory from one yield to the next: put the byte addressed on the data bus while
    /// MREQ and RD are asserted, store the byte on the data bus while MREQ and WR are, and let
    /// go of the data bus otherwise; a breakpoint on the access stops the emulation
    pub fn resume<P: StatePredicate>(&mut self, bus: &mut CpuBus, breakpoints: &mut BreakpointManager<P>, h: u64) -> (y: TaskYield)
        requires
            old(self).contents().len() == MEMORY_SIZE,
            old(breakpoints).wf(),
        ensures
            final(self).contents().len() == MEMORY_SIZE,
            final(breakpoints).wf(),
            y matches TaskYield::Wait(off) ==> off > 0,
            final(self).spec_mem_id() == old(self).spec_mem_id(),
            old(bus).respected_by(final(bus), old(self).spec_mem_id()),
            old(self).is_faulted() ==> final(self).is_faulted() && y == TaskYield::Break,
            final(self).contents() == match stored(*old(bus), old(self).spec_mem_id()) {
                Some((addr, byte)) if old(self).acts() && !final(self).is_faulted() => after_write(old(self).contents(), addr, byte),
                _ => old(self).contents(),
            },
            old(self).acts() && is_mem_read(*old(bus)) && !final(self).is_faulted()
                ==> final(bus).data@ == Some((old(self).spec_mem_id(), old(self).contents()[old(bus).addr@.unwrap().1 as int])),
            !old(self).is_faulted() && mem_clear(*old(bus), old(self).spec_mem_id()) ==> !final(self).is_faulted(),
            !old(self).is_faulted() && !old(self).acts() ==> {
                &&& y == TaskYield::Wait(crate::bus::clock::spec_to_rising(h, 1) as u64)
                &&& final(self).acts()
                &&& final(breakpoints)@ == old(breakpoints)@
            },
            old(self).acts() && !final(self).is_faulted() ==> match access_hit(old(breakpoints)@, *old(bus)) {
                Some(k) => {
                    &&& y == TaskYield::Break
                    &&& !final(self).acts()
                    &&& final(breakpoints)@ == after_hit(old(breakpoints)@, k)
                },
                None => {
                    &&& y == TaskYield::Wait(crate::bus::clock::spec_to_rising(h, 1) as u64)
                    &&& final(self).acts()
                    &&& final(breakpoints)@ == old(breakpoints)@
                },
            },
    {
        if self.faulted {
            return TaskYield::Break;
        }
        if self.pending_wait {
            self.pending_wait = false;
            return TaskYield::Wait(rising(h, 1));
        }
        let bits = match bus.ctrl.probe() {
            Some(c) => c.bits,
            None => 0,
        };
        let mreq = bits & MREQ == MREQ;
        let rd = bits & RD == RD;
        let wr = bits & WR == WR;
        if mreq && rd && !wr {
            // Memory read: drive the data bus
            let addr = match bus.addr.probe() {
                Some(a) => a,
                None => {
                    self.faulted = true;
                    return TaskYield::Break;
                },
            };
            let val = self.read(addr);
            if !bus.data.try_drive(self.id, val) {
                self.faulted = true;
                return TaskYield::Break;
            }
            if breakpoints.hits_after_memory_read(addr).is_some() {
                self.pending_wait = true;
                return TaskYield::Break;
            }
        } else if mreq && wr && !rd {
            // Memory write: take the byte from the data bus
            bus.data.release(self.id);
            let addr = match bus.addr.probe() {
                Some(a) => a,
                None => {
                    self.faulted = true;
                    return TaskYield::Break;
                },
            };
            let val = match bus.data.probe() {
                Some(v) => v,
                None => {
                    self.faulted = true;
                    return TaskYield::Break;
                },
            };
            self.store_byte(addr, val);
            if breakpoints.hits_after_memory_write(addr).is_some() {
                self.pending_wait = true;
                return TaskYield::Break;
            }
        } else {
            bus.data.release(self.id);
        }
        TaskYield::Wait(rising(h, 1))
    }
}

/// Standard dynamic 48k memory: answers memory requests in whole T-cycles
pub struct Dynamic48k {
    id: Identifier,
    memory: Vec<u8>,
    /// The data bus is driven for a read and is let go on the next step
    reading: bool,
    /// The bus was in a state the memory cannot answer
    faulted: bool,
}

impl Memory for Dynamic48k {
    closed spec fn contents(&self) -> Seq<u8> {
        self.memory@
    }

    fn writable(&self, addr: u16) -> (r: bool) {
        writable_addr(addr)
    }

    fn write(&mut self, addr: u16, byte: u8) {
        if writable_addr(addr) {
            self.memory.set(addr as usize, byte);
        }
    }

    fn read(&self, addr: u16) -> (r: u8) {
        self.memory[addr as usize]
    }
}

impl Dynamic48k {

    pub closed spec fn is_faulted(&self) -> bool {
        self.faulted
    }

    pub closed spec fn spec_mem_id(&self) -> Identifier {
        self.id
    }

    /// Create new memory instance, all bytes zero
    pub fn new(id: Identifier) -> (r: Dynamic48k)
        ensures
            r.contents() == Seq::new(MEMORY_SIZE as nat, |k: int| 0u8),
            r.spec_mem_id() == id,
            !r.is_faulted(),
    {
        Dynamic48k { id, memory: zeroed(), reading: false, faulted: false }
    }

    /// Load data to the memory at the given address (ROM included)
    pub fn load(&mut self, addr: u16, data: &Vec<u8>)
        requires
            old(self).contents().len() == MEMORY_SIZE,
            addr + data.len() <= MEMORY_SIZE,
        ensures
            final(self).contents() == after_load(old(self).contents(), addr, data@),
            final(self).spec_mem_id() == old(self).spec_mem_id(),
    {
        load_bytes(&mut self.memory, addr, data);
    }

    /// Run the memory from one yield to the next: wait for a memory request, then drive the data
    /// bus for three T-cycles on a read, or store the byte on the data bus and wait two T-cycles
    /// on a write. A request that is neither a read nor a write stops the memory.
    pub fn resume(&mut self, bus: &mut CpuBus, h: u64) -> (y: TaskYield)
        requires
            old(self).contents().len() == MEMORY_SIZE,
        ensures
            final(self).contents().len() == MEMORY_SIZE,
            y matches TaskYield::Wait(off) ==> off > 0,
            final(self).spec_mem_id() == old(self).spec_mem_id(),
            old(bus).respected_by(final(bus), old(self).spec_mem_id()),
            old(self).is_faulted() ==> final(self).is_faulted() && y == TaskYield::Break,
            final(self).is_faulted() ==> y == TaskYield::Break,
            final(self).contents() == if !final(self).is_faulted() && ctrl_bits(*old(bus)) & MREQ == MREQ
                && ctrl_bits(*old(bus)) & RD != RD && ctrl_bits(*old(bus)) & WR == WR {
                after_write(old(self).contents(), old(bus).addr@.unwrap().1, final(bus).data@.unwrap().1)
            } else {
                old(self).contents()
            },
            !final(self).is_faulted() && ctrl_bits(*old(bus)) & MREQ == MREQ && ctrl_bits(*old(bus)) & RD == RD
                ==> final(bus).data@ == Some((old(self).spec_mem_id(), old(self).contents()[old(bus).addr@.unwrap().1 as int])),
            !old(self).is_faulted() && (ctrl_bits(*old(bus)) & MREQ == MREQ ==> {
                &&& old(bus).addr@ is Some
                &&& ctrl_bits(*old(bus)) & RD == RD ==> old(bus).data.can_drive(old(self).spec_mem_id())
                &&& ctrl_bits(*old(bus)) & RD != RD ==> ctrl_bits(*old(bus)) & WR == WR && old(bus).data@ is Some
                    && !old(bus).data.owner_is(old(self).spec_mem_id())
            }) ==> !final(self).is_faulted(),
            !final(self).is_faulted() ==> y == TaskYield::Wait(crate::bus::clock::spec_to_rising(h,
                if ctrl_bits(*old(bus)) & MREQ != MREQ { 1 } else if ctrl_bits(*old(bus)) & RD == RD { 3 } else { 2 }) as u64),
    {
        if self.faulted {
            return TaskYield::Break;
        }
        if self.reading {
            bus.data.release(self.id);
            self.reading = false;
        }
        let bits = match bus.ctrl.probe() {
            Some(c) => c.bits,
            None => 0,
        };
        if bits & MREQ != MREQ {
            return TaskYield::Wait(rising(h, 1));
        }
        let addr = match bus.addr.probe() {
            Some(a) => a,
            None => {
                self.faulted = true;
                return TaskYield::Break;
            },
        };
        if bits & RD == RD {
            let val = self.memory[addr as usize];
            if !bus.data.try_drive(self.id, val) {
                self.faulted = true;
                return TaskYield::Break;
            }
            self.reading = true;
            TaskYield::Wait(rising(h, 3))
        } else if bits & WR == WR {
            let byte = match bus.data.probe() {
                Some(b) => b,
                None => {
                    self.faulted = true;
                    return TaskYield::Break;
                },
            };
            if writable_addr(addr) {
                self.memory.set(addr as usize, byte);
            }
            TaskYield::Wait(rising(h, 2))
        } else {
            self.faulted = true;
            TaskYield::Break
        }
    }
}

/// Plain memory that only keeps time with the bus
pub struct FlatRam {
    pub memory: Vec<u8>,
}

impl FlatRam {
    /// Create new memory instance, holding no bytes
    pub fn new() -> (r: FlatRam)
        ensures
            r.memory@ == Seq::<u8>::empty(),
    {
        FlatRam { memory: Vec::new() }
    }

    /// Wait four T-cycles at a time
    pub fn resume(&mut self, h: u64) -> (y: TaskYield)
        ensures
            y == TaskYield::Wait(crate::bus::clock::spec_to_rising(h, 4) as u64),
            final(self).memory == old(self).memory,
    {
        TaskYield::Wait(rising(h, 4))
    }
}

/// Law: a byte written to RAM reads back, one written to ROM leaves it as it was, and a write
/// changes no other address
pub proof fn lemma_write_read(contents: Seq<u8>, addr: u16, byte: u8, other: u16)
    requires
        contents.len() == MEMORY_SIZE,
        other != addr,
    ensures
        spec_writable(addr) ==> after_write(contents, addr, byte)[addr as int] == byte,
        !spec_writable(addr) ==> after_write(contents, addr, byte)[addr as int] == contents[addr as int],
        after_write(contents, addr, byte)[other as int] == contents[other as int],
        after_write(contents, addr, byte).len() == MEMORY_SIZE,
{
}

/// Law: loaded bytes read back at their addresses, whether RAM or ROM, and the rest is kept
pub proof fn lemma_load_read(contents: Seq<u8>, addr: u16, data: Seq<u8>, k: int)
    requires
        contents.len() == MEMORY_SIZE,
        addr + data.len() <= MEMORY_SIZE,
        0 <= k < MEMORY_SIZE,
    ensures
        addr <= k < addr + data.len() ==> after_load(contents, addr, data)[k] == data[k - addr],
        !(addr <= k < addr + data.len()) ==> after_load(contents, addr, data)[k] == contents[k],
        after_load(contents, addr, data).len() == MEMORY_SIZE,
{
}

} // verus!
