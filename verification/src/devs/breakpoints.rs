use vstd::prelude::*;

use crate::bus::identifiable::Identifier;
use crate::cpu::state::{is_register, CpuState};
use crate::cpu::tokens::{Reg, RegPair};

verus! {

/// A condition on the CPU registers
#[derive(Clone, Copy, PartialEq, Eq, Debug, Structural)]
pub enum StateCondition {
    /// The program counter has the given value
    PcEquals(u16),
    /// An 8-bit register has the given value
    RegEquals(Reg, u8),
    /// A register pair has the given value
    RegPairEquals(RegPair, u16),
    /// The flags under the mask (first) have the given bits (second)
    FlagsMatch(u8, u8),
}

/// When a breakpoint stops the emulation
#[derive(Clone, Copy, Debug)]
pub enum BreakCondition<P> {
    /// The CPU state matches the condition
    CpuStateMatch(P),
    /// Before an opcode is read: from any address, or from the given one
    BeforeOpcodeRead(Option<u16>),
    /// After a read or a write at the address
    AfterMemoryAccess(u16),
    /// After a read or a write in the address range (inclusive)
    AfterMemoryAccessRange(u16, u16),
    /// After a write at the address
    AfterMemoryWrite(u16),
    /// After a read at the address
    AfterMemoryRead(u16),
}

/// A registered breakpoint
#[derive(Clone, Copy, Debug)]
pub struct BreakpointEntry<P> {
    pub id: Identifier,
    pub condition: BreakCondition<P>,
    /// The breakpoint is removed once it is hit
    pub once: bool,
}

/// Kinds of events that breakpoints are checked against
#[derive(Clone, Copy, PartialEq, Eq, Debug, Structural)]
pub enum BreakEvent {
    CpuState,
    BeforeOpcodeRead,
    AfterMemoryRead,
    AfterMemoryWrite,
}

pub open spec fn state_matches(c: StateCondition, s: CpuState) -> bool {
    match c {
        StateCondition::PcEquals(pc) => s.pc == pc,
        StateCondition::RegEquals(r, v) => is_register(r) && s.reg(r) == v,
        StateCondition::RegPairEquals(p, v) => s.rpair(p) == v,
        StateCondition::FlagsMatch(mask, bits) => s.flags() & mask == bits,
    }
}

/// A condition is hit by an event at an address (for memory events and opcode reads)
/// or in a CPU state
pub open spec fn hits<P: StatePredicate>(c: BreakCondition<P>, event: BreakEvent, addr: u16, s: CpuState) -> bool {
    match event {
        BreakEvent::CpuState => c matches BreakCondition::CpuStateMatch(sc) && sc.holds(s),
        BreakEvent::BeforeOpcodeRead => c matches BreakCondition::BeforeOpcodeRead(a) && (a is None || a == Some(addr)),
        BreakEvent::AfterMemoryRead => match c {
            BreakCondition::AfterMemoryAccess(a) | BreakCondition::AfterMemoryRead(a) => a == addr,
            BreakCondition::AfterMemoryAccessRange(start, end) => start <= addr <= end,
            _ => false,
        },
        BreakEvent::AfterMemoryWrite => match c {
            BreakCondition::AfterMemoryAccess(a) | BreakCondition::AfterMemoryWrite(a) => a == addr,
            BreakCondition::AfterMemoryAccessRange(start, end) => start <= addr <= end,
            _ => false,
        },
    }
}

/// Index of the last entry hit by the event, if any
pub open spec fn last_hit<P: StatePredicate>(s: Seq<BreakpointEntry<P>>, event: BreakEvent, addr: u16, cs: CpuState) -> Option<int>
    decreases s.len(),
{
    if s.len() == 0 {
        None
    } else if hits(s.last().condition, event, addr, cs) {
        Some(s.len() - 1)
    } else {
        last_hit(s.drop_last(), event, addr, cs)
    }
}

/// Entries without the one with the given id
pub open spec fn without<P: StatePredicate>(s: Seq<BreakpointEntry<P>>, id: Identifier) -> Seq<BreakpointEntry<P>> {
    s.filter(|e: BreakpointEntry<P>| e.id != id)
}

/// Breakpoints, in the order they were added
pub struct BreakpointManager<P> {
    breakpoints: Vec<BreakpointEntry<P>>,
    next_id: Identifier,
}

impl<P: StatePredicate> View for BreakpointManager<P> {
    type V = Seq<BreakpointEntry<P>>;

    closed spec fn view(&self) -> Seq<BreakpointEntry<P>> {
        self.breakpoints@
    }
}

impl<P: StatePredicate> Default for BreakpointManager<P> {
    fn default() -> (r: BreakpointManager<P>)
        ensures
            r.wf(),
            r@ == Seq::<BreakpointEntry<P>>::empty(),
            r.spec_next_id() == 0,
    {
        Self::new()
    }
}

/// A condition on the CPU state that a breakpoint can wait for; users may give their own
pub trait StatePredicate: Copy {
    /// The condition holds in state `s`
    spec fn holds(&self, s: CpuState) -> bool;

    /// Whether the condition holds in state `s`
    fn check(&self, s: &CpuState) -> (r: bool)
        ensures
            r == self.holds(*s);
}

impl StatePredicate for StateCondition {
    open spec fn holds(&self, s: CpuState) -> bool {
        state_matches(*self, s)
    }

    fn check(&self, s: &CpuState) -> (r: bool) {
        state_condition_holds(*self, s)
    }
}

fn state_condition_holds(c: StateCondition, s: &CpuState) -> (r: bool)
    ensures
        r == state_matches(c, *s),
{
    match c {
        StateCondition::PcEquals(pc) => s.pc == pc,
        StateCondition::RegEquals(r, v) => !matches!(r, Reg::AtHL | Reg::AtIX | Reg::AtIY) && s.rg(r) == v,
        StateCondition::RegPairEquals(p, v) => s.rp(p) == v,
        StateCondition::FlagsMatch(mask, bits) => s.get_flags().bits & mask == bits,
    }
}

fn condition_hits<P: StatePredicate>(c: BreakCondition<P>, event: BreakEvent, addr: u16, s: &CpuState) -> (r: bool)
    ensures
        r == hits(c, event, addr, *s),
{
    match event {
        BreakEvent::CpuState => match c {
            BreakCondition::CpuStateMatch(sc) => sc.check(s),
            _ => false,
        },
        BreakEvent::BeforeOpcodeRead => match c {
            BreakCondition::BeforeOpcodeRead(None) => true,
            BreakCondition::BeforeOpcodeRead(Some(a)) => a == addr,
            _ => false,
        },
        BreakEvent::AfterMemoryRead => match c {
            BreakCondition::AfterMemoryAccess(a) | BreakCondition::AfterMemoryRead(a) => a == addr,
            BreakCondition::AfterMemoryAccessRange(start, end) => start <= addr && addr <= end,
            _ => false,
        },
        BreakEvent::AfterMemoryWrite => match c {
            BreakCondition::AfterMemoryAccess(a) | BreakCondition::AfterMemoryWrite(a) => a == addr,
            BreakCondition::AfterMemoryAccessRange(start, end) => start <= addr && addr <= end,
            _ => false,
        },
    }
}

impl<P: StatePredicate> BreakpointManager<P> {

    /// Identifier that the next breakpoint gets
    pub closed spec fn spec_next_id(&self) -> Identifier {
        self.next_id
    }

    /// Identifiers are given in increasing order, each below the next one to give
    pub closed spec fn wf(&self) -> bool {
        &&& forall|k: int| 0 <= k < self.breakpoints@.len() ==> #[trigger] self.breakpoints@[k].id < self.next_id
        &&& forall|j: int, k: int| 0 <= j < k < self.breakpoints@.len()
            ==> #[trigger] self.breakpoints@[j].id < #[trigger] self.breakpoints@[k].id
    }

    /// Whether an identifier is left for one more breakpoint
    pub fn next_id_left(&self) -> (r: bool)
        ensures
            r == (self.spec_next_id() < Identifier::MAX),
    {
        self.next_id < Identifier::MAX
    }

    /// A manager without breakpoints
    pub fn new() -> (r: BreakpointManager<P>)
        ensures
            r.wf(),
            r@ == Seq::<BreakpointEntry<P>>::empty(),
            r.spec_next_id() == 0,
    {
        BreakpointManager { breakpoints: Vec::new(), next_id: 0 }
    }

    fn generate_id(&mut self) -> (id: Identifier)
        requires
            old(self).next_id < Identifier::MAX,
        ensures
            id == old(self).next_id,
            final(self).next_id == old(self).next_id + 1,
            final(self).breakpoints == old(self).breakpoints,
    {
        let id = self.next_id;
        self.next_id = id + 1;
        id
    }

    /// Add a breakpoint that is removed once hit
    pub fn once(&mut self, condition: BreakCondition<P>) -> (id: Identifier)
        requires
            old(self).wf(),
            old(self).spec_next_id() < Identifier::MAX,
        ensures
            final(self).wf(),
            id == old(self).spec_next_id(),
            final(self).spec_next_id() == id + 1,
            final(self)@ == old(self)@.push(BreakpointEntry { id, condition, once: true }),
    {
        self.add(condition, true)
    }

    /// Add a breakpoint; returns its identifier
    pub fn add(&mut self, condition: BreakCondition<P>, once: bool) -> (id: Identifier)
        requires
            old(self).wf(),
            old(self).spec_next_id() < Identifier::MAX,
        ensures
            final(self).wf(),
            id == old(self).spec_next_id(),
            final(self).spec_next_id() == id + 1,
            final(self)@ == old(self)@.push(BreakpointEntry { id, condition, once }),
    {
        let id = self.generate_id();
        self.breakpoints.push(BreakpointEntry { id, condition, once });
        id
    }

    /// Remove every breakpoint; identifiers already given are not given again
    pub fn clear(&mut self)
        requires
            old(self).wf(),
        ensures
            final(self).wf(),
            final(self)@ == Seq::<BreakpointEntry<P>>::empty(),
            final(self).spec_next_id() == old(self).spec_next_id(),
    {
        self.breakpoints = Vec::new();
    }

    /// Remove the breakpoint with the given identifier
    pub fn remove(&mut self, id: Identifier)
        requires
            old(self).wf(),
        ensures
            final(self).wf(),
            final(self)@ == without(old(self)@, id),
            final(self).spec_next_id() == old(self).spec_next_id(),
    {
        let ghost pred = |e: BreakpointEntry<P>| e.id != id;
        let mut kept: Vec<BreakpointEntry<P>> = Vec::new();
        let mut i: usize = 0;
        while i < self.breakpoints.len()
            invariant
                i <= self.breakpoints@.len(),
                pred == (|e: BreakpointEntry<P>| e.id != id),
                kept@ == self.breakpoints@.subrange(0, i as int).filter(pred),
                forall|k: int| 0 <= k < kept@.len() ==> self.breakpoints@.subrange(0, i as int).contains(#[trigger] kept@[k]),
                forall|j: int, k: int| 0 <= j < k < kept@.len() ==> #[trigger] kept@[j].id < #[trigger] kept@[k].id,
                forall|k: int| 0 <= k < kept@.len() ==> #[trigger] kept@[k].id < self.breakpoints@[i as int].id || i == self.breakpoints@.len(),
                self.wf(),
            decreases self.breakpoints@.len() - i,
        {
            let e = self.breakpoints[i];
            let ghost before = kept@;
            proof {
                reveal(Seq::filter);
                assert(self.breakpoints@.subrange(0, i + 1).drop_last() =~= self.breakpoints@.subrange(0, i as int));
            }
            if e.id != id {
                kept.push(e);
            }
            proof {
                let t = self.breakpoints@.subrange(0, i + 1);
                assert(t.last() == e);
                assert(t.filter(pred) == if pred(t.last()) { t.drop_last().filter(pred).push(t.last()) }
                    else { t.drop_last().filter(pred) }) by {
                    reveal_with_fuel(Seq::filter, 1);
                }
                assert(t.drop_last() == self.breakpoints@.subrange(0, i as int));
                assert(pred(e) == (e.id != id));
                assert(kept@ =~= t.filter(pred));
                assert forall|k: int| 0 <= k < kept@.len() implies self.breakpoints@.subrange(0, i + 1).contains(#[trigger] kept@[k]) by {
                    if k < before.len() {
                        let w = choose|w: int| 0 <= w < i && self.breakpoints@.subrange(0, i as int)[w] == before[k];
                        assert(self.breakpoints@.subrange(0, i + 1)[w] == before[k]);
                    } else {
                        assert(self.breakpoints@.subrange(0, i + 1)[i as int] == e);
                    }
                }
                if i + 1 < self.breakpoints@.len() {
                    assert forall|k: int| 0 <= k < kept@.len() implies #[trigger] kept@[k].id < self.breakpoints@[i + 1].id by {
                        if k < before.len() {
                            assert(before[k].id < self.breakpoints@[i as int].id);
                        }
                    }
                }
            }
            i = i + 1;
        }
        proof {
            assert(self.breakpoints@.subrange(0, self.breakpoints@.len() as int) =~= self.breakpoints@);
            assert forall|k: int| 0 <= k < kept@.len() implies #[trigger] kept@[k].id < self.next_id by {
                assert(self.breakpoints@.contains(kept@[k]));
                let w = choose|w: int| 0 <= w < self.breakpoints@.len() && self.breakpoints@[w] == kept@[k];
                assert(self.breakpoints@[w].id < self.next_id);
            }
        }
        self.breakpoints = kept;
    }

    /// Find the last breakpoint that the event hits; remove it if it is a one-time breakpoint
    fn match_and_maybe_remove(&mut self, event: BreakEvent, addr: u16, state: &CpuState) -> (r: Option<Identifier>)
        requires
            old(self).wf(),
        ensures
            final(self).wf(),
            final(self).spec_next_id() == old(self).spec_next_id(),
            r == match last_hit(old(self)@, event, addr, *state) {
                Some(k) => Some(old(self)@[k].id),
                None => None,
            },
            final(self)@ == match last_hit(old(self)@, event, addr, *state) {
                Some(k) => if old(self)@[k].once { without(old(self)@, old(self)@[k].id) } else { old(self)@ },
                None => old(self)@,
            },
    {
        let mut k: usize = self.breakpoints.len();
        assert(self.breakpoints@.subrange(0, k as int) =~= self.breakpoints@);
        while k > 0
            invariant
                self.wf(),
                *self == *old(self),
                k <= self.breakpoints@.len(),
                last_hit(self.breakpoints@, event, addr, *state) == last_hit(self.breakpoints@.subrange(0, k as int), event, addr, *state),
            decreases k,
        {
            let e = self.breakpoints[k - 1];
            proof {
                assert(self.breakpoints@.subrange(0, k as int).drop_last() =~= self.breakpoints@.subrange(0, k - 1));
            }
            if condition_hits(e.condition, event, addr, state) {
                if e.once {
                    self.remove(e.id);
                }
                return Some(e.id);
            }
            k = k - 1;
        }
        None
    }

    /// Breakpoint hit by the CPU state, if any
    pub fn hits_cpu_state_match(&mut self, state: &CpuState) -> (r: Option<Identifier>)
        requires
            old(self).wf(),
        ensures
            final(self).wf(),
            final(self).spec_next_id() == old(self).spec_next_id(),
            r == match last_hit(old(self)@, BreakEvent::CpuState, 0, *state) {
                Some(k) => Some(old(self)@[k].id),
                None => None,
            },
            final(self)@ == match last_hit(old(self)@, BreakEvent::CpuState, 0, *state) {
                Some(k) => if old(self)@[k].once { without(old(self)@, old(self)@[k].id) } else { old(self)@ },
                None => old(self)@,
            },
    {
        self.match_and_maybe_remove(BreakEvent::CpuState, 0, state)
    }

    /// Breakpoint hit before reading an opcode at the address, if any
    pub fn hits_before_opcode_read(&mut self, address: u16) -> (r: Option<Identifier>)
        requires
            old(self).wf(),
        ensures
            final(self).wf(),
            final(self).spec_next_id() == old(self).spec_next_id(),
            r == match last_hit(old(self)@, BreakEvent::BeforeOpcodeRead, address, CpuState::reset()) {
                Some(k) => Some(old(self)@[k].id),
                None => None,
            },
            final(self)@ == match last_hit(old(self)@, BreakEvent::BeforeOpcodeRead, address, CpuState::reset()) {
                Some(k) => if old(self)@[k].once { without(old(self)@, old(self)@[k].id) } else { old(self)@ },
                None => old(self)@,
            },
    {
        self.match_and_maybe_remove(BreakEvent::BeforeOpcodeRead, address, &CpuState::new())
    }

    /// Breakpoint hit after reading memory at the address, if any
    pub fn hits_after_memory_read(&mut self, address: u16) -> (r: Option<Identifier>)
        requires
            old(self).wf(),
        ensures
            final(self).wf(),
            final(self).spec_next_id() == old(self).spec_next_id(),
            r == match last_hit(old(self)@, BreakEvent::AfterMemoryRead, address, CpuState::reset()) {
                Some(k) => Some(old(self)@[k].id),
                None => None,
            },
            final(self)@ == match last_hit(old(self)@, BreakEvent::AfterMemoryRead, address, CpuState::reset()) {
                Some(k) => if old(self)@[k].once { without(old(self)@, old(self)@[k].id) } else { old(self)@ },
                None => old(self)@,
            },
    {
        self.match_and_maybe_remove(BreakEvent::AfterMemoryRead, address, &CpuState::new())
    }

    /// Breakpoint hit after writing memory at the address, if any
    pub fn hits_after_memory_write(&mut self, address: u16) -> (r: Option<Identifier>)
        requires
            old(self).wf(),
        ensures
            final(self).wf(),
            final(self).spec_next_id() == old(self).spec_next_id(),
            r == match last_hit(old(self)@, BreakEvent::AfterMemoryWrite, address, CpuState::reset()) {
                Some(k) => Some(old(self)@[k].id),
                None => None,
            },
            final(self)@ == match last_hit(old(self)@, BreakEvent::AfterMemoryWrite, address, CpuState::reset()) {
                Some(k) => if old(self)@[k].once { without(old(self)@, old(self)@[k].id) } else { old(self)@ },
                None => old(self)@,
            },
    {
        self.match_and_maybe_remove(BreakEvent::AfterMemoryWrite, address, &CpuState::new())
    }
}

/// Law: once a breakpoint is removed (or a one-time breakpoint is hit), no breakpoint with its
/// identifier is left; removing an identifier that no breakpoint has changes nothing
pub proof fn lemma_removed<P: StatePredicate>(s: Seq<BreakpointEntry<P>>, id: Identifier)
    ensures
        forall|k: int| 0 <= k < without(s, id).len() ==> (#[trigger] without(s, id)[k]).id != id,
        (forall|k: int| 0 <= k < s.len() ==> (#[trigger] s[k]).id != id) ==> without(s, id) == s,
{
    let pred = |e: BreakpointEntry<P>| e.id != id;
    assert forall|k: int| 0 <= k < without(s, id).len() implies (#[trigger] without(s, id)[k]).id != id by {
        s.lemma_filter_pred(pred, k);
    }
    if forall|k: int| 0 <= k < s.len() ==> (#[trigger] s[k]).id != id {
        lemma_filter_all(s, pred);
    }
}

proof fn lemma_filter_all<P: StatePredicate>(s: Seq<BreakpointEntry<P>>, pred: spec_fn(BreakpointEntry<P>) -> bool)
    requires
        forall|k: int| 0 <= k < s.len() ==> pred(#[trigger] s[k]),
    ensures
        s.filter(pred) == s,
    decreases s.len(),
{
    reveal_with_fuel(Seq::filter, 1);
    if s.len() > 0 {
        lemma_filter_all(s.drop_last(), pred);
        assert(pred(s.last()));
        assert(s.drop_last().push(s.last()) =~= s);
    }
}

/// Law: what the memory breakpoints stand for. One on a read (a write) at an address is hit by a
/// read (a write) at that address and by nothing else; one on any access at an address is hit
/// exactly when one on a read there or one on a write there is; one on an address range is hit by
/// any access to an address in the range, and over a single address acts as one on any access
/// at it
pub proof fn lemma_memory_breakpoints<P: StatePredicate>(a: u16, b: u16, event: BreakEvent, addr: u16, s: CpuState)
    ensures
        hits(BreakCondition::<P>::AfterMemoryRead(a), event, addr, s) == (event == BreakEvent::AfterMemoryRead && addr == a),
        hits(BreakCondition::<P>::AfterMemoryWrite(a), event, addr, s) == (event == BreakEvent::AfterMemoryWrite && addr == a),
        hits(BreakCondition::<P>::AfterMemoryAccess(a), event, addr, s)
            == (hits(BreakCondition::<P>::AfterMemoryRead(a), event, addr, s) || hits(BreakCondition::<P>::AfterMemoryWrite(a), event, addr, s)),
        hits(BreakCondition::<P>::AfterMemoryAccessRange(a, b), event, addr, s)
            == ((event == BreakEvent::AfterMemoryRead || event == BreakEvent::AfterMemoryWrite) && a <= addr && addr <= b),
        hits(BreakCondition::<P>::AfterMemoryAccessRange(a, a), event, addr, s)
            == hits(BreakCondition::<P>::AfterMemoryAccess(a), event, addr, s),
{
}

/// Law: the breakpoint that an event hits is the latest one added that the event hits: it is hit,
/// and none after it is; with none hit, no breakpoint is hit
pub proof fn lemma_last_hit<P: StatePredicate>(entries: Seq<BreakpointEntry<P>>, event: BreakEvent, addr: u16, s: CpuState)
    ensures
        last_hit(entries, event, addr, s) matches Some(k) ==> {
            &&& 0 <= k < entries.len()
            &&& hits(entries[k].condition, event, addr, s)
            &&& forall|j: int| k < j < entries.len() ==> !hits(#[trigger] entries[j].condition, event, addr, s)
        },
        last_hit(entries, event, addr, s) is None
            ==> forall|j: int| 0 <= j < entries.len() ==> !hits(#[trigger] entries[j].condition, event, addr, s),
    decreases entries.len(),
{
    if entries.len() > 0 {
        let rest = entries.drop_last();
        lemma_last_hit(rest, event, addr, s);
        assert forall|j: int| 0 <= j < rest.len() implies entries[j] == rest[j] by {}
        if !hits(entries.last().condition, event, addr, s) {
            assert forall|j: int| 0 <= j < entries.len() && (last_hit(entries, event, addr, s) is None
                || j > last_hit(entries, event, addr, s)->0) && j >= 0
                implies !hits(#[trigger] entries[j].condition, event, addr, s) by {
                if j < rest.len() {
                    assert(entries[j] == rest[j]);
                }
            }
        }
    }
}

} // verus!
