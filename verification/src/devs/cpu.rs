use vstd::prelude::*;

use crate::bus::bus_line::BusLine;
use crate::bus::clock::{falling, rising};
use crate::bus::cpu_bus::{Ctrl, CpuBus, IORQ, MREQ, NONE, RD, RFSH, WR};
use crate::bus::identifiable::{Identifiable, Identifier};
use crate::bus::scheduler::TaskYield;
use crate::cpu::decoder::{
    decodes_to, feed_seq, instruction_decoder, lemma_complete_done, report, DecodeState, InstructionDecoder, Stage,
};
use crate::cpu::exec::{
    carried_out, lemma_pre_ops_plain, plain_op, pre_ops, push_ops, w16, count_reads, dec16, execute, executable, Executed, inc16, instr_pre_ops, is_executable, is_read, lemma_n_reads_flags,
    lemma_pre_reads, lemma_reads_concat, lemma_reads_small, n_reads, pop_ops, read_count, reads_by_flags, sub2_16, BusOp,
};
use crate::cpu::instruction::Instruction;
use crate::cpu::flags::{spec_satisfy, Flags};
use crate::cpu::state::{hi, is_register, lemma_word_halves, lo, mkword, spword, word, CpuState};
use crate::cpu::tokens::{Condition, IntMode, Reg, RegPair, Token, TokenType};

verus! {

/// What the CPU does once the bus operations in progress are over
#[derive(Clone, Copy, PartialEq, Eq, Debug, Structural)]
pub enum Cont {
    /// Feed the byte read to the instruction decoder
    Decode,
    /// Read what the decoded instruction needs
    Prepare,
    /// Carry out the decoded instruction with the bytes read
    Execute,
    /// Fetch the next instruction
    NextInstr,
    /// Act on the byte of an interrupt acknowledge cycle
    IntVector,
    /// Jump to the address read from the mode 2 interrupt table
    Im2Vector,
}

/// Machine cycle in progress: the bus operation, its step, the byte read and whether
/// a bus request was seen
#[derive(Clone, Copy, PartialEq, Eq, Debug, Structural)]
pub struct MCycle {
    pub op: BusOp,
    pub step: u8,
    pub byte: u8,
    pub busrq: bool,
}

/// Outcome of one step of a machine cycle
pub enum Step {
    /// Wait for the given clock offset
    Yield(u64),
    /// The cycle is over
    Done,
    /// A bus line could not be driven or sampled
    Fault,
}

/// Z80 CPU
pub struct Cpu {
    id: Identifier,
    /// Registers and interrupt state
    state: CpuState,
    started: bool,
    faulted: bool,
    /// Address of the next instruction byte
    pc: u16,
    decoder: InstructionDecoder,
    upnext: TokenType,
    instr: Instruction,
    /// Bus operations under way, the index of the current one and the bytes read so far
    ops: Vec<BusOp>,
    op_idx: usize,
    fetched: Vec<u8>,
    cont: Cont,
    cycle: Option<MCycle>,
    /// Every instruction carried out so far, oldest first
    history: Ghost<Seq<Executed>>,
    /// Registers when the instruction held was decoded
    start: Ghost<CpuState>,
    /// Bytes fed to the decoder since the instruction began
    fed: Ghost<Seq<u8>>,
    /// Data bus values sampled by the read cycles of the instruction being fetched
    bus_bytes: Ghost<Seq<u8>>,
    /// No registers were set from outside since the last instruction was carried out
    kept: Ghost<bool>,
}

/// Address of a bus operation
pub open spec fn op_addr(op: BusOp) -> u16 {
    match op {
        BusOp::OpcodeRead(a) | BusOp::IntAck(a) | BusOp::MemRead(a) | BusOp::IoRead(a)
        | BusOp::MemWrite(a, _) | BusOp::IoWrite(a, _) => a,
        BusOp::Delay(_) => 0,
    }
}

/// Byte that a bus operation writes
pub open spec fn op_value(op: BusOp) -> u8 {
    match op {
        BusOp::MemWrite(_, v) | BusOp::IoWrite(_, v) => v,
        _ => 0,
    }
}

/// The line is driven by `id` with value `v`
pub open spec fn drives<T>(line: BusLine<T>, id: Identifier, v: T) -> bool {
    line@ == Some((id, v))
}

/// What the CPU puts on the bus at a step of a machine cycle (`byte` being the byte the
/// cycle holds afterwards, `ir` the I and R registers afterwards)
pub open spec fn step_drives(c: MCycle, id: Identifier, before: CpuBus, after: CpuBus, byte: u8, ir: u16) -> bool {
    let ctrl = |bits: u8| after.ctrl@ matches Some((o, v)) && o == id && v.bits == bits;
    match c.step {
        // T1: address out, no request yet, data bus let go; M1 for opcode fetches and acknowledges
        1 => {
            &&& drives(after.addr, id, op_addr(c.op))
            &&& ctrl(NONE)
            &&& !after.data.owner_is(id)
            &&& (c.op is OpcodeRead || c.op is IntAck) ==> drives(after.m1, id, true)
        },
        2 => ctrl(if c.op is IntAck { IORQ } else { MREQ | RD }),
        // T3 of an opcode fetch: the byte is sampled, the refresh address goes out
        5 => {
            &&& before.data@ is Some && byte == before.data@.unwrap().1
            &&& drives(after.addr, id, ir)
            &&& ctrl(RFSH)
            &&& drives(after.m1, id, false)
        },
        6 => ctrl(RFSH | MREQ),
        8 => ctrl(RFSH),
        // T3 of a read: the byte is sampled, the request ends
        10 => {
            &&& before.data@ is Some && byte == before.data@.unwrap().1
            &&& ctrl(NONE)
        },
        11 => drives(after.data, id, op_value(c.op)) && ctrl(MREQ),
        12 => ctrl(MREQ | WR),
        14 => ctrl(NONE),
        15 => ctrl(IORQ | RD),
        16 => drives(after.data, id, op_value(c.op)),
        17 => ctrl(IORQ | WR),
        // Bus granted: address, data and control let go, acknowledged
        21 => {
            &&& drives(after.busak, id, true)
            &&& !after.addr.owner_is(id)
            &&& !after.data.owner_is(id)
            &&& !after.ctrl.owner_is(id)
        },
        23 => drives(after.busak, id, false),
        _ => true,
    }
}

/// The bus lets the CPU carry out the step of machine cycle `c` (or, with no cycle under way,
/// go on between cycles): the lines it drives are free or its own, the data bus is driven
/// where the step samples it, and free or its own where the step drives it
pub open spec fn bus_clear(c: Option<MCycle>, id: Identifier, bus: CpuBus) -> bool {
    &&& bus.addr.can_drive(id)
    &&& bus.ctrl.can_drive(id)
    &&& bus.m1.can_drive(id)
    &&& bus.busak.can_drive(id)
    &&& bus.halt.can_drive(id)
    &&& c matches Some(c) ==> {
        &&& (c.step == 5 || c.step == 10) ==> bus.data@ is Some
        &&& (c.step == 11 || c.step == 16) ==> bus.data.can_drive(id)
    }
}

/// The bytes make up an instruction that the CPU cannot carry out
pub open spec fn refused(bytes: Seq<u8>) -> bool {
    exists|i: Instruction| #[trigger] decodes_to(bytes, i) && !executable(i)
}

/// The bus after is the bus before but for the HALT line
pub open spec fn only_halt(before: CpuBus, after: CpuBus) -> bool {
    after == (CpuBus { halt: after.halt, ..before })
}

/// How the CPU drives the bus in the T-state step of machine cycle `c`: the address, then the
/// request for the read, write or acknowledge; the data bus sampled where the cycle reads, the
/// refresh address and request after an opcode fetch; the bus let go while granted
pub open spec fn step_bus(c: MCycle, id: Identifier, before: CpuBus, after: CpuBus) -> bool {
    let ctrl = |bits: u8| after.ctrl@ matches Some((o, v)) && o == id && v.bits == bits;
    match c.step {
        1 => {
            &&& drives(after.addr, id, op_addr(c.op))
            &&& ctrl(NONE)
            &&& !after.data.owner_is(id)
            &&& (c.op is OpcodeRead || c.op is IntAck) ==> drives(after.m1, id, true)
        },
        2 => ctrl(if c.op is IntAck { IORQ } else { MREQ | RD }),
        5 => {
            &&& before.data@ is Some
            &&& after.addr.owner_is(id)
            &&& ctrl(RFSH)
            &&& drives(after.m1, id, false)
        },
        6 => ctrl(RFSH | MREQ),
        8 => ctrl(RFSH),
        10 => before.data@ is Some && ctrl(NONE),
        11 => drives(after.data, id, op_value(c.op)) && ctrl(MREQ),
        12 => ctrl(MREQ | WR),
        14 => ctrl(NONE),
        15 => ctrl(IORQ | RD),
        16 => drives(after.data, id, op_value(c.op)),
        17 => ctrl(IORQ | WR),
        21 => {
            &&& drives(after.busak, id, true)
            &&& !after.addr.owner_is(id)
            &&& !after.data.owner_is(id)
            &&& !after.ctrl.owner_is(id)
        },
        23 => drives(after.busak, id, false),
        _ => true,
    }
}

proof fn lemma_step_bus(c: MCycle, id: Identifier, before: CpuBus, mid: CpuBus, after: CpuBus, byte: u8, ir: u16)
    requires
        step_drives(c, id, before, mid, byte, ir),
        only_halt(mid, after),
    ensures
        step_bus(c, id, before, after),
{
}

/// R after a refresh: its lower 7 bits count up, wrapping, and its top bit stays
pub open spec fn refreshed(r: u8) -> u8 {
    ((r / 128) * 128 + (r % 128 + 1) % 128) as u8
}

/// The refresh steps of a machine cycle belong to opcode fetches and interrupt acknowledges
pub open spec fn m1_steps(c: MCycle) -> bool {
    5 <= c.step <= 8 ==> (c.op is OpcodeRead || c.op is IntAck)
}

/// Steps of a read cycle that come after the data bus was sampled
pub open spec fn sampled_step(step: u8) -> bool {
    step == 6 || step == 7 || step == 8 || step == 21 || step == 22 || step == 23 || step == 24
}

/// How many bytes an instruction reads depends on the registers through the flags of a
/// conditional return alone
proof fn lemma_reads_kept(s: CpuState, t: CpuState, i: Instruction)
    requires
        !reads_by_flags(i),
    ensures
        n_reads(s, i) == n_reads(t, i),
{
}

fn is_flag_ret(i: &Instruction) -> (b: bool)
    ensures
        b == reads_by_flags(*i),
{
    match i.opcode {
        Token::RET(c) => !matches!(c, Condition::Always),
        _ => false,
    }
}

/// The operations of a conditional return: its internal cycle, then the pop of the address
/// where it returns
pub open spec fn ret_ops(ops: Seq<BusOp>) -> bool {
    ||| ops == seq![BusOp::Delay(1)]
    ||| ops.len() == 3 && ops == seq![BusOp::Delay(1)] + pop_ops(op_addr(ops[1]))
}

proof fn lemma_ret_ops(s: CpuState, i: Instruction)
    requires
        reads_by_flags(i),
    ensures
        ret_ops(pre_ops(s, i)),
        pre_ops(s, i).len() == 3 ==> count_reads(pre_ops(s, i)) == 2,
{
    let none = Seq::<BusOp>::empty();
    let c = match i.opcode { Token::RET(c) => c, _ => Condition::Always };
    if spec_satisfy(s.flags(), c) {
        assert((seq![BusOp::Delay(1)] + pop_ops(s.sp))[1] == BusOp::MemRead(s.sp));
        lemma_reads_small(BusOp::MemRead(s.sp), BusOp::MemRead(w16(s.sp + 1)), BusOp::Delay(1));
        lemma_reads_small(BusOp::Delay(1), BusOp::Delay(1), BusOp::Delay(1));
        lemma_reads_concat(seq![BusOp::Delay(1)], pop_ops(s.sp));
    } else {
        assert(seq![BusOp::Delay(1)] + none =~= seq![BusOp::Delay(1)]);
    }
}

/// Registers once an interrupt pending where an opcode is to be fetched is taken: a
/// non-maskable one turns IFF1 off and makes room for PC on the stack; a maskable one, while
/// IFF1 is on, is acknowledged and turns IFF1 and IFF2 off; with neither they stay
pub open spec fn accept(s: CpuState) -> CpuState {
    if s.nmi {
        CpuState { nmi: false, iff1: false, sp: w16(s.sp - 2), ..s }
    } else if s.int && s.iff1 {
        CpuState { int: false, iff1: false, iff2: false, ..s }
    } else {
        s
    }
}

/// Registers once the fetch of the instruction at `pc` begins
pub open spec fn fetch_regs(s: CpuState, pc: u16) -> CpuState {
    accept(CpuState { pc, ..s })
}

/// First bus operation when an opcode is to be fetched at `pc`: the push of PC for a
/// non-maskable interrupt, the acknowledge of a maskable one, else the opcode read
pub open spec fn fetch_op(s: CpuState, pc: u16) -> BusOp {
    if s.nmi {
        BusOp::MemWrite(w16(s.sp - 1), hi(pc))
    } else if s.int && s.iff1 {
        BusOp::IntAck(pc)
    } else {
        BusOp::OpcodeRead(pc)
    }
}

/// Address of the next byte once an opcode is to be fetched at `pc`: the non-maskable
/// interrupt handler's when that interrupt is taken
pub open spec fn fetch_next(s: CpuState, pc: u16) -> u16 {
    if s.nmi { 0x0066 } else { pc }
}

/// How the CPU goes on from the instruction `e` it has just carried out: with the registers it
/// left and its bus writes queued, the next instruction at its next address; without writes,
/// the fetch of that instruction under way (an interrupt taken first where one is pending)
pub open spec fn goes_on_from(cpu: Cpu, e: Executed) -> bool {
    if e.post.len() > 0 {
        &&& cpu.regs() == e.after
        &&& cpu.next_fetch() == e.next_pc
        &&& cpu.queued_ops() == e.post
        &&& cpu.ops_begun() <= 1
    } else {
        &&& cpu.regs() == fetch_regs(e.after, e.next_pc)
        &&& cpu.bus_cycle() == Some(MCycle { op: fetch_op(e.after, e.next_pc), step: 1, byte: 0, busrq: false })
        &&& cpu.next_fetch() == fetch_next(e.after, e.next_pc)
        &&& e.after.nmi ==> cpu.queued_ops() == push_ops(e.after.sp, e.next_pc)
    }
}

/// How the CPU acts on the byte `b` of an interrupt acknowledge, from registers `r` with the
/// next fetch at `pc`: in mode 1 it pushes PC and goes on at 0x0038; in mode 2 it pushes PC and
/// reads the handler's address from the table entry at I and `b`
pub open spec fn acts_on_vector(r: CpuState, pc: u16, b: u8, after: Cpu) -> bool {
    let v = word(hi(r.ir), b);
    &&& r.im == IntMode::IM1 ==> irq_only(CpuState { sp: w16(r.sp - 2), ..r }, after.regs())
        && after.queued_ops() == push_ops(r.sp, pc) && after.next_fetch() == 0x0038
    &&& r.im == IntMode::IM2 ==> irq_only(CpuState { sp: w16(r.sp - 2), ..r }, after.regs())
        && after.queued_ops() == push_ops(r.sp, pc) + seq![BusOp::MemRead(v), BusOp::MemRead(w16(v + 1))]
        && after.next_fetch() == pc
}

proof fn lemma_irq_only_sp(a: CpuState, m: CpuState, b: CpuState, sp: u16)
    requires
        irq_only(a, m),
        irq_only(CpuState { sp, ..m }, b),
    ensures
        irq_only(CpuState { sp, ..a }, b),
{
}

/// `b` is `a` but for what changes between two instructions without one being carried out: the
/// interrupt state (pending requests, IFF1 and IFF2), SP and PC, which taking an interrupt and
/// starting a fetch change, and the refresh count in R
pub open spec fn same_but_interrupt_state(a: CpuState, b: CpuState) -> bool {
    b == (CpuState {
        int: b.int, nmi: b.nmi, iff1: b.iff1, iff2: b.iff2, sp: b.sp, pc: b.pc, ir: word(hi(a.ir), lo(b.ir)), ..a
    })
}

proof fn lemma_same_but_step(a: CpuState, b: CpuState, c: CpuState)
    requires
        same_but_interrupt_state(a, b),
        c == (CpuState { int: c.int, nmi: c.nmi, ir: c.ir, ..b }),
        hi(c.ir) == hi(b.ir),
    ensures
        same_but_interrupt_state(a, c),
{
    lemma_word_split(c.ir);
    lemma_word_halves(hi(a.ir), lo(b.ir));
}

proof fn lemma_word_split(w: u16)
    ensures
        word(hi(w), lo(w)) == w,
{
    assert(word(hi(w), lo(w)) == w) by (bit_vector)
        requires
            hi(w) == (w / 256) as u8,
            lo(w) == (w % 256) as u8,
            word(hi(w), lo(w)) == ((w / 256) as u8 * 256 + (w % 256) as u8) as u16;
}

/// From T1 of a read cycle to the step that samples the data bus, the address bus holds the
/// address the CPU put out for it (while the CPU runs)
pub open spec fn addr_held(cpu: Cpu, bus: CpuBus) -> bool {
    !cpu.is_faulted() && cpu.bus_cycle() is Some ==> {
        let c = cpu.bus_cycle().unwrap();
        is_read(c.op) && (c.step == 2 || c.step == 3 || c.step == 5 || c.step == 9 || c.step == 10 || c.step == 15)
            ==> bus.addr@ == Some((cpu.spec_cpu_id(), op_addr(c.op)))
    }
}

/// The steps that a read cycle goes through
pub open spec fn valid_step(c: MCycle) -> bool {
    &&& is_read(c.op) ==> (1 <= c.step <= 3 || 5 <= c.step <= 10 || c.step == 15 || 21 <= c.step <= 24)
    &&& (c.op is OpcodeRead || c.op is IntAck) ==> c.step != 9 && c.step != 10 && c.step != 15
}

/// What one resume of the CPU does besides the bus steps and the instructions it carries out.
/// On its first resume, with the bus clear, it drives M1, BUSAK and HALT inactive and starts the
/// first fetch at PC (an interrupt acknowledge where an interrupt is accepted). Between machine
/// cycles it starts one, carries out an instruction or begins an internal cycle, unless it breaks.
/// The T3 step of an opcode fetch counts R up and changes no other register. A read cycle of
/// an instruction fetch keeps the byte it samples from the data bus, which is what the decoder
/// is then fed; other cycles keep those bytes, or clear them as a new instruction begins
pub open spec fn resume_effects(before: Cpu, after: Cpu, bus0: CpuBus, bus1: CpuBus, y: TaskYield) -> bool {
    let id = before.spec_cpu_id();
    let sampling = before.fetching() && before.bus_cycle() is Some
        && (before.bus_cycle().unwrap().step == 5 || before.bus_cycle().unwrap().step == 10);
    &&& after.has_started() == (before.has_started() || !before.is_faulted())
    &&& !before.has_started() && !before.is_faulted() && bus_clear(None, id, bus0) ==> {
        &&& !after.is_faulted()
        &&& drives(bus1.m1, id, false) && drives(bus1.busak, id, false) && drives(bus1.halt, id, false)
        &&& after.bus_cycle() is Some
        &&& !before.regs().nmi ==> after.bus_cycle() == Some(MCycle {
            op: if before.regs().int && before.regs().iff1 { BusOp::IntAck(before.regs().pc) }
                else { BusOp::OpcodeRead(before.regs().pc) },
            step: 1,
            byte: 0,
            busrq: false,
        })
    }
    &&& before.has_started() && !before.is_faulted() && before.bus_cycle() is None && y is Wait
        ==> after.bus_cycle() is Some || after.executed() != before.executed() || after.began_delay(&before)
    &&& !after.is_faulted() && before.bus_cycle() is Some && before.bus_cycle().unwrap().step == 5
        ==> after.regs() == (CpuState { ir: word(hi(before.regs().ir), refreshed(lo(before.regs().ir))), ..before.regs() })
    &&& after.executed() != before.executed() && !after.is_faulted() ==> goes_on_from(after, after.executed().last())
        && after.regs_kept()
    &&& after.executed() == before.executed() ==> after.regs_kept() == before.regs_kept()
    &&& !after.is_faulted() && before.acknowledging() && before.bus_cycle() is Some && before.bus_cycle().unwrap().op is IntAck
        && (after.bus_cycle() is None || after.bus_cycle().unwrap().step == 1)
        ==> acts_on_vector(before.regs(), before.next_fetch(), before.bus_cycle().unwrap().byte, after)
    &&& !after.is_faulted() && before.vectoring() && before.bus_cycle() is Some
        && before.bus_cycle().unwrap().op is MemRead && sampled_step(before.bus_cycle().unwrap().step)
        && before.ops_begun() + 1 == before.queued_ops().len()
        && (after.bus_cycle() is None || after.bus_cycle().unwrap().step == 1)
        ==> after.regs().pc == word(before.bus_cycle().unwrap().byte, before.operand_bytes()[0])
    &&& !after.is_faulted() && sampling ==> after.bus_bytes() == before.bus_bytes().push(bus0.data@.unwrap().1)
    &&& !after.is_faulted() && !sampling ==> after.bus_bytes() == before.bus_bytes()
        || (after.bus_bytes() == Seq::<u8>::empty() && after.instr_bytes() == Seq::<u8>::empty())
}

/// `b` is `a` but for the pending interrupt flags
pub open spec fn irq_only(a: CpuState, b: CpuState) -> bool {
    b == (CpuState { int: b.int, nmi: b.nmi, ..a })
}

impl Identifiable for Cpu {
    open spec fn spec_id(&self) -> Identifier {
        self.spec_cpu_id()
    }

    fn id(&self) -> (r: Identifier) {
        self.id
    }
}

impl Cpu {

    pub closed spec fn spec_cpu_id(&self) -> Identifier {
        self.id
    }

    /// Registers and interrupt state
    pub closed spec fn regs(&self) -> CpuState {
        self.state
    }

    /// Registers and interrupt state
    pub fn state(&self) -> (r: CpuState)
        ensures
            r == self.regs(),
    {
        self.state
    }

    /// Replace the registers and interrupt state, at any time
    pub fn set_state(&mut self, state: CpuState)
        requires
            old(self).wf(),
        ensures
            final(self).wf(),
            final(self).regs() == state,
            final(self).decoded_regs() == state,
            !final(self).regs_kept(),
            final(self).spec_cpu_id() == old(self).spec_cpu_id(),
            final(self).is_faulted() == old(self).is_faulted(),
            final(self).at_break() == old(self).at_break(),
            final(self).reading_operands() == old(self).reading_operands(),
            final(self).holds_decoded() == old(self).holds_decoded(),
            final(self).current_instr() == old(self).current_instr(),
            final(self).bus_cycle() == old(self).bus_cycle(),
            final(self).executed() == old(self).executed(),
    {
        self.take_regs(state);
    }

    /// Take registers set from outside. A conditional return that has not begun to pop decides
    /// again by them whether it pops; one that has begun returns by what it pops
    fn take_regs(&mut self, state: CpuState)
        requires
            old(self).wf(),
        ensures
            final(self).wf(),
            final(self).state == state,
            final(self).start@ == state,
            !final(self).kept@,
            final(self).id == old(self).id,
            final(self).faulted == old(self).faulted,
            final(self).cycle == old(self).cycle,
            final(self).cont == old(self).cont,
            final(self).instr == old(self).instr,
            final(self).history == old(self).history,
            final(self).op_idx == old(self).op_idx,
            final(self).ops@.len() == old(self).ops@.len() || old(self).cont is Execute,
    {
        self.state = state;
        self.start = Ghost(state);
        self.kept = Ghost(false);
        if matches!(self.cont, Cont::Execute) && self.cycle.is_none() && self.op_idx <= 1 && is_flag_ret(&self.instr) {
            let ops = instr_pre_ops(&self.state, &self.instr);
            proof {
                lemma_pre_reads(state, self.instr);
                lemma_pre_ops_plain(state, self.instr);
                lemma_ret_ops(state, self.instr);
                assert(ops@.subrange(0, self.op_idx as int) =~= self.ops@.subrange(0, self.op_idx as int));
            }
            self.ops = ops;
        } else {
            proof {
                if self.cont is Execute {
                    if reads_by_flags(self.instr) {
                        lemma_reads_small(BusOp::Delay(1), BusOp::Delay(1), BusOp::Delay(1));
                        if self.ops@.len() == 3 {
                            let x = op_addr(self.ops@[1]);
                            lemma_reads_small(BusOp::MemRead(x), BusOp::MemRead(w16(x + 1)), BusOp::Delay(1));
                            lemma_reads_concat(seq![BusOp::Delay(1)], pop_ops(x));
                        } else {
                            assert(self.ops@ == seq![BusOp::Delay(1)]);
                        }
                    } else {
                        lemma_reads_kept(state, old(self).state, self.instr);
                    }
                }
            }
        }
    }

    /// The operands of the instruction held are being read from the bus
    pub closed spec fn reading_operands(&self) -> bool {
        self.cont is Execute
    }

    /// Whether the operands of the instruction held are being read from the bus
    pub fn is_reading_operands(&self) -> (r: bool)
        ensures
            r == self.reading_operands(),
    {
        matches!(self.cont, Cont::Execute)
    }

    /// Between two instructions, or between the decoding of an instruction and its execution:
    /// no bus operation is under way
    pub closed spec fn at_break(&self) -> bool {
        &&& self.cycle is None
        &&& self.op_idx == self.ops.len()
        &&& (self.cont is Prepare || self.cont is NextInstr)
    }

    /// Whether the CPU is between two instructions, or has decoded one and not yet started it
    pub fn is_at_break(&self) -> (r: bool)
        ensures
            r == self.at_break(),
    {
        self.cycle.is_none() && self.op_idx == self.ops.len() && matches!(self.cont, Cont::Prepare | Cont::NextInstr)
    }

    /// The CPU has met a bus it cannot work with (a line that another device drives,
    /// or a floating data bus where it reads) and stopped
    pub closed spec fn is_faulted(&self) -> bool {
        self.faulted
    }

    /// Internal consistency of the instruction engine
    pub closed spec fn wf(&self) -> bool {
        &&& self.op_idx <= self.ops.len()
        &&& self.fetched.len() == count_reads(self.ops@.subrange(0, self.op_idx as int))
        &&& (self.cycle matches Some(c) ==> {
            &&& self.op_idx < self.ops.len()
            &&& c.op == self.ops@[self.op_idx as int]
            &&& !(c.op is Delay)
        })
        &&& (self.cont is Execute ==> executable(self.instr) && (count_reads(self.ops@) == n_reads(self.state, self.instr)
            || reads_by_flags(self.instr) && count_reads(self.ops@) == 2))
        &&& (self.cont is Execute && reads_by_flags(self.instr) ==> ret_ops(self.ops@))
        &&& (self.cont is Prepare ==> executable(self.instr))
        &&& (self.cont is Decode || self.cont is IntVector ==> count_reads(self.ops@) == 1)
        &&& (self.cont is Im2Vector ==> count_reads(self.ops@) == 2)
        &&& forall|i: int| 0 <= i < self.history@.len() ==> carried_out(#[trigger] self.history@[i])
        &&& (self.cycle matches Some(c) ==> m1_steps(c) && valid_step(c))
        &&& (self.cont is Execute ==> forall|k: int| 0 <= k < self.ops@.len() ==> plain_op(#[trigger] self.ops@[k]))
        &&& (self.cont is Prepare ==> self.start@ == self.state && self.ops@.len() == 0)
        &&& (self.cont is Execute ==> irq_only(self.start@, self.state))
        &&& (!self.started ==> self.cont is NextInstr && self.cycle is None && self.op_idx == self.ops.len())
        &&& (self.cont is Decode || self.cont is IntVector ==> !self.decoder.is_done())
        &&& self.decoder == feed_seq(self.fed@)
        &&& forall|k: int| 0 <= k < self.fed@.len() - 1 ==> report(self.fed@, k) is Yielded
        &&& (self.holds_decoded() ==> decodes_to(self.fed@, self.instr))
        &&& (self.fetching() ==> {
            &&& self.ops@.len() == 1 && is_read(self.ops@[0])
            &&& self.bus_bytes@ == match self.cycle {
                Some(c) => if sampled_step(c.step) { self.fed@.push(c.byte) } else { self.fed@ },
                None => if self.op_idx == 1 { self.fed@.push(self.fetched@[0]) } else { self.fed@ },
            }
        })
        &&& (self.holds_decoded() ==> self.bus_bytes@ == self.fed@)
        &&& (self.kept@ && self.history@.len() > 0 ==> same_but_interrupt_state(self.history@.last().after, self.state))
        &&& (self.kept@ && self.history@.len() > 0 && self.holds_decoded()
            ==> same_but_interrupt_state(self.history@.last().after, self.start@))
    }

    /// No registers were set from outside since the last instruction was carried out
    pub closed spec fn regs_kept(&self) -> bool {
        self.kept@
    }

    /// Law: the registers an instruction is decoded with are those the instruction before it
    /// left, unless they were set from outside meanwhile, but for the interrupt state, SP and PC
    /// (which an interrupt taken in between and the fetch change) and the refresh count in R
    pub proof fn lemma_decoded_after_last(&self)
        requires
            self.wf(),
            self.holds_decoded(),
            self.executed().len() > 0,
            self.regs_kept(),
        ensures
            same_but_interrupt_state(self.executed().last().after, self.decoded_regs()),
    {
    }

    /// The CPU is fetching the bytes of an instruction (or the byte of an interrupt acknowledge)
    pub closed spec fn fetching(&self) -> bool {
        self.cont is Decode || self.cont is IntVector
    }

    /// Data bus values that the read cycles of the instruction being fetched sampled, in order
    pub closed spec fn bus_bytes(&self) -> Seq<u8> {
        self.bus_bytes@
    }

    /// The CPU has taken hold of its output lines
    pub closed spec fn has_started(&self) -> bool {
        self.started
    }

    /// The CPU acknowledges an interrupt and acts on the byte it reads
    pub closed spec fn acknowledging(&self) -> bool {
        self.cont is IntVector
    }

    /// The CPU reads the handler's address from the mode 2 interrupt table
    pub closed spec fn vectoring(&self) -> bool {
        self.cont is Im2Vector
    }

    /// Address of the next byte of the instruction stream to fetch
    pub closed spec fn next_fetch(&self) -> u16 {
        self.pc
    }

    /// Bus operations of the sequence under way, the first `ops_begun` of them begun
    pub closed spec fn queued_ops(&self) -> Seq<BusOp> {
        self.ops@
    }

    /// How many of the queued bus operations have begun
    pub closed spec fn ops_begun(&self) -> nat {
        self.op_idx as nat
    }

    /// Bytes read by the bus operations under way so far
    pub closed spec fn operand_bytes(&self) -> Seq<u8> {
        self.fetched@
    }

    /// Since `before`, the CPU has begun an internal cycle, during which it leaves the bus alone
    pub closed spec fn began_delay(&self, before: &Cpu) -> bool {
        &&& self.cycle is None
        &&& 0 < self.op_idx <= self.ops@.len()
        &&& self.ops@[self.op_idx - 1] is Delay
        &&& (self.ops@ != before.ops@ || self.op_idx > before.op_idx)
    }

    /// The decoder is fed the bytes sampled from the data bus, in the order they were read: all of
    /// them while an instruction is fetched but the one whose cycle is still under way, and all of
    /// them once it is decoded
    pub proof fn lemma_fed_from_bus(&self)
        requires
            self.wf(),
        ensures
            self.holds_decoded() ==> self.instr_bytes() == self.bus_bytes(),
            self.fetching() ==> self.bus_bytes() == self.instr_bytes()
                || self.bus_bytes() == self.instr_bytes().push(self.bus_bytes().last()),
            self.fetching() && self.bus_cycle() is Some ==> is_read(self.bus_cycle().unwrap().op),
    {
    }

    /// Bytes that the instruction held was decoded from, or that the decoder has been fed
    /// since the instruction began
    pub closed spec fn instr_bytes(&self) -> Seq<u8> {
        self.fed@
    }

    /// The instruction held is the one its bytes decode to
    pub proof fn lemma_decoded_from_bytes(&self)
        requires
            self.wf(),
            self.holds_decoded(),
        ensures
            decodes_to(self.instr_bytes(), self.current_instr()),
    {
    }

    /// An instruction is decoded and not yet carried out
    pub closed spec fn holds_decoded(&self) -> bool {
        self.cont is Prepare || self.cont is Execute
    }

    /// Registers when the instruction held was decoded
    pub closed spec fn decoded_regs(&self) -> CpuState {
        self.start@
    }

    /// At a break after decoding, the registers are those the instruction was decoded with
    pub proof fn lemma_break_regs(&self)
        requires
            self.wf(),
            self.at_break(),
            self.holds_decoded(),
        ensures
            self.decoded_regs() == self.regs(),
    {
    }

    /// Every instruction carried out so far, oldest first
    pub closed spec fn executed(&self) -> Seq<Executed> {
        self.history@
    }

    /// The machine cycle in progress, if any
    pub closed spec fn bus_cycle(&self) -> Option<MCycle> {
        self.cycle
    }

    /// The instruction last decoded, carried out once its operands are read
    pub closed spec fn current_instr(&self) -> Instruction {
        self.instr
    }

    /// Every instruction that the CPU carries out changes its registers, picks the next
    /// address and queues its bus writes as `execute` specifies, from the bytes it read
    pub proof fn lemma_executed_as_specified(&self)
        requires
            self.wf(),
        ensures
            forall|i: int| 0 <= i < self.executed().len() ==> carried_out(#[trigger] self.executed()[i]),
    {
    }

    /// Create new CPU instance
    pub fn new(id: Identifier) -> (r: Cpu)
        ensures
            r.wf(),
            r.spec_cpu_id() == id,
            r.regs() == CpuState::reset(),
            r.at_break(),
            !r.is_faulted(),
            r.executed() == Seq::<Executed>::empty(),
            !r.has_started(),
            r.bus_bytes() == Seq::<u8>::empty(),
            r.bus_cycle() is None,
    {
        let c = Cpu {
            id,
            state: CpuState::new(),
            started: false,
            faulted: false,
            pc: 0,
            decoder: instruction_decoder(),
            upnext: TokenType::Opcode,
            instr: Instruction { opcode: Token::NOP, displacement: None, data: None },
            ops: Vec::new(),
            op_idx: 0,
            fetched: Vec::new(),
            cont: Cont::NextInstr,
            cycle: None,
            history: Ghost(Seq::empty()),
            start: Ghost(CpuState::reset()),
            fed: Ghost(Seq::empty()),
            bus_bytes: Ghost(Seq::empty()),
            kept: Ghost(true),
        };
        assert(c.ops@.subrange(0, 0) =~= Seq::<BusOp>::empty());
        c
    }

    /// Get the value of an 8-bit register
    pub fn rg(&self, reg: Reg) -> (r: u8)
        requires
            is_register(reg),
        ensures
            r == self.regs().reg(reg),
    {
        self.state.rg(reg)
    }

    /// Get the value of a register pair
    pub fn rp(&self, rpair: RegPair) -> (r: u16)
        ensures
            r == self.regs().rpair(rpair),
    {
        self.state.rp(rpair)
    }

    /// Get CPU flags
    pub fn get_flags(&self) -> (r: Flags)
        ensures
            r.bits == self.regs().flags(),
    {
        self.state.get_flags()
    }

    /// Set CPU flags, at any time
    pub fn set_flags(&mut self, flags: Flags)
        requires
            old(self).wf(),
        ensures
            final(self).wf(),
            final(self).at_break() == old(self).at_break(),
            final(self).reading_operands() == old(self).reading_operands(),
            final(self).decoded_regs() == final(self).regs(),
            !final(self).regs_kept(),
            final(self).holds_decoded() == old(self).holds_decoded(),
            final(self).current_instr() == old(self).current_instr(),
            final(self).bus_cycle() == old(self).bus_cycle(),
            final(self).regs() == old(self).regs().with_reg(Reg::F, flags.bits),
            final(self).spec_cpu_id() == old(self).spec_cpu_id(),
            final(self).executed() == old(self).executed(),
    {
        let mut state = self.state;
        state.set_flags(flags);
        self.take_regs(state);
    }

    /// Program counter of the instruction being fetched or carried out
    pub fn program_counter(&self) -> (r: u16)
        ensures
            r == self.regs().pc,
    {
        self.state.pc
    }

    fn fault(&mut self) -> (y: TaskYield)
        requires
            old(self).wf(),
        ensures
            final(self).wf(),
            final(self).is_faulted(),
            final(self).id == old(self).id,
            final(self).history == old(self).history,
            final(self).start == old(self).start,
            final(self).fed == old(self).fed,
            final(self).bus_bytes == old(self).bus_bytes,
            final(self).kept == old(self).kept,
            final(self).decoder == old(self).decoder,
            final(self).started == old(self).started,
            y == TaskYield::Break,
            final(self).cycle == old(self).cycle,
    {
        self.faulted = true;
        TaskYield::Break
    }

    /// Start a new sequence of bus operations, to be followed by `cont`
    fn set_ops(&mut self, ops: Vec<BusOp>, cont: Cont)
        requires
            old(self).started,
            old(self).cycle is None,
        ensures
            final(self).ops@ == ops@,
            final(self).op_idx == 0,
            final(self).fetched@ == Seq::<u8>::empty(),
            final(self).cont == cont,
            final(self).cycle is None,
            final(self).state == old(self).state,
            final(self).instr == old(self).instr,
            final(self).faulted == old(self).faulted,
            final(self).started == old(self).started,
            final(self).id == old(self).id,
            final(self).history == old(self).history,
            final(self).start == old(self).start,
            final(self).fed == old(self).fed,
            final(self).bus_bytes == old(self).bus_bytes,
            final(self).kept == old(self).kept,
            final(self).pc == old(self).pc,
            final(self).decoder == old(self).decoder,
            final(self).upnext == old(self).upnext,
    {
        self.ops = ops;
        self.op_idx = 0;
        self.fetched = Vec::new();
        self.cont = cont;
        assert(self.ops@.subrange(0, 0) =~= Seq::<BusOp>::empty());
    }

    /// Set INT & NMI flags from the bus lines
    fn probe_interrupts(&mut self, bus: &CpuBus)
        ensures
            final(self).state == (CpuState {
                nmi: old(self).state.nmi || bus.nmi@ == Some((bus.nmi@.unwrap().0, true)),
                int: old(self).state.int || bus.int@ == Some((bus.int@.unwrap().0, true)),
                ..old(self).state
            }),
            final(self).id == old(self).id,
            final(self).history == old(self).history,
            final(self).start == old(self).start,
            final(self).fed == old(self).fed,
            final(self).bus_bytes == old(self).bus_bytes,
            final(self).kept == old(self).kept,
            final(self).decoder == old(self).decoder,
            final(self).started == old(self).started,
            final(self).faulted == old(self).faulted,
            final(self).ops == old(self).ops,
            final(self).op_idx == old(self).op_idx,
            final(self).fetched == old(self).fetched,
            final(self).pc == old(self).pc,
            final(self).cont == old(self).cont,
            final(self).cycle == old(self).cycle,
            final(self).instr == old(self).instr,
    {
        if let Some(true) = bus.nmi.probe() {
            self.state.nmi = true;
        }
        if let Some(true) = bus.int.probe() {
            self.state.int = true;
        }
    }

    /// Increment the lower 7 bits of R, keeping its top bit
    fn refresh_r(&mut self)
        ensures
            final(self).state == (CpuState {
                ir: final(self).state.ir,
                ..old(self).state
            }),
            final(self).state.ir == word(hi(old(self).state.ir), refreshed(lo(old(self).state.ir))),
            final(self).id == old(self).id,
            final(self).history == old(self).history,
            final(self).start == old(self).start,
            final(self).fed == old(self).fed,
            final(self).bus_bytes == old(self).bus_bytes,
            final(self).kept == old(self).kept,
            final(self).decoder == old(self).decoder,
            final(self).started == old(self).started,
            final(self).faulted == old(self).faulted,
            final(self).ops == old(self).ops,
            final(self).op_idx == old(self).op_idx,
            final(self).fetched == old(self).fetched,
            final(self).pc == old(self).pc,
            final(self).cont == old(self).cont,
            final(self).cycle == old(self).cycle,
            final(self).instr == old(self).instr,
    {
        let (i, r) = spword(self.state.ir);
        let r2 = (((r & 0x7f) as u16 + 1) as u8 & 0x7f) | (r & 0x80);
        assert(r2 == (r / 128) * 128 + (r % 128 + 1) % 128) by (bit_vector)
            requires r2 == (((r & 0x7f) as u16 + 1) as u8 & 0x7f) | (r & 0x80);
        self.state.ir = mkword(i, r2);
    }

    /// Wait-state check: wait a falling edge while WAIT is asserted, then go on to the
    /// rising edge of the next T-state
    fn wait_or_rise(&mut self, bus: &CpuBus, h: u64, next: u8) -> (r: Step)
        requires
            old(self).cycle is Some,
            5 <= next <= 8 ==> m1_steps(MCycle { step: next, ..old(self).cycle.unwrap() }),
            next != 3,
        ensures
            r matches Step::Yield(off) && off > 0,
            final(self).cycle is Some,
            final(self).cycle.unwrap().op == old(self).cycle.unwrap().op,
            final(self).cycle.unwrap().step == 3 || final(self).cycle.unwrap().step == next,
            final(self).state == old(self).state,
            final(self).id == old(self).id,
            final(self).history == old(self).history,
            final(self).start == old(self).start,
            final(self).fed == old(self).fed,
            final(self).bus_bytes == old(self).bus_bytes,
            final(self).kept == old(self).kept,
            final(self).decoder == old(self).decoder,
            final(self).started == old(self).started,
            final(self).faulted == old(self).faulted,
            final(self).ops == old(self).ops,
            final(self).op_idx == old(self).op_idx,
            final(self).fetched == old(self).fetched,
            final(self).pc == old(self).pc,
            final(self).cont == old(self).cont,
            final(self).instr == old(self).instr,
    {
        let mut c = self.cycle.unwrap();
        if let Some(true) = bus.wait.probe() {
            c.step = 3;
            self.cycle = Some(c);
            Step::Yield(falling(h, 1))
        } else {
            c.step = next;
            self.cycle = Some(c);
            Step::Yield(rising(h, 1))
        }
    }

    /// End of a machine cycle: grant the bus if it was requested, else the cycle is over
    fn finish_cycle(&mut self, h: u64) -> (r: Step)
        requires
            old(self).cycle is Some,
        ensures
            !(r is Fault),
            r matches Step::Yield(off) ==> off > 0,
            final(self).cycle is Some,
            final(self).cycle.unwrap().op == old(self).cycle.unwrap().op,
            final(self).cycle.unwrap().byte == old(self).cycle.unwrap().byte,
            final(self).cycle.unwrap().step == 21 || final(self).cycle == old(self).cycle,
            final(self).state == old(self).state,
            final(self).id == old(self).id,
            final(self).history == old(self).history,
            final(self).start == old(self).start,
            final(self).fed == old(self).fed,
            final(self).bus_bytes == old(self).bus_bytes,
            final(self).kept == old(self).kept,
            final(self).decoder == old(self).decoder,
            final(self).started == old(self).started,
            final(self).faulted == old(self).faulted,
            final(self).ops == old(self).ops,
            final(self).op_idx == old(self).op_idx,
            final(self).fetched == old(self).fetched,
            final(self).pc == old(self).pc,
            final(self).cont == old(self).cont,
            final(self).instr == old(self).instr,
    {
        let mut c = self.cycle.unwrap();
        if c.busrq {
            c.step = 21;
            self.cycle = Some(c);
            Step::Yield(rising(h, 1))
        } else {
            Step::Done
        }
    }

    /// One step of the machine cycle in progress
    #[verifier::spinoff_prover]
    #[verifier::rlimit(100)]
    fn cycle_step(&mut self, bus: &mut CpuBus, h: u64) -> (r: Step)
        requires
            old(self).cycle is Some,
            m1_steps(old(self).cycle.unwrap()),
            valid_step(old(self).cycle.unwrap()),
        ensures
            m1_steps(final(self).cycle.unwrap()),
            valid_step(final(self).cycle.unwrap()),
            !(old(self).cycle.unwrap().op is OpcodeRead || old(self).cycle.unwrap().op is IntAck)
                ==> irq_only(old(self).state, final(self).state),
            r matches Step::Yield(off) ==> off > 0,
            final(self).cycle is Some && final(self).cycle.unwrap().op == old(self).cycle.unwrap().op,
            final(self).state.af == old(self).state.af,
            final(self).id == old(self).id,
            final(self).history == old(self).history,
            final(self).start == old(self).start,
            final(self).fed == old(self).fed,
            final(self).bus_bytes@ == if !(r is Fault) && (old(self).cycle.unwrap().step == 5 || old(self).cycle.unwrap().step == 10)
                && (old(self).cont is Decode || old(self).cont is IntVector) {
                old(self).bus_bytes@.push(final(self).cycle.unwrap().byte)
            } else {
                old(self).bus_bytes@
            },
            is_read(old(self).cycle.unwrap().op) && !(r is Fault) ==> (sampled_step(final(self).cycle.unwrap().step)
                <==> (sampled_step(old(self).cycle.unwrap().step) || old(self).cycle.unwrap().step == 5
                    || old(self).cycle.unwrap().step == 10)),
            sampled_step(old(self).cycle.unwrap().step) ==> final(self).cycle.unwrap().byte == old(self).cycle.unwrap().byte,
            r is Done && is_read(old(self).cycle.unwrap().op) ==> sampled_step(final(self).cycle.unwrap().step),
            old(self).cycle.unwrap().step == 5 && !(r is Fault) ==> r is Yield && final(self).state == (CpuState {
                ir: word(hi(old(self).state.ir), refreshed(lo(old(self).state.ir))), ..old(self).state }),
            final(self).decoder == old(self).decoder,
            final(self).started == old(self).started,
            final(self).faulted == old(self).faulted,
            final(self).ops == old(self).ops,
            final(self).op_idx == old(self).op_idx,
            final(self).fetched == old(self).fetched,
            final(self).pc == old(self).pc,
            final(self).cont == old(self).cont,
            final(self).instr == old(self).instr,
            old(bus).respected_by(final(bus), old(self).id),
            !(r is Fault) ==> step_drives(old(self).cycle.unwrap(), old(self).id, *old(bus), *final(bus),
                final(self).cycle.unwrap().byte, final(self).state.ir),
            bus_clear(old(self).cycle, old(self).id, *old(bus)) ==> !(r is Fault),
            final(bus).halt == old(bus).halt,
            r is Fault ==> final(self).cycle == old(self).cycle,
            final(self).kept == old(self).kept,
            final(self).state == (CpuState { int: final(self).state.int, nmi: final(self).state.nmi, ir: final(self).state.ir, ..old(self).state }),
            hi(final(self).state.ir) == hi(old(self).state.ir),
            old(self).cycle.unwrap().step != 5 ==> irq_only(old(self).state, final(self).state),
            !(r is Fault) ==> final(self).cycle.unwrap().step != 1,
            final(self).pc == old(self).pc,
            !(old(self).cycle.unwrap().step == 1 || old(self).cycle.unwrap().step == 5 || old(self).cycle.unwrap().step == 21)
                ==> final(bus).addr == old(bus).addr,
    {
        let id = self.id;
        let mut c = self.cycle.unwrap();
        let (addr, value) = match c.op {
            BusOp::OpcodeRead(a) | BusOp::IntAck(a) | BusOp::MemRead(a) | BusOp::IoRead(a) => (a, 0u8),
            BusOp::MemWrite(a, v) | BusOp::IoWrite(a, v) => (a, v),
            BusOp::Delay(_) => (0, 0),
        };
        match c.step {
            // T1 rising: put the address out
            1 => {
                bus.data.release(id);
                if !bus.addr.try_drive(id, addr) || !bus.ctrl.try_drive(id, Ctrl::new(NONE)) {
                    return Step::Fault;
                }
                match c.op {
                    BusOp::OpcodeRead(_) | BusOp::IntAck(_) => {
                        if !bus.m1.try_drive(id, true) {
                            return Step::Fault;
                        }
                        let ack = matches!(c.op, BusOp::IntAck(_));
                        c.step = 2;
                        self.cycle = Some(c);
                        Step::Yield(falling(h, if ack { 3 } else { 1 }))
                    },
                    BusOp::MemRead(_) => {
                        c.step = 2;
                        self.cycle = Some(c);
                        Step::Yield(falling(h, 1))
                    },
                    BusOp::MemWrite(_, _) => {
                        c.step = 11;
                        self.cycle = Some(c);
                        Step::Yield(falling(h, 1))
                    },
                    BusOp::IoRead(_) => {
                        c.step = 15;
                        self.cycle = Some(c);
                        Step::Yield(rising(h, 1))
                    },
                    _ => {
                        c.step = 16;
                        self.cycle = Some(c);
                        Step::Yield(falling(h, 1))
                    },
                }
            },
            // Request memory read (or IO for an interrupt acknowledge)
            2 => {
                let bits = if matches!(c.op, BusOp::IntAck(_)) { IORQ } else { MREQ | RD };
                if !bus.ctrl.try_drive(id, Ctrl::new(bits)) {
                    return Step::Fault;
                }
                c.step = 3;
                self.cycle = Some(c);
                Step::Yield(falling(h, 1))
            },
            // Wait states
            3 => {
                let next = match c.op {
                    BusOp::OpcodeRead(_) | BusOp::IntAck(_) => 5u8,
                    BusOp::MemRead(_) | BusOp::IoRead(_) => 9u8,
                    _ => 13u8,
                };
                self.wait_or_rise(bus, h, next)
            },
            // T3 rising of an opcode fetch: sample the data, then refresh
            5 => {
                let byte = match bus.data.probe() {
                    Some(b) => b,
                    None => { return Step::Fault; },
                };
                c.byte = byte;
                self.refresh_r();
                let ir = self.state.ir;
                if !bus.addr.try_drive(id, ir) || !bus.ctrl.try_drive(id, Ctrl::new(RFSH)) || !bus.m1.try_drive(id, false) {
                    return Step::Fault;
                }
                c.step = 6;
                self.cycle = Some(c);
                proof {
                    if self.cont is Decode || self.cont is IntVector {
                        self.bus_bytes@ = self.bus_bytes@.push(byte);
                    }
                }
                Step::Yield(falling(h, 1))
            },
            6 => {
                if !bus.ctrl.try_drive(id, Ctrl::new(RFSH | MREQ)) {
                    return Step::Fault;
                }
                c.step = 7;
                self.cycle = Some(c);
                Step::Yield(rising(h, 1))
            },
            // T4 rising: sample bus request and interrupts
            7 => {
                c.busrq = matches!(bus.busrq.probe(), Some(true));
                self.probe_interrupts(bus);
                c.step = 8;
                self.cycle = Some(c);
                Step::Yield(falling(h, 1))
            },
            8 => {
                if !bus.ctrl.try_drive(id, Ctrl::new(RFSH)) {
                    return Step::Fault;
                }
                self.finish_cycle(h)
            },
            // T3 rising of a read or write: sample bus request and interrupts
            9 | 13 => {
                c.busrq = matches!(bus.busrq.probe(), Some(true));
                self.probe_interrupts(bus);
                c.step = if c.step == 9 { 10 } else { 14 };
                self.cycle = Some(c);
                Step::Yield(falling(h, 1))
            },
            // T3 falling of a read: sample the data
            10 => {
                let byte = match bus.data.probe() {
                    Some(b) => b,
                    None => { return Step::Fault; },
                };
                if !bus.ctrl.try_drive(id, Ctrl::new(NONE)) {
                    return Step::Fault;
                }
                c.byte = byte;
                c.step = 24;
                self.cycle = Some(c);
                proof {
                    if self.cont is Decode || self.cont is IntVector {
                        self.bus_bytes@ = self.bus_bytes@.push(byte);
                    }
                }
                self.finish_cycle(h)
            },
            // Memory write: data out, then MREQ
            11 => {
                if !bus.data.try_drive(id, value) || !bus.ctrl.try_drive(id, Ctrl::new(MREQ)) {
                    return Step::Fault;
                }
                c.step = 12;
                self.cycle = Some(c);
                Step::Yield(falling(h, 1))
            },
            12 => {
                if !bus.ctrl.try_drive(id, Ctrl::new(MREQ | WR)) {
                    return Step::Fault;
                }
                self.wait_or_rise(bus, h, 13)
            },
            14 => {
                if !bus.ctrl.try_drive(id, Ctrl::new(NONE)) {
                    return Step::Fault;
                }
                self.finish_cycle(h)
            },
            // IO read request
            15 => {
                if !bus.ctrl.try_drive(id, Ctrl::new(IORQ | RD)) {
                    return Step::Fault;
                }
                c.step = 3;
                self.cycle = Some(c);
                Step::Yield(falling(h, 2))
            },
            // IO write: data out
            16 => {
                if !bus.data.try_drive(id, value) {
                    return Step::Fault;
                }
                c.step = 17;
                self.cycle = Some(c);
                Step::Yield(rising(h, 1))
            },
            17 => {
                if !bus.ctrl.try_drive(id, Ctrl::new(IORQ | WR)) {
                    return Step::Fault;
                }
                c.step = 3;
                self.cycle = Some(c);
                Step::Yield(falling(h, 2))
            },
            // Bus granted: lines to high impedance, acknowledge
            21 => {
                bus.data.release(id);
                bus.addr.release(id);
                bus.ctrl.release(id);
                if !bus.busak.try_drive(id, true) {
                    return Step::Fault;
                }
                if let Some(true) = bus.busrq.probe() {
                    c.step = 22;
                    self.cycle = Some(c);
                    Step::Yield(rising(h, 1))
                } else {
                    c.step = 23;
                    self.cycle = Some(c);
                    Step::Yield(falling(h, 1))
                }
            },
            // Bus request still held
            22 => {
                if let Some(true) = bus.busrq.probe() {
                    Step::Yield(rising(h, 1))
                } else {
                    c.step = 23;
                    self.cycle = Some(c);
                    Step::Yield(falling(h, 1))
                }
            },
            // Bus released: take it back
            _ => {
                if !bus.busak.try_drive(id, false) {
                    return Step::Fault;
                }
                Step::Done
            },
        }
    }
}


/// Feeding one more byte to a decoder that has asked for it: each earlier byte asked for more,
/// and the new one is reported on as the decoder's next step says
proof fn lemma_feed_more(fed: Seq<u8>, byte: u8)
    requires
        forall|k: int| 0 <= k < fed.len() - 1 ==> report(fed, k) is Yielded,
        !feed_seq(fed).is_done(),
    ensures
        feed_seq(fed.push(byte)) == feed_seq(fed).next(byte).0,
        forall|k: int| 0 <= k < fed.len() ==> report(fed.push(byte), k) is Yielded,
        report(fed.push(byte), fed.len() as int) == feed_seq(fed).next(byte).1,
{
    let n = fed.len() as int;
    let more = fed.push(byte);
    if n > 0 {
        lemma_complete_done(feed_seq(fed.take(n - 1)), fed[n - 1]);
        assert(fed.drop_last() =~= fed.take(n - 1));
    }
    assert(more.drop_last() =~= fed);
    assert(more.take(n) =~= fed);
    assert forall|k: int| 0 <= k < n implies report(more, k) is Yielded by {
        assert(more.take(k) =~= fed.take(k));
        assert(more[k] == fed[k]);
        assert(report(more, k) == report(fed, k));
        if k < n - 1 {
            assert(report(fed, k) is Yielded);
        } else {
            assert(feed_seq(fed) == feed_seq(fed.take(n - 1)).next(fed[n - 1]).0);
        }
    }
}

/// Bytes read by the first `k + 1` bus operations
proof fn lemma_count_step(ops: Seq<BusOp>, k: int)
    requires
        0 <= k < ops.len(),
    ensures
        count_reads(ops.subrange(0, k + 1)) == count_reads(ops.subrange(0, k)) + read_count(ops[k]),
{
    assert(ops.subrange(0, k + 1).drop_last() =~= ops.subrange(0, k));
}

fn is_read_op(op: BusOp) -> (b: bool)
    ensures
        b == is_read(op),
{
    matches!(op, BusOp::OpcodeRead(_) | BusOp::IntAck(_) | BusOp::MemRead(_) | BusOp::IoRead(_))
}

fn one_op(op: BusOp) -> (v: Vec<BusOp>)
    ensures
        v@ == seq![op],
        count_reads(v@) == read_count(op),
{
    proof { lemma_reads_small(op, op, op); }
    let v = vec![op];
    assert(v@ == seq![op]);
    v
}

impl Cpu {

    /// The fields that the engine steps keep
    spec fn same_engine(&self, other: &Cpu) -> bool {
        &&& other.id == self.id
        &&& other.faulted == self.faulted
        &&& other.started == self.started
    }

    /// The record of instructions carried out is the same, or has the instruction held
    /// before added
    spec fn keeps_history(&self, other: &Cpu) -> bool {
        ||| other.history@ == self.history@
        ||| other.history@.len() == self.history@.len() + 1 && other.history@.drop_last() == self.history@
            && other.history@.last().instr == self.instr
    }

    /// Begin the bus operation at `op_idx`: a delay waits for its rising edge,
    /// a machine cycle starts and waits for its T1 rising edge
    fn start_op(&mut self, h: u64) -> (y: TaskYield)
        requires
            old(self).started,
            old(self).wf(),
            old(self).cycle is None,
            old(self).op_idx < old(self).ops.len(),
        ensures
            final(self).wf(),
            y matches TaskYield::Wait(off) && off > 0,
            old(self).same_engine(final(self)),
            final(self).history == old(self).history,
            final(self).start == old(self).start,
            final(self).fed == old(self).fed,
            final(self).bus_bytes == old(self).bus_bytes,
            final(self).kept == old(self).kept,
            final(self).decoder == old(self).decoder,
            final(self).started == old(self).started,
            final(self).state == old(self).state,
            final(self).cont == old(self).cont,
            final(self).instr == old(self).instr,
            final(self).pc == old(self).pc,
            final(self).ops == old(self).ops,
            final(self).op_idx <= old(self).op_idx + 1,
            old(self).ops@[old(self).op_idx as int] is Delay ==> final(self).began_delay(old(self)),
            !(old(self).ops@[old(self).op_idx as int] is Delay) ==> final(self).cycle == Some(MCycle {
                op: old(self).ops@[old(self).op_idx as int], step: 1, byte: 0, busrq: false }),
    {
        let op = self.ops[self.op_idx];
        match op {
            BusOp::Delay(n) => {
                proof { lemma_count_step(self.ops@, self.op_idx as int); }
                self.op_idx = self.op_idx + 1;
                TaskYield::Wait(rising(h, if n == 0 { 1 } else { n as u64 }))
            },
            _ => {
                self.cycle = Some(MCycle { op, step: 1, byte: 0, busrq: false });
                TaskYield::Wait(rising(h, 1))
            },
        }
    }

    /// Machine cycle over: keep the byte it read
    fn complete_cycle(&mut self)
        requires
            old(self).wf(),
            old(self).cycle is Some,
            is_read(old(self).cycle.unwrap().op) ==> sampled_step(old(self).cycle.unwrap().step),
        ensures
            final(self).pc == old(self).pc,
            final(self).op_idx == old(self).op_idx + 1,
            final(self).ops == old(self).ops,
            final(self).fetched@ == if is_read(old(self).cycle.unwrap().op) {
                old(self).fetched@.push(old(self).cycle.unwrap().byte)
            } else {
                old(self).fetched@
            },
            final(self).wf(),
            final(self).cycle is None,
            old(self).same_engine(final(self)),
            final(self).history == old(self).history,
            final(self).start == old(self).start,
            final(self).fed == old(self).fed,
            final(self).bus_bytes == old(self).bus_bytes,
            final(self).kept == old(self).kept,
            final(self).decoder == old(self).decoder,
            final(self).started == old(self).started,
            final(self).instr == old(self).instr,
            final(self).cont == old(self).cont,
            final(self).state == old(self).state,
    {
        let c = self.cycle.unwrap();
        proof { lemma_count_step(self.ops@, self.op_idx as int); }
        if is_read_op(c.op) {
            self.fetched.push(c.byte);
        }
        self.op_idx = self.op_idx + 1;
        self.cycle = None;
    }

    /// Push the program counter: the stack pointer moves down, the writes are returned
    fn push_pc(&mut self) -> (ops: Vec<BusOp>)
        ensures
            count_reads(ops@) == 0,
            ops@.len() == 2,
            ops@[0] is MemWrite,
            ops@ == push_ops(old(self).state.sp, old(self).pc),
            final(self).state == (CpuState { sp: w16(old(self).state.sp - 2), ..old(self).state }),
            final(self).pc == old(self).pc,
            final(self).cycle == old(self).cycle,
            final(self).cont == old(self).cont,
            final(self).instr == old(self).instr,
            old(self).same_engine(final(self)),
            final(self).history == old(self).history,
            final(self).start == old(self).start,
            final(self).fed == old(self).fed,
            final(self).bus_bytes == old(self).bus_bytes,
            final(self).kept == old(self).kept,
            final(self).decoder == old(self).decoder,
            final(self).started == old(self).started,
    {
        let sp = self.state.sp;
        let (hi, lo) = spword(self.pc);
        self.state.sp = sub2_16(sp);
        let a = BusOp::MemWrite(dec16(sp), hi);
        let b = BusOp::MemWrite(sub2_16(sp), lo);
        proof { lemma_reads_small(a, b, b); }
        vec![a, b]
    }

    /// Fetch the next byte of the instruction: an opcode (unless an interrupt is accepted
    /// first), a displacement or data
    fn fetch_byte(&mut self, bus: &mut CpuBus, h: u64) -> (y: TaskYield)
        requires
            !old(self).decoder.is_done(),
            old(self).started,
            old(self).wf(),
            !old(self).faulted,
            old(self).cycle is None,
            old(self).bus_bytes@ == old(self).fed@,
        ensures
            final(self).wf(),
            y matches TaskYield::Wait(off) ==> off > 0,
            final(self).cycle is Some ==> final(self).cycle.unwrap().step == 1,
            !final(self).faulted ==> final(self).cycle is Some,
            !final(self).faulted && old(self).upnext is Opcode ==> {
                &&& final(self).state == accept(old(self).state)
                &&& final(self).cycle == Some(MCycle { op: fetch_op(old(self).state, old(self).pc), step: 1, byte: 0, busrq: false })
                &&& final(self).pc == fetch_next(old(self).state, old(self).pc)
                &&& old(self).state.nmi ==> final(self).ops@ == push_ops(old(self).state.sp, old(self).pc)
            },
            !final(self).faulted && !(old(self).upnext is Opcode) ==> {
                &&& final(self).state == old(self).state
                &&& final(self).cycle == Some(MCycle { op: BusOp::MemRead(old(self).pc), step: 1, byte: 0, busrq: false })
                &&& final(self).pc == old(self).pc
            },
            final(bus).halt@ == old(bus).halt@ || drives(final(bus).halt, old(self).id, false),
            old(self).same_engine(final(self)) || final(self).faulted,
            final(self).id == old(self).id,
            final(self).history == old(self).history,
            final(self).start == old(self).start,
            final(self).fed == old(self).fed,
            final(self).bus_bytes == old(self).bus_bytes,
            final(self).kept == old(self).kept,
            final(self).decoder == old(self).decoder,
            final(self).started == old(self).started,
            old(bus).respected_by(final(bus), old(self).id),
            only_halt(*old(bus), *final(bus)),
            final(self).faulted ==> y == TaskYield::Break,
            y == TaskYield::Break && !final(self).faulted ==> final(self).at_break(),
            old(bus).halt.can_drive(old(self).id) ==> !final(self).faulted,
    {
        let id = self.id;
        let pc = self.pc;
        if matches!(self.upnext, TokenType::Opcode) {
            if self.state.nmi || self.state.int {
                if !bus.halt.try_drive(id, false) {
                    return self.fault();
                }
            }
            if self.state.nmi {
                // Non maskable interrupt: push PC, jump to 0x0066
                self.state.nmi = false;
                self.state.iff1 = false;
                let ops = self.push_pc();
                self.pc = 0x0066;
                self.set_ops(ops, Cont::NextInstr);
                self.start_op(h)
            } else if self.state.int && self.state.iff1 {
                // Maskable interrupt: acknowledge it, then act by the interrupt mode
                self.state.int = false;
                self.state.iff1 = false;
                self.state.iff2 = false;
                self.set_ops(one_op(BusOp::IntAck(pc)), Cont::IntVector);
                self.start_op(h)
            } else {
                self.set_ops(one_op(BusOp::OpcodeRead(pc)), Cont::Decode);
                self.start_op(h)
            }
        } else {
            self.set_ops(one_op(BusOp::MemRead(pc)), Cont::Decode);
            self.start_op(h)
        }
    }

    /// Start the next instruction at `pc`
    fn fetch(&mut self, bus: &mut CpuBus, h: u64) -> (y: TaskYield)
        requires
            old(self).started,
            !old(self).holds_decoded(),
            !old(self).fetching(),
            old(self).wf(),
            !old(self).faulted,
            old(self).cycle is None,
        ensures
            final(self).wf(),
            y matches TaskYield::Wait(off) ==> off > 0,
            final(self).cycle is Some ==> final(self).cycle.unwrap().step == 1,
            !final(self).faulted ==> final(self).cycle is Some,
            !final(self).faulted ==> {
                &&& final(self).state == fetch_regs(old(self).state, old(self).pc)
                &&& final(self).cycle == Some(MCycle { op: fetch_op(old(self).state, old(self).pc), step: 1, byte: 0, busrq: false })
                &&& final(self).pc == fetch_next(old(self).state, old(self).pc)
                &&& old(self).state.nmi ==> final(self).ops@ == push_ops(old(self).state.sp, old(self).pc)
            },
            final(bus).halt@ == old(bus).halt@ || drives(final(bus).halt, old(self).id, false),
            final(self).bus_bytes@ == Seq::<u8>::empty() && final(self).fed@ == Seq::<u8>::empty(),
            final(self).kept == old(self).kept,
            old(self).same_engine(final(self)) || final(self).faulted,
            final(self).id == old(self).id,
            final(self).history == old(self).history,
            final(self).start == old(self).start,
            final(self).started == old(self).started,
            old(bus).respected_by(final(bus), old(self).id),
            only_halt(*old(bus), *final(bus)),
            final(self).faulted ==> y == TaskYield::Break,
            y == TaskYield::Break && !final(self).faulted ==> final(self).at_break(),
            old(bus).halt.can_drive(old(self).id) ==> !final(self).faulted,
    {
        self.state.pc = self.pc;
        self.decoder = instruction_decoder();
        proof {
            self.fed@ = Seq::empty();
            self.bus_bytes@ = Seq::empty();
        }
        self.upnext = TokenType::Opcode;
        self.fetch_byte(bus, h)
    }

    /// Feed a byte to the decoder: fetch the next one, or break once the instruction is decoded
    fn decode_byte(&mut self, bus: &mut CpuBus, h: u64, byte: u8) -> (y: TaskYield)
        requires
            !old(self).decoder.is_done(),
            old(self).started,
            old(self).wf(),
            !old(self).faulted,
            old(self).cycle is None,
            old(self).bus_bytes@ == old(self).fed@.push(byte),
        ensures
            final(self).wf(),
            y matches TaskYield::Wait(off) ==> off > 0,
            final(self).cycle is Some ==> final(self).cycle.unwrap().step == 1,
            y is Wait ==> final(self).cycle is Some,
            final(self).bus_bytes == old(self).bus_bytes,
            final(self).kept == old(self).kept,
            final(self).started == old(self).started,
            old(self).same_engine(final(self)) || final(self).faulted,
            final(self).id == old(self).id,
            final(self).history == old(self).history,
            old(bus).respected_by(final(bus), old(self).id),
            only_halt(*old(bus), *final(bus)),
            final(self).faulted ==> y == TaskYield::Break,
            y == TaskYield::Break && !final(self).faulted ==> final(self).at_break(),
            old(bus).halt.can_drive(old(self).id) ==> !final(self).faulted || refused(final(self).fed@),
    {
        self.pc = inc16(self.pc);
        if matches!(self.decoder.stage, Stage::Done) {
            return self.fault();
        }
        let ghost d0 = self.decoder;
        proof {
            lemma_feed_more(self.fed@, byte);
            lemma_complete_done(d0, byte);
            self.fed@ = self.fed@.push(byte);
        }
        match self.decoder.resume(byte) {
            DecodeState::Yielded(r) => {
                self.upnext = r.upnext;
                // The byte read is fed: nothing is pending until the next byte is fetched
                self.cont = Cont::NextInstr;
                self.fetch_byte(bus, h)
            },
            DecodeState::Complete(instr) => {
                if !is_executable(&instr) {
                    assert(decodes_to(self.fed@, instr));
                    // Nothing is left under way for an instruction that cannot be carried out
                    self.set_ops(Vec::new(), Cont::NextInstr);
                    return self.fault();
                }
                self.instr = instr;
                self.start = Ghost(self.state);
                self.set_ops(Vec::new(), Cont::Prepare);
                // Break after each decoded instruction
                TaskYield::Break
            },
        }
    }

    /// Carry out the decoded instruction with the bytes read, then go on with its writes
    fn run_execute(&mut self, bus: &mut CpuBus, h: u64) -> (y: TaskYield)
        requires
            old(self).started,
            old(self).wf(),
            !old(self).faulted,
            old(self).cycle is None,
            old(self).cont is Execute,
            old(self).op_idx == old(self).ops.len(),
        ensures
            final(self).wf(),
            y matches TaskYield::Wait(off) ==> off > 0,
            final(self).cycle is Some ==> final(self).cycle.unwrap().step == 1,
            old(self).same_engine(final(self)) || final(self).faulted,
            final(self).id == old(self).id,
            old(self).keeps_history(final(self)),
            final(self).history@.len() == old(self).history@.len() + 1,
            final(self).started == old(self).started,
            final(self).bus_bytes == old(self).bus_bytes
                || (final(self).bus_bytes@ == Seq::<u8>::empty() && final(self).fed@ == Seq::<u8>::empty()),
            final(self).history@.last().before == old(self).state,
            !final(self).faulted ==> goes_on_from(*final(self), final(self).history@.last()),
            final(self).kept@,
            old(bus).respected_by(final(bus), old(self).id),
            only_halt(*old(bus), *final(bus)),
            final(self).faulted ==> y == TaskYield::Break,
            y == TaskYield::Break && !final(self).faulted ==> final(self).at_break(),
            old(bus).halt.can_drive(old(self).id) ==> !final(self).faulted,
    {
        assert(self.ops@.subrange(0, self.op_idx as int) =~= self.ops@);
        let ghost before = self.state;
        let e = execute(&mut self.state, &self.instr, self.pc, &self.fetched);
        proof {
            let done = Executed {
                before,
                instr: self.instr,
                pc: self.pc,
                reads: self.fetched@,
                after: self.state,
                next_pc: e.pc,
                post: e.post@,
                halt: e.halt,
            };
            self.history@ = self.history@.push(done);
            self.kept@ = true;
            lemma_word_split(self.state.ir);
            assert(carried_out(self.history@[self.history@.len() - 1]));
            assert(self.history@.drop_last() =~= old(self).history@);
        }
        self.pc = e.pc;
        self.set_ops(e.post, Cont::NextInstr);
        if e.halt {
            if !bus.halt.try_drive(self.id, true) {
                return self.fault();
            }
        }
        if self.ops.len() > 0 {
            self.start_op(h)
        } else {
            self.fetch(bus, h)
        }
    }

    /// Act on the byte of an interrupt acknowledge cycle by the interrupt mode
    fn int_vector(&mut self, bus: &mut CpuBus, h: u64) -> (y: TaskYield)
        requires
            old(self).started,
            old(self).wf(),
            !old(self).faulted,
            old(self).cycle is None,
            old(self).cont is IntVector,
            old(self).op_idx == old(self).ops.len(),
        ensures
            !final(self).faulted ==> acts_on_vector(old(self).state, old(self).pc, old(self).fetched@[0], *final(self)),
            final(self).wf(),
            y matches TaskYield::Wait(off) ==> off > 0,
            final(self).cycle is Some ==> final(self).cycle.unwrap().step == 1,
            y is Wait ==> final(self).cycle is Some,
            final(self).bus_bytes == old(self).bus_bytes,
            final(self).kept == old(self).kept,
            final(self).started == old(self).started,
            old(self).same_engine(final(self)) || final(self).faulted,
            final(self).id == old(self).id,
            final(self).history == old(self).history,
            old(bus).respected_by(final(bus), old(self).id),
            only_halt(*old(bus), *final(bus)),
            final(self).faulted ==> y == TaskYield::Break,
            y == TaskYield::Break && !final(self).faulted ==> final(self).at_break(),
            old(bus).halt.can_drive(old(self).id) ==> !final(self).faulted || refused(final(self).fed@),
    {
        assert(self.ops@.subrange(0, self.op_idx as int) =~= self.ops@);
        let byte = self.fetched[0];
        match self.state.im {
            // The device supplies an opcode
            IntMode::IM0 | IntMode::IM01 => self.decode_byte(bus, h, byte),
            // Push PC and jump to 0x0038
            IntMode::IM1 => {
                let ops = self.push_pc();
                self.pc = 0x0038;
                self.set_ops(ops, Cont::NextInstr);
                self.start_op(h)
            },
            // Push PC, then read the address from the table at (I:byte)
            IntMode::IM2 => {
                let mut ops = self.push_pc();
                let (i, _) = spword(self.state.ir);
                let vec_addr = mkword(i, byte);
                let r1 = BusOp::MemRead(vec_addr);
                let r2 = BusOp::MemRead(inc16(vec_addr));
                let ghost pushed = ops@;
                ops.push(r1);
                ops.push(r2);
                proof {
                    lemma_reads_small(r1, r2, r2);
                    lemma_reads_concat(pushed, seq![r1, r2]);
                    assert(ops@ =~= pushed + seq![r1, r2]);
                    assert(ops@[0] == pushed[0]);
                }
                self.set_ops(ops, Cont::Im2Vector);
                self.start_op(h)
            },
        }
    }

    /// Go on once no machine cycle is in progress
    fn proceed(&mut self, bus: &mut CpuBus, h: u64) -> (y: TaskYield)
        requires
            old(self).started,
            old(self).wf(),
            !old(self).faulted,
            old(self).cycle is None,
        ensures
            final(self).wf(),
            y matches TaskYield::Wait(off) ==> off > 0,
            final(self).cycle is Some ==> final(self).cycle.unwrap().step == 1,
            y is Wait ==> final(self).cycle is Some || final(self).history != old(self).history
                || final(self).began_delay(old(self)),
            old(self).fetching() ==> final(self).bus_bytes == old(self).bus_bytes,
            final(self).started == old(self).started,
            final(self).history != old(self).history && !final(self).faulted
                ==> goes_on_from(*final(self), final(self).history@.last()),
            final(self).history != old(self).history ==> final(self).kept@,
            final(self).history == old(self).history ==> final(self).kept == old(self).kept,
            old(self).cont is IntVector && old(self).op_idx == old(self).ops.len() && !final(self).faulted
                ==> acts_on_vector(old(self).state, old(self).pc, old(self).fetched@[0], *final(self)),
            old(self).cont is Im2Vector && old(self).op_idx == old(self).ops.len() && !final(self).faulted
                ==> final(self).state.pc == word(old(self).fetched@[1], old(self).fetched@[0]),
            final(self).bus_bytes == old(self).bus_bytes
                || (final(self).bus_bytes@ == Seq::<u8>::empty() && final(self).fed@ == Seq::<u8>::empty()),
            old(self).same_engine(final(self)) || final(self).faulted,
            final(self).id == old(self).id,
            old(self).keeps_history(final(self)),
            final(self).history != old(self).history ==> old(self).holds_decoded()
                && irq_only(old(self).start@, final(self).history@.last().before),
            old(self).holds_decoded() && final(self).history == old(self).history && !final(self).faulted
                ==> final(self).holds_decoded() && final(self).instr == old(self).instr && final(self).start == old(self).start
                    && final(self).fed == old(self).fed,
            old(bus).respected_by(final(bus), old(self).id),
            only_halt(*old(bus), *final(bus)),
            final(self).faulted ==> y == TaskYield::Break,
            y == TaskYield::Break && !final(self).faulted ==> final(self).at_break(),
            old(bus).halt.can_drive(old(self).id) ==> !final(self).faulted || refused(final(self).fed@),
    {
        if self.op_idx < self.ops.len() {
            return self.start_op(h);
        }
        assert(self.ops@.subrange(0, self.op_idx as int) =~= self.ops@);
        match self.cont {
            Cont::Decode => {
                let byte = self.fetched[0];
                self.decode_byte(bus, h, byte)
            },
            Cont::Prepare => {
                let ops = instr_pre_ops(&self.state, &self.instr);
                proof {
                    lemma_pre_reads(self.state, self.instr);
                    lemma_pre_ops_plain(self.state, self.instr);
                    if reads_by_flags(self.instr) {
                        lemma_ret_ops(self.state, self.instr);
                    }
                }
                self.set_ops(ops, Cont::Execute);
                if self.ops.len() > 0 {
                    assert(self.ops@ != old(self).ops@);
                    self.start_op(h)
                } else {
                    self.run_execute(bus, h)
                }
            },
            Cont::Execute => self.run_execute(bus, h),
            Cont::NextInstr => self.fetch(bus, h),
            Cont::IntVector => self.int_vector(bus, h),
            Cont::Im2Vector => {
                self.pc = mkword(self.fetched[1], self.fetched[0]);
                self.fetch(bus, h)
            },
        }
    }

    /// Run the CPU from one yield to the next: `h` is the clock
    #[verifier::spinoff_prover]
    #[verifier::rlimit(100)]
    pub fn resume(&mut self, bus: &mut CpuBus, h: u64) -> (y: TaskYield)
        requires
            old(self).wf(),
        ensures
            final(self).wf(),
            y matches TaskYield::Wait(off) ==> off > 0,
            final(self).spec_cpu_id() == old(self).spec_cpu_id(),
            old(bus).respected_by(final(bus), old(self).spec_cpu_id()),
            old(self).is_faulted() ==> final(self).is_faulted() && y == TaskYield::Break,
            final(self).is_faulted() ==> y == TaskYield::Break,
            y == TaskYield::Break && !final(self).is_faulted() ==> final(self).at_break(),
            final(self).executed() == old(self).executed() || {
                &&& final(self).executed().len() == old(self).executed().len() + 1
                &&& final(self).executed().drop_last() == old(self).executed()
                &&& final(self).executed().last().instr == old(self).current_instr()
            },
            final(self).executed() != old(self).executed() ==> old(self).holds_decoded()
                && irq_only(old(self).decoded_regs(), final(self).executed().last().before),
            old(self).holds_decoded() && final(self).executed() == old(self).executed() && !final(self).is_faulted()
                ==> final(self).holds_decoded() && final(self).current_instr() == old(self).current_instr()
                    && final(self).decoded_regs() == old(self).decoded_regs()
                    && final(self).instr_bytes() == old(self).instr_bytes(),
            final(self).executed() != old(self).executed()
                ==> decodes_to(old(self).instr_bytes(), final(self).executed().last().instr),
            !final(self).is_faulted() && old(self).bus_cycle() is Some
                ==> step_bus(old(self).bus_cycle().unwrap(), old(self).spec_cpu_id(), *old(bus), *final(bus)),
            old(self).bus_cycle() is None
                ==> *final(bus) == (CpuBus { m1: final(bus).m1, busak: final(bus).busak, halt: final(bus).halt, ..*old(bus) }),
            !old(self).is_faulted() && bus_clear(old(self).bus_cycle(), old(self).spec_cpu_id(), *old(bus))
                ==> !final(self).is_faulted() || refused(final(self).instr_bytes()),
            resume_effects(*old(self), *final(self), *old(bus), *final(bus), y),
            addr_held(*old(self), *old(bus)) ==> addr_held(*final(self), *final(bus)),
    {
        if self.faulted {
            return TaskYield::Break;
        }
        let id = self.id;
        if !self.started {
            self.started = true;
            if !bus.m1.try_drive(id, false) || !bus.busak.try_drive(id, false) || !bus.halt.try_drive(id, false) {
                return self.fault();
            }
            if self.cycle.is_some() || self.op_idx < self.ops.len() {
                return self.fault();
            }
            self.pc = self.state.pc;
            return self.fetch(bus, h);
        }
        if self.cycle.is_some() {
            let ghost before = self.state;
            let ghost bus0 = *bus;
            let ghost c0 = self.cycle.unwrap();
            proof {
                if self.cont is Execute {
                    assert(plain_op(self.ops@[self.op_idx as int]));
                }
            }
            let step = self.cycle_step(bus, h);
            proof {
                if self.kept@ && self.history@.len() > 0 {
                    lemma_same_but_step(self.history@.last().after, before, self.state);
                }
            }
            match step {
                Step::Yield(off) => {
                    proof {
                        lemma_n_reads_flags(before, self.state, self.instr);
                        lemma_step_bus(c0, self.id, bus0, *bus, *bus, self.cycle.unwrap().byte, self.state.ir);
                    }
                    return TaskYield::Wait(off);
                },
                Step::Fault => {
                    proof { lemma_n_reads_flags(before, self.state, self.instr); }
                    return self.fault();
                },
                Step::Done => {
                    proof { lemma_n_reads_flags(before, self.state, self.instr); }
                    let ghost mid = *bus;
                    let ghost byte = self.cycle.unwrap().byte;
                    let ghost ir = self.state.ir;
                    let ghost mid_state = self.state;
                    proof {
                        lemma_count_step(self.ops@, self.op_idx as int);
                        assert(self.ops@.subrange(0, self.ops@.len() as int) =~= self.ops@);
                        assert(self.cont is Im2Vector && c0.op is MemRead && self.op_idx + 1 == self.ops.len()
                            ==> self.fetched@.len() == 1);
                    }
                    let ghost f0 = self.fetched@;
                    let ghost mid_cycle = self.cycle.unwrap();
                    self.complete_cycle();
                    let ghost f1 = self.fetched@;
                    let y = self.proceed(bus, h);
                    proof {
                        if !self.faulted && old(self).cont is Im2Vector && c0.op is MemRead && sampled_step(c0.step)
                            && old(self).op_idx + 1 == old(self).ops.len() {
                            assert(f0.len() == 1);
                            assert(mid_cycle.byte == c0.byte);
                            assert(f1 == f0.push(mid_cycle.byte));
                            assert(self.state.pc == word(f1[1], f1[0]));
                        }
                        if !self.faulted && c0.op is IntAck && old(self).cont is IntVector && (before.im == IntMode::IM1 || before.im == IntMode::IM2) {
                            lemma_irq_only_sp(before, mid_state, self.state, w16(before.sp - 2));
                        }
                        if !self.faulted {
                            lemma_step_bus(c0, self.id, bus0, mid, *bus, byte, ir);
                        }
                    }
                    return y;
                },
            }
        }
        self.proceed(bus, h)
    }
}

} // verus!
