use vstd::prelude::*;

use super::exec::{executes, executes_arith8, executes_block, executes_jump, executes_load16, push_ops, w16, BusOp};
use super::flags::spec_satisfy;
use super::instruction::Instruction;
use super::state::{hi, lo, word, CpuState};
use super::tokens::{BlockOp, Condition, DataValue, Reg, RegPair, Token};

verus! {

/// Memory after the writes among `ops`, in order
pub open spec fn apply_writes(mem: Seq<u8>, ops: Seq<BusOp>) -> Seq<u8>
    decreases ops.len(),
{
    if ops.len() == 0 {
        mem
    } else {
        let m = apply_writes(mem, ops.drop_last());
        match ops.last() {
            BusOp::MemWrite(addr, v) => m.update(addr as int, v),
            _ => m,
        }
    }
}

/// The two bytes that a pop reads from memory
pub open spec fn popped(mem: Seq<u8>, sp: u16) -> Seq<u8> {
    seq![mem[sp as int], mem[w16(sp + 1) as int]]
}

pub open spec fn instr(t: Token) -> Instruction {
    Instruction { opcode: t, displacement: None, data: None }
}

proof fn lemma_push_writes(mem: Seq<u8>, sp: u16, v: u16)
    requires
        mem.len() == 0x10000,
    ensures
        popped(apply_writes(mem, push_ops(sp, v)), w16(sp - 2)) == seq![lo(v), hi(v)],
{
    let ops = push_ops(sp, v);
    assert(ops.drop_last().drop_last() =~= Seq::<BusOp>::empty());
    assert(ops.drop_last() =~= seq![BusOp::MemWrite(w16(sp - 1), hi(v))]);
    reveal_with_fuel(apply_writes, 3);
    assert(w16(w16(sp - 2) + 1) == w16(sp - 1));
    assert(popped(apply_writes(mem, ops), w16(sp - 2)) =~= seq![lo(v), hi(v)]);
}

/// Law: a pop right after a push gives back the word pushed and the stack pointer
/// it started from (memory keeping what is written to it)
pub proof fn lemma_push_pop(s: CpuState, rp: RegPair, rp2: RegPair, pc: u16, pc2: u16, mem: Seq<u8>,
    t: CpuState, npc: u16, post: Seq<BusOp>, halt: bool, u: CpuState, npc2: u16, post2: Seq<BusOp>, halt2: bool)
    requires
        mem.len() == 0x10000,
        rp2 != RegPair::SP,
        executes(s, instr(Token::PUSH(rp)), pc, seq![], t, npc, post, halt),
        executes(t, instr(Token::POP(rp2)), pc2, popped(apply_writes(mem, post), t.sp), u, npc2, post2, halt2),
    ensures
        u.rpair(rp2) == s.rpair(rp),
        u.sp == s.sp,
        npc2 == pc2,
{
    reveal(executes_load16);
    lemma_push_writes(mem, s.sp, s.rpair(rp));
    assert(w16(w16(s.sp - 2) + 2) == s.sp);
    assert(word(hi(s.rpair(rp)), lo(s.rpair(rp))) == s.rpair(rp));
}

/// Law: a return right after a call comes back to the address after the call, with the
/// stack pointer the call started from
pub proof fn lemma_call_ret(s: CpuState, pc: u16, nn: u16, pc2: u16, mem: Seq<u8>,
    t: CpuState, npc: u16, post: Seq<BusOp>, halt: bool, u: CpuState, npc2: u16, post2: Seq<BusOp>, halt2: bool)
    requires
        mem.len() == 0x10000,
        executes(s, Instruction { opcode: Token::CALL(Condition::Always), displacement: None,
            data: Some(super::tokens::DataValue::Word(nn)) }, pc, seq![], t, npc, post, halt),
        executes(t, instr(Token::RET(Condition::Always)), pc2, popped(apply_writes(mem, post.drop_first()), t.sp),
            u, npc2, post2, halt2),
    ensures
        npc == nn,
        npc2 == pc,
        u.sp == s.sp,
{
    reveal(executes_jump);
    assert(post.drop_first() =~= push_ops(s.sp, pc));
    lemma_push_writes(mem, s.sp, pc);
    assert(w16(w16(s.sp - 2) + 2) == s.sp);
    assert(word(hi(pc), lo(pc)) == pc);
}

/// Law: the exchange instructions undo themselves
pub proof fn lemma_exchange_twice(s: CpuState, op: Token, pc: u16, t: CpuState, npc: u16, post: Seq<BusOp>, halt: bool,
    pc2: u16, u: CpuState, npc2: u16, post2: Seq<BusOp>, halt2: bool)
    requires
        op == Token::EX_DE_HL || op == Token::EX_AF || op == Token::EXX,
        executes(s, instr(op), pc, seq![], t, npc, post, halt),
        executes(t, instr(op), pc2, seq![], u, npc2, post2, halt2),
    ensures
        u == s,
        post == Seq::<BusOp>::empty(),
        npc == pc,
{
    reveal(executes_load16);
}

/// Law: complementing the accumulator twice gives it back
pub proof fn lemma_cpl_twice(s: CpuState, pc: u16, t: CpuState, npc: u16, post: Seq<BusOp>, halt: bool,
    pc2: u16, u: CpuState, npc2: u16, post2: Seq<BusOp>, halt2: bool)
    requires
        executes(s, instr(Token::CPL), pc, seq![], t, npc, post, halt),
        executes(t, instr(Token::CPL), pc2, seq![], u, npc2, post2, halt2),
    ensures
        u.reg(Reg::A) == s.reg(Reg::A),
{
    reveal(executes_arith8);
    super::state::lemma_reg_write_read(s.with_reg(Reg::A, (255 - s.reg(Reg::A)) as u8), Reg::F, Reg::A, t.flags());
    super::state::lemma_reg_write_read(s, Reg::A, Reg::F, (255 - s.reg(Reg::A)) as u8);
    super::state::lemma_reg_write_read(t.with_reg(Reg::A, (255 - t.reg(Reg::A)) as u8), Reg::F, Reg::A, u.flags());
    super::state::lemma_reg_write_read(t, Reg::A, Reg::F, (255 - t.reg(Reg::A)) as u8);
}

/// Law: each step of a repeating block transfer counts BC down by one, and the instruction
/// is run again exactly while BC has not reached zero
pub proof fn lemma_ldir_counts_down(s: CpuState, pc: u16, f: Seq<u8>, t: CpuState, npc: u16, post: Seq<BusOp>, halt: bool)
    requires
        executes(s, instr(Token::BLOP(BlockOp::LDIR)), pc, f, t, npc, post, halt),
    ensures
        t.bc == w16(s.bc - 1),
        t.bc != 0 ==> npc == w16(pc - 2),
        t.bc == 0 ==> npc == pc,
        t.hl == w16(s.hl + 1),
        t.de == w16(s.de + 1),
        post[0] == BusOp::MemWrite(s.de, f[0]),
{
    reveal(executes_block);
}

/// Law: SCF sets the carry flag and CCF complements it, whatever the flags were; both keep the
/// accumulator and every register but F, and go on to the next instruction with no bus writes
pub proof fn lemma_carry_flag_ops(s: CpuState, op: Token, pc: u16, t: CpuState, npc: u16, post: Seq<BusOp>, halt: bool)
    requires
        op == Token::SCF || op == Token::CCF,
        executes(s, instr(op), pc, seq![], t, npc, post, halt),
    ensures
        op == Token::SCF ==> t.flags() & 0x01 == 0x01,
        op == Token::CCF ==> (t.flags() & 0x01 == 0x01) == (s.flags() & 0x01 != 0x01),
        t == s.with_reg(Reg::F, t.flags()),
        t.reg(Reg::A) == s.reg(Reg::A),
        npc == pc,
        post == Seq::<BusOp>::empty(),
{
    reveal(executes_arith8);
    super::state::lemma_reg_write_read(s, Reg::F, Reg::A, t.reg(Reg::F));
    super::state::lemma_word_halves(hi(s.af), t.reg(Reg::F));
}

/// Law: a conditional jump goes to its address exactly when its condition holds on the flags
/// (each condition testing its flag bit), and on to the next instruction otherwise; it changes
/// no register and writes nothing. A conditional call does the same and, when it goes, pushes
/// the address of the next instruction
pub proof fn lemma_conditional_jump_call(s: CpuState, op: Token, c: Condition, nn: u16, pc: u16, t: CpuState, npc: u16,
    post: Seq<BusOp>, halt: bool)
    requires
        op == Token::JP(c) || op == Token::CALL(c),
        executes(s, Instruction { opcode: op, displacement: None, data: Some(DataValue::Word(nn)) }, pc, seq![], t, npc, post, halt),
    ensures
        npc == if spec_satisfy(s.flags(), c) { nn } else { pc },
        op == Token::JP(c) ==> t == s && post == Seq::<BusOp>::empty(),
        op == Token::CALL(c) && spec_satisfy(s.flags(), c) ==> t.sp == w16(s.sp - 2) && post.drop_first() == push_ops(s.sp, pc),
        op == Token::CALL(c) && !spec_satisfy(s.flags(), c) ==> t == s && post == Seq::<BusOp>::empty(),
        c == Condition::PE ==> (npc == nn || npc == pc) && (s.flags() & 0x04 != 0 ==> npc == nn) && (s.flags() & 0x04 == 0 ==> npc == pc),
        c == Condition::PO ==> (s.flags() & 0x04 == 0 ==> npc == nn) && (s.flags() & 0x04 != 0 ==> npc == pc),
{
    reveal(executes_jump);
    super::flags::lemma_conditions_test_flag_bits(s.flags());
    if op == Token::CALL(c) && spec_satisfy(s.flags(), c) {
        assert(post.drop_first() =~= push_ops(s.sp, pc));
    }
}

} // verus!
