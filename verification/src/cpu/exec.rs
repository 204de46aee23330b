use vstd::prelude::*;

use super::alu::{in_flags, shift_acc, shift_op, rld, rrd, bit_test, alu8, inc8, dec8, daa, cpl, neg, ccf, scf, add16, adc16, sbc16, ld_a_ir_flags, ldi_flags, cpi_flags, block_io_flags, b2i, bit_is_set, block_xy, daa_correction, fc, fh, flags_are, fn_, fp, fs, fz, even_parity, spec_alu_flags, spec_alu_result, spec_shift, sx16};
use super::flags::spec_satisfy;
use super::instruction::Instruction;
use super::state::{CpuState, hi, lo, word, is_register};
use super::tokens::{AluOp, BlockOp, Condition, DataValue, Reg, RegPair, ShiftOp, Token};

verus! {

/// One step of bus activity of the CPU
#[derive(Clone, Copy, PartialEq, Eq, Debug, Structural)]
pub enum BusOp {
    /// Wait until the given rising clock edge (counting from the next one)
    Delay(u8),
    /// Instruction opcode fetch (M1) cycle
    OpcodeRead(u16),
    /// Interrupt acknowledge cycle
    IntAck(u16),
    MemRead(u16),
    MemWrite(u16, u8),
    IoRead(u16),
    IoWrite(u16, u8),
}

/// Bus operations that hand a byte to the CPU
pub open spec fn is_read(op: BusOp) -> bool {
    op is OpcodeRead || op is IntAck || op is MemRead || op is IoRead
}

/// Number of bytes that a sequence of bus operations reads
pub open spec fn count_reads(ops: Seq<BusOp>) -> nat
    decreases ops.len(),
{
    if ops.len() == 0 {
        0
    } else {
        count_reads(ops.drop_last()) + if is_read(ops.last()) { 1nat } else { 0nat }
    }
}

/// Word arithmetic wraps around
pub open spec fn w16(x: int) -> u16 {
    (x % 0x10000) as u16
}

/// Byte arithmetic wraps around
pub open spec fn w8(x: int) -> u8 {
    (x % 0x100) as u8
}

pub open spec fn is_index(r: Reg) -> bool {
    r == Reg::AtIX || r == Reg::AtIY
}

pub open spec fn byte_data(i: Instruction) -> u8 {
    match i.data {
        Some(DataValue::Byte(b)) => b,
        _ => 0,
    }
}

pub open spec fn word_data(i: Instruction) -> u16 {
    match i.data {
        Some(DataValue::Word(w)) => w,
        _ => 0,
    }
}

pub open spec fn has_byte(i: Instruction) -> bool {
    i.data matches Some(DataValue::Byte(_))
}

pub open spec fn has_word(i: Instruction) -> bool {
    i.data matches Some(DataValue::Word(_))
}

/// Address of a memory operand: (HL), (IX+d) or (IY+d)
pub open spec fn operand_addr(s: CpuState, i: Instruction, r: Reg) -> u16 {
    if r == Reg::AtHL { s.hl } else { s.spec_idx_addr(r, i.displacement.unwrap()) }
}

/// An operand can be read or written: a register, (HL), or an indexed cell with its displacement
pub open spec fn operand_ok(i: Instruction, r: Reg) -> bool {
    is_index(r) ==> i.displacement is Some
}

/// Value of an operand: a register, or the byte read from memory
pub open spec fn operand(s: CpuState, r: Reg, f: Seq<u8>) -> u8 {
    if is_register(r) { s.reg(r) } else { f[0] }
}

/// State after storing a value to an operand (memory operands are written on the bus)
pub open spec fn store(s: CpuState, r: Reg, v: u8) -> CpuState {
    if is_register(r) { s.with_reg(r, v) } else { s }
}

/// Bus writes that store a value to an operand
pub open spec fn store_ops(s: CpuState, i: Instruction, r: Reg, v: u8) -> Seq<BusOp> {
    if is_register(r) { seq![] } else { seq![BusOp::MemWrite(operand_addr(s, i, r), v)] }
}

/// Bus operations that read an operand, with the delays the instruction group adds
/// before an indexed read (`idx`), before a (HL) read (`hl`) and after any memory read (`after`)
pub open spec fn load_ops(s: CpuState, i: Instruction, r: Reg, idx: Seq<BusOp>, hl: Seq<BusOp>, after: Seq<BusOp>) -> Seq<BusOp> {
    if is_register(r) {
        seq![]
    } else if r == Reg::AtHL {
        hl + seq![BusOp::MemRead(s.hl)] + after
    } else {
        idx + seq![BusOp::MemRead(operand_addr(s, i, r))] + after
    }
}

/// Bytes that an instruction reads from the bus after it is decoded
pub open spec fn n_reads(s: CpuState, i: Instruction) -> nat {
    match i.opcode {
        Token::LD_RG_RG(dst, src) => if is_register(dst) && !is_register(src) { 1 } else { 0 },
        Token::LD_A_AtRP(_) | Token::LD_A_MM | Token::IN_A_N | Token::IN_RG_AtBC(_) | Token::IN_AtBC => 1,
        Token::LD_RP_MM(_) | Token::POP(_) | Token::EX_AtSP_RP(_) | Token::RETI | Token::RETN => 2,
        Token::RET(cond) => if spec_satisfy(s.flags(), cond) { 2 } else { 0 },
        Token::BLOP(op) => 1,
        Token::ALU(_, Some(r)) | Token::INC_RG(r) | Token::DEC_RG(r) | Token::SHOP(_, r) | Token::SHOPLD(_, r, _)
        | Token::BIT(_, r) | Token::SET(_, r) | Token::SETLD(_, r, _) | Token::RES(_, r) | Token::RESLD(_, r, _) =>
            if is_register(r) { 0 } else { 1 },
        Token::RLD | Token::RRD => 1,
        _ => 0,
    }
}

/// The instruction reads its operands or not by the flags: a conditional return, which pops the
/// address it returns to when its condition holds once its first internal cycle is over, and
/// returns once it has popped it
pub open spec fn reads_by_flags(i: Instruction) -> bool {
    i.opcode matches Token::RET(c) && c != Condition::Always
}

/// Instructions that the CPU carries out: every one the decoder produces
pub open spec fn executable(i: Instruction) -> bool {
    match i.opcode {
        Token::Prefix(_) | Token::Displacement(_) | Token::Data(_) => false,
        Token::LD_RG_RG(dst, src) => (is_register(dst) || is_register(src)) && operand_ok(i, dst) && operand_ok(i, src),
        Token::LD_RG_N(r) => operand_ok(i, r) && has_byte(i),
        Token::LD_A_MM | Token::LD_MM_A | Token::LD_RP_NN(_) | Token::LD_RP_MM(_) | Token::LD_MM_RP(_)
        | Token::JP(_) | Token::CALL(_) => has_word(i),
        Token::ALU(_, None) | Token::IN_A_N | Token::OUT_N_A => has_byte(i),
        Token::ALU(_, Some(r)) => operand_ok(i, r),
        Token::INC_RG(r) | Token::DEC_RG(r) | Token::SHOP(_, r) => r != Reg::F && operand_ok(i, r),
        Token::SHOPLD(_, r, dst) => r != Reg::F && operand_ok(i, r) && is_register(dst) && dst != Reg::F,
        Token::BIT(b, r) | Token::SET(b, r) | Token::RES(b, r) => b < 8 && operand_ok(i, r),
        Token::SETLD(b, r, dst) | Token::RESLD(b, r, dst) => b < 8 && operand_ok(i, r) && is_register(dst),
        Token::ADD_RP_RP(dst, _) => dst != RegPair::AF,
        Token::ADC_HL_RP(_) | Token::SBC_HL_RP(_) => true,
        Token::JR(_) | Token::DJNZ => i.displacement is Some,
        Token::IN_RG_AtBC(r) | Token::OUT_AtBC_RG(r) => is_register(r),
        _ => true,
    }
}

/// Block operations that move forward through memory
pub open spec fn block_increments(op: BlockOp) -> bool {
    op == BlockOp::LDI || op == BlockOp::LDIR || op == BlockOp::CPI || op == BlockOp::CPIR
    || op == BlockOp::INI || op == BlockOp::INIR || op == BlockOp::OUTI || op == BlockOp::OTIR
}

/// Block operations that repeat while the counter is not exhausted (a search also stops once
/// it finds the accumulator)
pub open spec fn block_repeats(op: BlockOp) -> bool {
    op == BlockOp::LDIR || op == BlockOp::LDDR || op == BlockOp::CPIR || op == BlockOp::CPDR
    || op == BlockOp::INIR || op == BlockOp::INDR || op == BlockOp::OTIR || op == BlockOp::OTDR
}

pub open spec fn block_kind(op: BlockOp) -> u8 {
    match op {
        BlockOp::LDI | BlockOp::LDD | BlockOp::LDIR | BlockOp::LDDR => 0,
        BlockOp::CPI | BlockOp::CPD | BlockOp::CPIR | BlockOp::CPDR => 1,
        BlockOp::INI | BlockOp::IND | BlockOp::INIR | BlockOp::INDR => 2,
        _ => 3,
    }
}

/// HL after a block operation
pub open spec fn block_hl(s: CpuState, op: BlockOp) -> u16 {
    if block_increments(op) { w16(s.hl + 1) } else { w16(s.hl - 1) }
}

/// Counter of a block operation after one step: BC for transfer and search, B for IO
pub open spec fn block_counter(s: CpuState, op: BlockOp) -> int {
    if block_kind(op) <= 1 { w16(s.bc - 1) as int } else { w8(s.reg(Reg::B) - 1) as int }
}

/// A repeating block operation goes on
pub open spec fn block_again(s: CpuState, op: BlockOp) -> bool {
    block_repeats(op) && block_counter(s, op) != 0
}

/// Stack push of a word: high byte first, one below the stack pointer
pub open spec fn push_ops(sp: u16, v: u16) -> Seq<BusOp> {
    seq![BusOp::MemWrite(w16(sp - 1), hi(v)), BusOp::MemWrite(w16(sp - 2), lo(v))]
}

/// Stack pop: low byte at the stack pointer, high byte above it
pub open spec fn pop_ops(sp: u16) -> Seq<BusOp> {
    seq![BusOp::MemRead(sp), BusOp::MemRead(w16(sp + 1))]
}

pub open spec fn set_bit(v: u8, b: u8) -> u8 {
    v | (1u8 << b)
}

pub open spec fn res_bit(v: u8, b: u8) -> u8 {
    v & !(1u8 << b)
}

/// Result of DAA
pub open spec fn daa_result(a: u8, f: u8) -> u8 {
    if fn_(f) { w8(a - daa_correction(a, f)) } else { w8(a + daa_correction(a, f)) }
}

/// The accumulator-only rotations as shift operations
pub open spec fn acc_shift(t: Token) -> ShiftOp {
    match t {
        Token::RLCA => ShiftOp::RLC,
        Token::RRCA => ShiftOp::RRC,
        Token::RLA => ShiftOp::RL,
        _ => ShiftOp::RR,
    }
}

/// Bus operations of an instruction that come before its computation: delays and reads
pub open spec fn pre_ops(s: CpuState, i: Instruction) -> Seq<BusOp> {
    let none = Seq::<BusOp>::empty();
    match i.opcode {
        Token::LD_RG_RG(dst, src) =>
            if is_index(dst) { seq![BusOp::Delay(2)] }
            else if is_index(src) { seq![BusOp::Delay(2), BusOp::MemRead(operand_addr(s, i, src))] }
            else if dst == Reg::AtHL { none }
            else if src == Reg::AtHL { seq![BusOp::MemRead(s.hl)] }
            else if (dst == Reg::I || dst == Reg::R) && src == Reg::A { seq![BusOp::Delay(1)] }
            else if dst == Reg::A && (src == Reg::I || src == Reg::R) { seq![BusOp::Delay(1)] }
            else { none },
        Token::LD_A_AtRP(rp) => seq![BusOp::MemRead(s.rpair(rp))],
        Token::LD_A_MM => seq![BusOp::MemRead(word_data(i))],
        Token::LD_RP_MM(_) => seq![BusOp::MemRead(word_data(i)), BusOp::MemRead(w16(word_data(i) + 1))],
        Token::LD_SP_RP(_) => seq![BusOp::Delay(2)],
        Token::POP(_) => pop_ops(s.sp),
        Token::PUSH(_) => seq![BusOp::Delay(1)],
        Token::EX_AtSP_RP(_) => pop_ops(s.sp) + seq![BusOp::Delay(1)],
        Token::BLOP(op) => match block_kind(op) {
            0 => seq![BusOp::MemRead(s.hl)],
            1 => seq![BusOp::MemRead(s.hl), BusOp::Delay(5)],
            2 => seq![BusOp::Delay(1), BusOp::IoRead(s.bc)],
            _ => seq![BusOp::Delay(1), BusOp::MemRead(s.hl)],
        },
        Token::ALU(_, Some(r)) => load_ops(s, i, r, seq![BusOp::Delay(5)], none, none),
        Token::INC_RG(r) | Token::DEC_RG(r) => load_ops(s, i, r, seq![BusOp::Delay(6)], seq![BusOp::Delay(1)], none),
        Token::SHOP(_, r) | Token::SHOPLD(_, r, _) | Token::BIT(_, r) | Token::SET(_, r) | Token::SETLD(_, r, _)
        | Token::RES(_, r) | Token::RESLD(_, r, _) =>
            load_ops(s, i, r, seq![BusOp::Delay(1)], none, seq![BusOp::Delay(1)]),
        Token::RLD | Token::RRD => seq![BusOp::MemRead(s.hl), BusOp::Delay(1), BusOp::Delay(3)],
        Token::ADD_RP_RP(_, _) | Token::ADC_HL_RP(_) | Token::SBC_HL_RP(_) => seq![BusOp::Delay(7)],
        Token::INC_RP(_) | Token::DEC_RP(_) => seq![BusOp::Delay(2)],
        Token::JR(cond) => if spec_satisfy(s.flags(), cond) { seq![BusOp::Delay(5)] } else { none },
        Token::RET(Condition::Always) | Token::RETI | Token::RETN => pop_ops(s.sp),
        Token::RET(cond) => seq![BusOp::Delay(1)] + if spec_satisfy(s.flags(), cond) { pop_ops(s.sp) } else { none },
        Token::RST(_) => seq![BusOp::Delay(1)],
        Token::IN_A_N => seq![BusOp::IoRead(word(s.reg(Reg::A), byte_data(i)))],
        Token::IN_RG_AtBC(_) | Token::IN_AtBC => seq![BusOp::IoRead(s.bc)],
        _ => none,
    }
}

/// A memory or IO read, or a delay: no opcode fetch, acknowledge or write
pub open spec fn plain_op(op: BusOp) -> bool {
    op is MemRead || op is IoRead || op is Delay
}

/// An instruction's operations before its computation are reads and delays only
pub proof fn lemma_pre_ops_plain(s: CpuState, i: Instruction)
    ensures
        forall|k: int| 0 <= k < pre_ops(s, i).len() ==> plain_op(#[trigger] pre_ops(s, i)[k]),
{
}

/// The result of an instruction is state `t`, next address `npc` and bus operations `post`
pub open spec fn yields(t: CpuState, npc: u16, post: Seq<BusOp>, et: CpuState, enpc: u16, epost: Seq<BusOp>) -> bool {
    &&& t == et
    &&& npc == enpc
    &&& post == epost
}

/// 8-bit loads and input/output; `g` is the flags byte left behind
#[verifier::opaque]
pub open spec fn executes_load8(s: CpuState, i: Instruction, pc: u16, f: Seq<u8>, t: CpuState, npc: u16, post: Seq<BusOp>) -> bool {
    let none = Seq::<BusOp>::empty();
    let a = s.reg(Reg::A);
    let g = t.flags();
    match i.opcode {
        Token::LD_RG_RG(dst, src) =>
            if is_index(dst) || dst == Reg::AtHL {
                yields(t, npc, post, s, pc, seq![BusOp::MemWrite(operand_addr(s, i, dst), s.reg(src))])
            } else if !is_register(src) {
                yields(t, npc, post, s.with_reg(dst, f[0]), pc, none)
            } else if dst == Reg::A && (src == Reg::I || src == Reg::R) {
                let v = s.reg(src);
                &&& flags_are(g, fc(s.flags()), false, s.iff2, false, v == 0, v >= 128, v)
                &&& yields(t, npc, post, s.with_reg(Reg::A, v).with_reg(Reg::F, g), pc, none)
            } else {
                yields(t, npc, post, s.with_reg(dst, s.reg(src)), pc, none)
            },
        Token::LD_RG_N(r) => yields(t, npc, post, store(s, r, byte_data(i)), pc, store_ops(s, i, r, byte_data(i))),
        Token::LD_A_AtRP(_) | Token::LD_A_MM | Token::IN_A_N => yields(t, npc, post, s.with_reg(Reg::A, f[0]), pc, none),
        Token::LD_AtRP_A(rp) => yields(t, npc, post, s, pc, seq![BusOp::MemWrite(s.rpair(rp), a)]),
        Token::LD_MM_A => yields(t, npc, post, s, pc, seq![BusOp::MemWrite(word_data(i), a)]),
        Token::OUT_N_A => yields(t, npc, post, s, pc, seq![BusOp::IoWrite(word(a, byte_data(i)), a)]),
        Token::IN_RG_AtBC(r) => {
            &&& flags_are(g, fc(s.flags()), false, even_parity(f[0]), false, f[0] == 0, f[0] >= 128, f[0])
            &&& yields(t, npc, post, s.with_reg(r, f[0]).with_reg(Reg::F, g), pc, none)
        },
        Token::IN_AtBC => {
            &&& flags_are(g, fc(s.flags()), false, even_parity(f[0]), false, f[0] == 0, f[0] >= 128, f[0])
            &&& yields(t, npc, post, s.with_reg(Reg::F, g), pc, none)
        },
        Token::OUT_AtBC_RG(r) => yields(t, npc, post, s, pc, seq![BusOp::IoWrite(s.bc, s.reg(r))]),
        Token::OUT_AtBC_0 => yields(t, npc, post, s, pc, seq![BusOp::IoWrite(s.bc, 0)]),
        _ => yields(t, npc, post, s, pc, none),
    }
}

/// 16-bit loads, stack and exchange
#[verifier::opaque]
pub open spec fn executes_load16(s: CpuState, i: Instruction, pc: u16, f: Seq<u8>, t: CpuState, npc: u16, post: Seq<BusOp>) -> bool {
    let none = Seq::<BusOp>::empty();
    match i.opcode {
        Token::LD_RP_NN(rp) => yields(t, npc, post, s.with_rpair(rp, word_data(i)), pc, none),
        Token::LD_RP_MM(rp) => yields(t, npc, post, s.with_rpair(rp, word(f[1], f[0])), pc, none),
        Token::LD_MM_RP(rp) => yields(t, npc, post, s, pc, seq![BusOp::MemWrite(word_data(i), lo(s.rpair(rp))),
            BusOp::MemWrite(w16(word_data(i) + 1), hi(s.rpair(rp)))]),
        Token::LD_SP_RP(rp) => yields(t, npc, post, s.with_rpair(RegPair::SP, s.rpair(rp)), pc, none),
        Token::POP(rp) => yields(t, npc, post, s.with_rpair(RegPair::SP, w16(s.sp + 2)).with_rpair(rp, word(f[1], f[0])), pc, none),
        Token::PUSH(rp) => yields(t, npc, post, s.with_rpair(RegPair::SP, w16(s.sp - 2)), pc, push_ops(s.sp, s.rpair(rp))),
        Token::EX_DE_HL => yields(t, npc, post, CpuState { hl: s.de, de: s.hl, ..s }, pc, none),
        Token::EX_AF => yields(t, npc, post, CpuState { af: s.alt_af, alt_af: s.af, ..s }, pc, none),
        Token::EXX => yields(t, npc, post,
            CpuState { bc: s.alt_bc, alt_bc: s.bc, de: s.alt_de, alt_de: s.de, hl: s.alt_hl, alt_hl: s.hl, ..s }, pc, none),
        Token::EX_AtSP_RP(rp) => yields(t, npc, post, s.with_rpair(rp, word(f[1], f[0])), pc,
            seq![BusOp::MemWrite(w16(s.sp + 1), hi(s.rpair(rp))), BusOp::MemWrite(s.sp, lo(s.rpair(rp))), BusOp::Delay(2)]),
        _ => yields(t, npc, post, s, pc, none),
    }
}

/// Block transfer, search and input/output
#[verifier::opaque]
pub open spec fn executes_block(s: CpuState, i: Instruction, pc: u16, f: Seq<u8>, t: CpuState, npc: u16, post: Seq<BusOp>) -> bool {
    let none = Seq::<BusOp>::empty();
    let a = s.reg(Reg::A);
    let g = t.flags();
    let fl = s.flags();
    match i.opcode {
        Token::BLOP(op) => {
            let ctr = block_counter(s, op);
            // a repeating search also stops once it finds the accumulator
            let more = block_again(s, op) && !(block_kind(op) == 1 && a == f[0]);
            let again = if more { seq![BusOp::Delay(5)] } else { none };
            let npc_ok = npc == if more { w16(pc - 2) } else { pc };
            let hl = block_hl(s, op);
            match block_kind(op) {
                0 => {
                    let de = if block_increments(op) { w16(s.de + 1) } else { w16(s.de - 1) };
                    &&& flags_are(g, fc(fl), false, ctr != 0, false, false, false, block_xy(w8(a + f[0])))
                    &&& t == s.with_rpair(RegPair::HL, hl).with_rpair(RegPair::DE, de)
                        .with_rpair(RegPair::BC, ctr as u16).with_reg(Reg::F, g)
                    &&& npc_ok
                    &&& post == seq![BusOp::MemWrite(s.de, f[0]), BusOp::Delay(2)] + again
                },
                1 => {
                    let n = w8(a - f[0]);
                    let h = a % 16 < f[0] % 16;
                    &&& flags_are(g, fc(fl), true, ctr != 0, h, n == 0, n >= 128, block_xy(if h { w8(n - 1) } else { n }))
                    &&& t == s.with_rpair(RegPair::HL, hl).with_rpair(RegPair::BC, ctr as u16).with_reg(Reg::F, g)
                    &&& npc_ok
                    &&& post == again
                },
                2 => {
                    &&& flags_are(g, fc(fl), true, false, false, ctr == 0, ctr >= 128, 0)
                    &&& t == s.with_rpair(RegPair::HL, hl).with_reg(Reg::B, ctr as u8).with_reg(Reg::F, g)
                    &&& npc_ok
                    &&& post == seq![BusOp::MemWrite(s.hl, f[0]), BusOp::Delay(1)] + again
                },
                _ => {
                    &&& flags_are(g, fc(fl), true, false, false, ctr == 0, ctr >= 128, 0)
                    &&& t == s.with_rpair(RegPair::HL, hl).with_reg(Reg::B, ctr as u8).with_reg(Reg::F, g)
                    &&& npc_ok
                    &&& post == seq![BusOp::IoWrite(s.bc, f[0]), BusOp::Delay(1)] + again
                },
            }
        },
        _ => yields(t, npc, post, s, pc, none),
    }
}

/// 8-bit arithmetic and logic
#[verifier::opaque]
pub open spec fn executes_arith8(s: CpuState, i: Instruction, pc: u16, f: Seq<u8>, t: CpuState, npc: u16, post: Seq<BusOp>) -> bool {
    let none = Seq::<BusOp>::empty();
    let a = s.reg(Reg::A);
    let g = t.flags();
    let fl = s.flags();
    match i.opcode {
        Token::ALU(op, r) => {
            let v = match r { Some(r) => operand(s, r, f), None => byte_data(i) };
            &&& spec_alu_flags(op, a, v, fl, g)
            &&& yields(t, npc, post, if op == AluOp::CP { s.with_reg(Reg::F, g) }
                    else { s.with_reg(Reg::F, g).with_reg(Reg::A, spec_alu_result(op, a, v, fl)) }, pc, none)
        },
        Token::INC_RG(r) => {
            let v = operand(s, r, f);
            let res = w8(v + 1);
            &&& flags_are(g, fc(fl), false, v == 0x7f, v % 16 == 15, res == 0, res >= 128, res)
            &&& yields(t, npc, post, store(s.with_reg(Reg::F, g), r, res), pc, store_ops(s, i, r, res))
        },
        Token::DEC_RG(r) => {
            let v = operand(s, r, f);
            let res = w8(v - 1);
            &&& flags_are(g, fc(fl), true, v == 0x80, v % 16 == 0, res == 0, res >= 128, res)
            &&& yields(t, npc, post, store(s.with_reg(Reg::F, g), r, res), pc, store_ops(s, i, r, res))
        },
        Token::DAA => {
            let c = daa_correction(a, fl);
            let res = daa_result(a, fl);
            &&& flags_are(g, if fn_(fl) { a < c } else { a + c > 255 }, fn_(fl), even_parity(res),
                    if fn_(fl) { a % 16 < c % 16 } else { a % 16 + c % 16 > 15 }, res == 0, res >= 128, res)
            &&& yields(t, npc, post, s.with_reg(Reg::F, g).with_reg(Reg::A, res), pc, none)
        },
        Token::CPL => {
            &&& flags_are(g, fc(fl), true, fp(fl), true, fz(fl), fs(fl), (255 - a) as u8)
            &&& yields(t, npc, post, s.with_reg(Reg::A, (255 - a) as u8).with_reg(Reg::F, g), pc, none)
        },
        Token::NEG => {
            let res = w8(256 - a);
            &&& flags_are(g, a != 0, true, a == 0x80, a % 16 != 0, res == 0, res >= 128, res)
            &&& yields(t, npc, post, s.with_reg(Reg::F, g).with_reg(Reg::A, res), pc, none)
        },
        Token::CCF => {
            &&& flags_are(g, !fc(fl), fn_(fl), fp(fl), fh(fl), fz(fl), fs(fl), fl)
            &&& yields(t, npc, post, s.with_reg(Reg::F, g), pc, none)
        },
        Token::SCF => {
            &&& flags_are(g, true, fn_(fl), fp(fl), fh(fl), fz(fl), fs(fl), fl)
            &&& yields(t, npc, post, s.with_reg(Reg::F, g), pc, none)
        },
        _ => yields(t, npc, post, s, pc, none),
    }
}

/// CPU control and 16-bit arithmetic
#[verifier::opaque]
pub open spec fn executes_control(s: CpuState, i: Instruction, pc: u16, f: Seq<u8>, t: CpuState, npc: u16, post: Seq<BusOp>) -> bool {
    let none = Seq::<BusOp>::empty();
    let g = t.flags();
    let fl = s.flags();
    match i.opcode {
        Token::HALT => yields(t, npc, post, s, w16(pc - 1), none),
        Token::DI => yields(t, npc, post, CpuState { iff1: false, iff2: false, ..s }, pc, none),
        Token::EI => yields(t, npc, post, CpuState { iff1: true, iff2: true, ..s }, pc, none),
        Token::IM(mode) => yields(t, npc, post, CpuState { im: mode, ..s }, pc, none),
        Token::ADD_RP_RP(dst, src) => {
            let l = s.rpair(dst);
            let r = s.rpair(src);
            &&& flags_are(g, l + r > 65535, false, fp(fl), l % 4096 + r % 4096 > 4095, fz(fl), fs(fl), fl)
            &&& yields(t, npc, post, s.with_rpair(dst, w16(l + r)).with_reg(Reg::F, g), pc, none)
        },
        Token::ADC_HL_RP(rp) => {
            let l = s.hl;
            let r = s.rpair(rp);
            let c = b2i(fc(fl));
            let res = w16(l + r + c);
            &&& flags_are(g, l + r + c > 65535, false, !(-0x8000 <= sx16(l) + sx16(r) + c <= 0x7fff),
                    l % 4096 + r % 4096 + c > 4095, res == 0, res >= 0x8000, (res / 256) as u8)
            &&& yields(t, npc, post, s.with_rpair(RegPair::HL, res).with_reg(Reg::F, g), pc, none)
        },
        Token::SBC_HL_RP(rp) => {
            let l = s.hl;
            let r = s.rpair(rp);
            let c = b2i(fc(fl));
            let res = w16(l - r - c);
            &&& flags_are(g, l - r - c < 0, true, !(-0x8000 <= sx16(l) - sx16(r) - c <= 0x7fff),
                    l % 4096 - r % 4096 - c < 0, res == 0, res >= 0x8000, (res / 256) as u8)
            &&& yields(t, npc, post, s.with_rpair(RegPair::HL, res).with_reg(Reg::F, g), pc, none)
        },
        Token::INC_RP(rp) => yields(t, npc, post, s.with_rpair(rp, w16(s.rpair(rp) + 1)), pc, none),
        Token::DEC_RP(rp) => yields(t, npc, post, s.with_rpair(rp, w16(s.rpair(rp) - 1)), pc, none),
        _ => yields(t, npc, post, s, pc, none),
    }
}

/// Rotations, shifts and bit operations
#[verifier::opaque]
pub open spec fn executes_bits(s: CpuState, i: Instruction, pc: u16, f: Seq<u8>, t: CpuState, npc: u16, post: Seq<BusOp>) -> bool {
    let none = Seq::<BusOp>::empty();
    let a = s.reg(Reg::A);
    let g = t.flags();
    let fl = s.flags();
    match i.opcode {
        Token::RLCA | Token::RRCA | Token::RLA | Token::RRA => {
            let (res, carry) = spec_shift(acc_shift(i.opcode), a, fc(fl));
            &&& flags_are(g, carry, false, fp(fl), false, fz(fl), fs(fl), fl)
            &&& yields(t, npc, post, s.with_reg(Reg::A, res).with_reg(Reg::F, g), pc, none)
        },
        Token::SHOP(op, r) => {
            let (res, carry) = spec_shift(op, operand(s, r, f), fc(fl));
            &&& flags_are(g, carry, false, even_parity(res), false, res == 0, res >= 128, res)
            &&& yields(t, npc, post, store(s, r, res).with_reg(Reg::F, g), pc, store_ops(s, i, r, res))
        },
        Token::SHOPLD(op, r, dst) => {
            let (res, carry) = spec_shift(op, operand(s, r, f), fc(fl));
            &&& flags_are(g, carry, false, even_parity(res), false, res == 0, res >= 128, res)
            &&& yields(t, npc, post, store(s, r, res).with_reg(dst, res).with_reg(Reg::F, g), pc, store_ops(s, i, r, res))
        },
        Token::RLD => {
            let m = ((f[0] % 16) * 16 + a % 16) as u8;
            let na = (a - a % 16 + f[0] / 16) as u8;
            &&& flags_are(g, fc(fl), false, even_parity(na), false, na == 0, na >= 128, na)
            &&& yields(t, npc, post, s.with_reg(Reg::A, (a - a % 16 + f[0] / 16) as u8).with_reg(Reg::F, g), pc,
                    seq![BusOp::MemWrite(s.hl, m)])
        },
        Token::RRD => {
            let m = ((a % 16) * 16 + f[0] / 16) as u8;
            let na = (a - a % 16 + f[0] % 16) as u8;
            &&& flags_are(g, fc(fl), false, even_parity(na), false, na == 0, na >= 128, na)
            &&& yields(t, npc, post, s.with_reg(Reg::A, (a - a % 16 + f[0] % 16) as u8).with_reg(Reg::F, g), pc,
                    seq![BusOp::MemWrite(s.hl, m)])
        },
        Token::BIT(b, r) => {
            let v = operand(s, r, f);
            &&& flags_are(g, fc(fl), false, !bit_is_set(v, b), true, !bit_is_set(v, b), b == 7 && bit_is_set(v, b), fl)
            &&& yields(t, npc, post, s.with_reg(Reg::F, g), pc, none)
        },
        Token::SET(b, r) => {
            let res = set_bit(operand(s, r, f), b);
            yields(t, npc, post, store(s, r, res), pc, store_ops(s, i, r, res))
        },
        Token::SETLD(b, r, dst) => {
            let res = set_bit(operand(s, r, f), b);
            yields(t, npc, post, store(s, r, res).with_reg(dst, res), pc, store_ops(s, i, r, res))
        },
        Token::RES(b, r) => {
            let res = res_bit(operand(s, r, f), b);
            yields(t, npc, post, store(s, r, res), pc, store_ops(s, i, r, res))
        },
        Token::RESLD(b, r, dst) => {
            let res = res_bit(operand(s, r, f), b);
            yields(t, npc, post, store(s, r, res).with_reg(dst, res), pc, store_ops(s, i, r, res))
        },
        _ => yields(t, npc, post, s, pc, none),
    }
}

/// Jumps, calls and returns
#[verifier::opaque]
pub open spec fn executes_jump(s: CpuState, i: Instruction, pc: u16, f: Seq<u8>, t: CpuState, npc: u16, post: Seq<BusOp>) -> bool {
    let none = Seq::<BusOp>::empty();
    let taken = |c: Condition| spec_satisfy(s.flags(), c);
    match i.opcode {
        Token::JP(c) => yields(t, npc, post, s, if taken(c) { word_data(i) } else { pc }, none),
        Token::JP_RP(rp) => yields(t, npc, post, s, s.rpair(rp), none),
        Token::JR(c) => yields(t, npc, post, s, if taken(c) { w16(pc + i.displacement.unwrap()) } else { pc }, none),
        Token::DJNZ => {
            let b = w8(s.reg(Reg::B) - 1);
            yields(t, npc, post, s.with_reg(Reg::B, b), if b != 0 { w16(pc + i.displacement.unwrap()) } else { pc },
                if b != 0 { seq![BusOp::Delay(5)] } else { none })
        },
        Token::CALL(c) =>
            if taken(c) {
                yields(t, npc, post, s.with_rpair(RegPair::SP, w16(s.sp - 2)), word_data(i), seq![BusOp::Delay(1)] + push_ops(s.sp, pc))
            } else {
                yields(t, npc, post, s, pc, none)
            },
        Token::RET(c) =>
            if taken(c) || f.len() == 2 {
                yields(t, npc, post, s.with_rpair(RegPair::SP, w16(s.sp + 2)), word(f[1], f[0]), none)
            } else {
                yields(t, npc, post, s, pc, none)
            },
        Token::RETI | Token::RETN =>
            yields(t, npc, post, CpuState { iff1: s.iff2, ..s }.with_rpair(RegPair::SP, w16(s.sp + 2)), word(f[1], f[0]), none),
        Token::RST(y) => yields(t, npc, post, s.with_rpair(RegPair::SP, w16(s.sp - 2)), (y * 8) as u16, push_ops(s.sp, pc)),
        _ => yields(t, npc, post, s, pc, none),
    }
}

/// An instruction carried out from state `s`, its bytes ending before `pc`, with the bytes
/// `f` read by its pre-operations: it leaves state `t`, continues at `npc`, performs `post`
/// on the bus, and halts the CPU when `halt`
pub open spec fn executes(s: CpuState, i: Instruction, pc: u16, f: Seq<u8>, t: CpuState, npc: u16, post: Seq<BusOp>, halt: bool) -> bool {
    &&& halt == (i.opcode == Token::HALT)
    &&& match group(i.opcode) {
        1 => executes_load8(s, i, pc, f, t, npc, post),
        2 => executes_load16(s, i, pc, f, t, npc, post),
        3 => executes_block(s, i, pc, f, t, npc, post),
        4 => executes_arith8(s, i, pc, f, t, npc, post),
        5 => executes_control(s, i, pc, f, t, npc, post),
        6 => executes_bits(s, i, pc, f, t, npc, post),
        7 => executes_jump(s, i, pc, f, t, npc, post),
        _ => yields(t, npc, post, s, pc, Seq::empty()),
    }
}

/// An instruction carried out: the registers before and after, the address after its bytes
/// and of the next instruction, the bytes its pre-operations read, the bus operations that
/// follow and whether it halts
pub struct Executed {
    pub before: CpuState,
    pub instr: Instruction,
    pub pc: u16,
    pub reads: Seq<u8>,
    pub after: CpuState,
    pub next_pc: u16,
    pub post: Seq<BusOp>,
    pub halt: bool,
}

/// The record agrees with what the instruction does
pub open spec fn carried_out(e: Executed) -> bool {
    executes(e.before, e.instr, e.pc, e.reads, e.after, e.next_pc, e.post, e.halt)
}

/// Instruction groups, each carried out by a function of its own
pub open spec fn group(t: Token) -> u8 {
    match t {
        Token::LD_RG_RG(_, _) | Token::LD_RG_N(_) | Token::LD_A_AtRP(_) | Token::LD_AtRP_A(_) | Token::LD_A_MM
        | Token::LD_MM_A | Token::IN_A_N | Token::OUT_N_A | Token::IN_RG_AtBC(_) | Token::OUT_AtBC_RG(_)
        | Token::IN_AtBC | Token::OUT_AtBC_0 => 1,
        Token::LD_RP_NN(_) | Token::LD_RP_MM(_) | Token::LD_MM_RP(_) | Token::LD_SP_RP(_) | Token::POP(_)
        | Token::PUSH(_) | Token::EX_DE_HL | Token::EX_AF | Token::EXX | Token::EX_AtSP_RP(_) => 2,
        Token::BLOP(_) => 3,
        Token::ALU(_, _) | Token::INC_RG(_) | Token::DEC_RG(_) | Token::DAA | Token::CPL | Token::NEG
        | Token::CCF | Token::SCF => 4,
        Token::NOP | Token::HALT | Token::DI | Token::EI | Token::IM(_) | Token::ADD_RP_RP(_, _) | Token::ADC_HL_RP(_)
        | Token::SBC_HL_RP(_) | Token::INC_RP(_) | Token::DEC_RP(_) => 5,
        Token::RLCA | Token::RRCA | Token::RLA | Token::RRA | Token::SHOP(_, _) | Token::SHOPLD(_, _, _)
        | Token::RLD | Token::RRD | Token::BIT(_, _) | Token::SET(_, _) | Token::SETLD(_, _, _) | Token::RES(_, _)
        | Token::RESLD(_, _, _) => 6,
        Token::JP(_) | Token::JP_RP(_) | Token::JR(_) | Token::DJNZ | Token::CALL(_) | Token::RET(_) | Token::RETI
        | Token::RETN | Token::RST(_) => 7,
        _ => 0,
    }
}

/// One for a bus operation that reads a byte
pub open spec fn read_count(op: BusOp) -> nat {
    if is_read(op) { 1 } else { 0 }
}

/// The reads of two sequences of bus operations add up
pub proof fn lemma_reads_concat(x: Seq<BusOp>, y: Seq<BusOp>)
    ensures
        count_reads(x + y) == count_reads(x) + count_reads(y),
    decreases y.len(),
{
    if y.len() == 0 {
        assert(x + y =~= x);
    } else {
        lemma_reads_concat(x, y.drop_last());
        assert((x + y).drop_last() =~= x + y.drop_last());
    }
}

/// Reads of short sequences of bus operations
pub proof fn lemma_reads_small(a: BusOp, b: BusOp, c: BusOp)
    ensures
        count_reads(Seq::<BusOp>::empty()) == 0,
        count_reads(seq![a]) == read_count(a),
        count_reads(seq![a, b]) == read_count(a) + read_count(b),
        count_reads(seq![a, b, c]) == read_count(a) + read_count(b) + read_count(c),
{
    reveal_with_fuel(count_reads, 4);
    assert(seq![a].drop_last() =~= Seq::<BusOp>::empty());
    assert(seq![a, b].drop_last() =~= seq![a]);
    assert(seq![a, b, c].drop_last() =~= seq![a, b]);
}

/// The bytes an instruction reads depend on the flags alone of its state
pub proof fn lemma_n_reads_flags(s: CpuState, t: CpuState, i: Instruction)
    requires
        s.af == t.af,
    ensures
        n_reads(s, i) == n_reads(t, i),
{
}

/// The pre-operations of an instruction read as many bytes as it uses
pub proof fn lemma_pre_reads(s: CpuState, i: Instruction)
    requires
        executable(i),
    ensures
        count_reads(pre_ops(s, i)) == n_reads(s, i),
{
    let rd = BusOp::MemRead(0);
    let dl = BusOp::Delay(0);
    lemma_reads_small(rd, dl, dl);
    lemma_reads_small(dl, rd, dl);
    lemma_reads_small(rd, rd, dl);
    lemma_reads_small(BusOp::IoRead(0), dl, dl);
    lemma_reads_small(dl, BusOp::IoRead(0), dl);
    match i.opcode {
        Token::LD_RG_RG(dst, src) => {
            if is_index(src) {
                lemma_reads_small(BusOp::Delay(2), BusOp::MemRead(operand_addr(s, i, src)), dl);
            }
            lemma_reads_small(BusOp::MemRead(s.hl), dl, dl);
            lemma_reads_small(BusOp::Delay(1), dl, dl);
            lemma_reads_small(BusOp::Delay(2), dl, dl);
        },
        Token::LD_A_AtRP(rp) => lemma_reads_small(BusOp::MemRead(s.rpair(rp)), dl, dl),
        Token::LD_A_MM => lemma_reads_small(BusOp::MemRead(word_data(i)), dl, dl),
        Token::LD_RP_MM(_) => lemma_reads_small(BusOp::MemRead(word_data(i)), BusOp::MemRead(w16(word_data(i) + 1)), dl),
        Token::POP(_) | Token::RETI | Token::RETN => lemma_reads_small(BusOp::MemRead(s.sp), BusOp::MemRead(w16(s.sp + 1)), dl),
        Token::EX_AtSP_RP(_) => {
            lemma_reads_small(BusOp::MemRead(s.sp), BusOp::MemRead(w16(s.sp + 1)), BusOp::Delay(1));
            lemma_reads_concat(pop_ops(s.sp), seq![BusOp::Delay(1)]);
            lemma_reads_small(BusOp::Delay(1), dl, dl);
        },
        Token::RET(cond) => {
            lemma_reads_small(BusOp::MemRead(s.sp), BusOp::MemRead(w16(s.sp + 1)), dl);
            lemma_reads_small(BusOp::Delay(1), dl, dl);
            if spec_satisfy(s.flags(), cond) {
                lemma_reads_concat(seq![BusOp::Delay(1)], pop_ops(s.sp));
            } else {
                lemma_reads_concat(seq![BusOp::Delay(1)], Seq::<BusOp>::empty());
            }
        },
        Token::BLOP(op) => {
            lemma_reads_small(BusOp::MemRead(s.hl), BusOp::Delay(5), dl);
            lemma_reads_small(BusOp::Delay(1), BusOp::IoRead(s.bc), dl);
            lemma_reads_small(BusOp::Delay(1), BusOp::MemRead(s.hl), dl);
        },
        Token::ALU(_, Some(r)) | Token::INC_RG(r) | Token::DEC_RG(r) | Token::SHOP(_, r) | Token::SHOPLD(_, r, _)
        | Token::BIT(_, r) | Token::SET(_, r) | Token::SETLD(_, r, _) | Token::RES(_, r) | Token::RESLD(_, r, _) => {
            if !is_register(r) {
                let m = if r == Reg::AtHL { BusOp::MemRead(s.hl) } else { BusOp::MemRead(operand_addr(s, i, r)) };
                lemma_reads_small(m, dl, dl);
                lemma_reads_small(BusOp::Delay(5), dl, dl);
                lemma_reads_small(BusOp::Delay(6), dl, dl);
                lemma_reads_small(BusOp::Delay(1), dl, dl);
                let e = Seq::<BusOp>::empty();
                lemma_reads_concat(e, seq![m]);
                lemma_reads_concat(e + seq![m], e);
                lemma_reads_concat(seq![BusOp::Delay(5)], seq![m]);
                lemma_reads_concat(seq![BusOp::Delay(5)] + seq![m], e);
                lemma_reads_concat(seq![BusOp::Delay(6)], seq![m]);
                lemma_reads_concat(seq![BusOp::Delay(6)] + seq![m], e);
                lemma_reads_concat(seq![BusOp::Delay(1)], seq![m]);
                lemma_reads_concat(seq![BusOp::Delay(1)] + seq![m], e);
                lemma_reads_concat(e + seq![m], seq![BusOp::Delay(1)]);
                lemma_reads_concat(seq![BusOp::Delay(1)] + seq![m], seq![BusOp::Delay(1)]);
            }
        },
        Token::RLD | Token::RRD => lemma_reads_small(BusOp::MemRead(s.hl), BusOp::Delay(1), BusOp::Delay(3)),
        Token::IN_A_N => lemma_reads_small(BusOp::IoRead(word(s.reg(Reg::A), byte_data(i))), dl, dl),
        Token::IN_RG_AtBC(_) | Token::IN_AtBC => lemma_reads_small(BusOp::IoRead(s.bc), dl, dl),
        Token::LD_SP_RP(_) | Token::PUSH(_) | Token::RST(_) => {
            lemma_reads_small(BusOp::Delay(1), dl, dl);
            lemma_reads_small(BusOp::Delay(2), dl, dl);
        },
        Token::JR(_) => lemma_reads_small(BusOp::Delay(5), dl, dl),
        _ => {
            lemma_reads_small(BusOp::Delay(1), dl, dl);
            lemma_reads_small(BusOp::Delay(2), dl, dl);
            lemma_reads_small(BusOp::Delay(7), dl, dl);
        },
    }
}


/// What an instruction leaves for the CPU to do after its computation
pub struct Effects {
    /// Address of the next instruction
    pub pc: u16,
    /// Bus writes and delays that follow
    pub post: Vec<BusOp>,
    /// The instruction halts the CPU
    pub halt: bool,
}

/// Word incremented, wrapping around
pub fn inc16(x: u16) -> (r: u16)
    ensures
        r == w16(x + 1),
{
    if x == 0xffff { 0 } else { x + 1 }
}

/// Word decremented, wrapping around
pub fn dec16(x: u16) -> (r: u16)
    ensures
        r == w16(x - 1),
{
    if x == 0 { 0xffff } else { x - 1 }
}

fn add2_16(x: u16) -> (r: u16)
    ensures
        r == w16(x + 2),
{
    if x >= 0xfffe { x - 0xfffe } else { x + 2 }
}

/// Word less two, wrapping around
pub fn sub2_16(x: u16) -> (r: u16)
    ensures
        r == w16(x - 2),
{
    if x < 2 { x + 0xfffe } else { x - 2 }
}

fn offset16(x: u16, d: i8) -> (r: u16)
    ensures
        r == w16(x + d),
{
    let v: i32 = x as i32 + d as i32;
    if v < 0 {
        (v + 0x10000) as u16
    } else if v >= 0x10000 {
        (v - 0x10000) as u16
    } else {
        v as u16
    }
}

fn dec8w(x: u8) -> (r: u8)
    ensures
        r == w8(x - 1),
{
    if x == 0 { 0xff } else { x - 1 }
}

fn is_reg_operand(r: Reg) -> (b: bool)
    ensures
        b == is_register(r),
{
    !matches!(r, Reg::AtHL | Reg::AtIX | Reg::AtIY)
}

fn is_index_operand(r: Reg) -> (b: bool)
    ensures
        b == is_index(r),
{
    matches!(r, Reg::AtIX | Reg::AtIY)
}

fn operand_address(s: &CpuState, i: &Instruction, r: Reg) -> (a: u16)
    requires
        !is_register(r),
        operand_ok(*i, r),
    ensures
        a == operand_addr(*s, *i, r),
{
    match r {
        Reg::AtHL => s.hl,
        _ => s.idx_addr(r, i.displacement.unwrap()),
    }
}

fn byte_data_of(i: &Instruction) -> (b: u8)
    ensures
        b == byte_data(*i),
{
    match i.data {
        Some(DataValue::Byte(b)) => b,
        _ => 0,
    }
}

fn word_data_of(i: &Instruction) -> (w: u16)
    ensures
        w == word_data(*i),
{
    match i.data {
        Some(DataValue::Word(w)) => w,
        _ => 0,
    }
}

fn load_ops_of(s: &CpuState, i: &Instruction, r: Reg, idx: Vec<BusOp>, hl: Vec<BusOp>, after: Vec<BusOp>) -> (v: Vec<BusOp>)
    requires
        operand_ok(*i, r),
    ensures
        v@ == load_ops(*s, *i, r, idx@, hl@, after@),
{
    let mut after = after;
    if is_reg_operand(r) {
        Vec::new()
    } else if matches!(r, Reg::AtHL) {
        let mut v = hl;
        v.push(BusOp::MemRead(s.hl));
        v.append(&mut after);
        v
    } else {
        let mut v = idx;
        v.push(BusOp::MemRead(operand_address(s, i, r)));
        v.append(&mut after);
        v
    }
}

fn satisfied(s: &CpuState, cond: Condition) -> (b: bool)
    ensures
        b == spec_satisfy(s.flags(), cond),
{
    s.get_flags().satisfy(cond)
}

/// Bus operations that come before the computation of an instruction: delays and reads
pub fn instr_pre_ops(s: &CpuState, i: &Instruction) -> (r: Vec<BusOp>)
    requires
        executable(*i),
    ensures
        r@ == pre_ops(*s, *i),
{
    match i.opcode {
        Token::LD_RG_RG(dst, src) => {
            if is_index_operand(dst) {
                vec![BusOp::Delay(2)]
            } else if is_index_operand(src) {
                vec![BusOp::Delay(2), BusOp::MemRead(operand_address(s, i, src))]
            } else if matches!(dst, Reg::AtHL) {
                Vec::new()
            } else if matches!(src, Reg::AtHL) {
                vec![BusOp::MemRead(s.hl)]
            } else if matches!(dst, Reg::I | Reg::R) && matches!(src, Reg::A) {
                vec![BusOp::Delay(1)]
            } else if matches!(dst, Reg::A) && matches!(src, Reg::I | Reg::R) {
                vec![BusOp::Delay(1)]
            } else {
                Vec::new()
            }
        },
        Token::LD_A_AtRP(rp) => vec![BusOp::MemRead(s.rp(rp))],
        Token::LD_A_MM => vec![BusOp::MemRead(word_data_of(i))],
        Token::LD_RP_MM(_) => {
            let nn = word_data_of(i);
            vec![BusOp::MemRead(nn), BusOp::MemRead(inc16(nn))]
        },
        Token::LD_SP_RP(_) => vec![BusOp::Delay(2)],
        Token::POP(_) => vec![BusOp::MemRead(s.sp), BusOp::MemRead(inc16(s.sp))],
        Token::PUSH(_) => vec![BusOp::Delay(1)],
        Token::EX_AtSP_RP(_) => {
            let v = vec![BusOp::MemRead(s.sp), BusOp::MemRead(inc16(s.sp)), BusOp::Delay(1)];
            assert(v@ == pop_ops(s.sp) + seq![BusOp::Delay(1)]);
            v
        },
        Token::BLOP(op) => match op {
            BlockOp::LDI | BlockOp::LDD | BlockOp::LDIR | BlockOp::LDDR => vec![BusOp::MemRead(s.hl)],
            BlockOp::CPI | BlockOp::CPD | BlockOp::CPIR | BlockOp::CPDR => vec![BusOp::MemRead(s.hl), BusOp::Delay(5)],
            BlockOp::INI | BlockOp::IND | BlockOp::INIR | BlockOp::INDR => vec![BusOp::Delay(1), BusOp::IoRead(s.bc)],
            _ => vec![BusOp::Delay(1), BusOp::MemRead(s.hl)],
        },
        Token::ALU(_, Some(r)) => load_ops_of(s, i, r, vec![BusOp::Delay(5)], Vec::new(), Vec::new()),
        Token::INC_RG(r) | Token::DEC_RG(r) => load_ops_of(s, i, r, vec![BusOp::Delay(6)], vec![BusOp::Delay(1)], Vec::new()),
        Token::SHOP(_, r) | Token::SHOPLD(_, r, _) | Token::BIT(_, r) | Token::SET(_, r) | Token::SETLD(_, r, _)
        | Token::RES(_, r) | Token::RESLD(_, r, _) =>
            load_ops_of(s, i, r, vec![BusOp::Delay(1)], Vec::new(), vec![BusOp::Delay(1)]),
        Token::RLD | Token::RRD => vec![BusOp::MemRead(s.hl), BusOp::Delay(1), BusOp::Delay(3)],
        Token::ADD_RP_RP(_, _) | Token::ADC_HL_RP(_) | Token::SBC_HL_RP(_) => vec![BusOp::Delay(7)],
        Token::INC_RP(_) | Token::DEC_RP(_) => vec![BusOp::Delay(2)],
        Token::JR(cond) => if satisfied(s, cond) { vec![BusOp::Delay(5)] } else { Vec::new() },
        Token::RET(Condition::Always) | Token::RETI | Token::RETN => vec![BusOp::MemRead(s.sp), BusOp::MemRead(inc16(s.sp))],
        Token::RET(cond) => {
            if satisfied(s, cond) {
                let v = vec![BusOp::Delay(1), BusOp::MemRead(s.sp), BusOp::MemRead(inc16(s.sp))];
                assert(v@ == seq![BusOp::Delay(1)] + pop_ops(s.sp));
                v
            } else {
                let v = vec![BusOp::Delay(1)];
                assert(v@ == seq![BusOp::Delay(1)] + Seq::<BusOp>::empty());
                v
            }
        },
        Token::RST(_) => vec![BusOp::Delay(1)],
        Token::IN_A_N => vec![BusOp::IoRead(crate::cpu::state::mkword(s.rg(Reg::A), byte_data_of(i)))],
        Token::IN_RG_AtBC(_) | Token::IN_AtBC => vec![BusOp::IoRead(s.bc)],
        _ => Vec::new(),
    }
}


fn read_operand(s: &CpuState, r: Reg, f: &Vec<u8>) -> (v: u8)
    requires
        is_register(r) || f.len() >= 1,
    ensures
        v == operand(*s, r, f@),
{
    if is_reg_operand(r) { s.rg(r) } else { f[0] }
}

fn store_operand(s: &mut CpuState, i: &Instruction, r: Reg, v: u8) -> (ops: Vec<BusOp>)
    requires
        operand_ok(*i, r),
    ensures
        *final(s) == store(*old(s), r, v),
        ops@ == store_ops(*old(s), *i, r, v),
{
    if is_reg_operand(r) {
        s.set_rg(r, v);
        Vec::new()
    } else {
        ops1(BusOp::MemWrite(operand_address(s, i, r), v))
    }
}

fn done(pc: u16, post: Vec<BusOp>) -> (e: Effects)
    ensures
        e.pc == pc,
        e.post@ == post@,
        !e.halt,
{
    Effects { pc, post, halt: false }
}

fn ops1(a: BusOp) -> (v: Vec<BusOp>)
    ensures
        v@ == seq![a],
{
    vec![a]
}

fn ops2(a: BusOp, b: BusOp) -> (v: Vec<BusOp>)
    ensures
        v@ == seq![a, b],
{
    vec![a, b]
}

fn ops3(a: BusOp, b: BusOp, c: BusOp) -> (v: Vec<BusOp>)
    ensures
        v@ == seq![a, b, c],
{
    vec![a, b, c]
}

/// `LD r,r'` and its memory forms
#[verifier::spinoff_prover]
#[verifier::rlimit(60)]
fn exec_ld(s: &mut CpuState, i: &Instruction, pc: u16, f: &Vec<u8>, dst: Reg, src: Reg) -> (e: Effects)
    requires
        executable(*i),
        i.opcode == Token::LD_RG_RG(dst, src),
        f.len() == n_reads(*old(s), *i),
    ensures
        executes_load8(*old(s), *i, pc, f@, *final(s), e.pc, e.post@),
        !e.halt,
{
    reveal(executes_load8);
    if is_index_operand(dst) || matches!(dst, Reg::AtHL) {
        let v = s.rg(src);
        done(pc, ops1(BusOp::MemWrite(operand_address(s, i, dst), v)))
    } else if !is_reg_operand(src) {
        s.set_rg(dst, f[0]);
        done(pc, Vec::new())
    } else if matches!(dst, Reg::A) && matches!(src, Reg::I | Reg::R) {
        let value = s.rg(src);
        let g = ld_a_ir_flags(value, s.iff2, s.rg(Reg::F));
        s.set_rg(Reg::A, value);
        s.set_rg(Reg::F, g);
        proof { crate::cpu::state::lemma_word_halves(hi(s.af), g); }
        done(pc, Vec::new())
    } else {
        let v = s.rg(src);
        s.set_rg(dst, v);
        done(pc, Vec::new())
    }
}

/// 8-bit loads and input/output
fn exec_load8(s: &mut CpuState, i: &Instruction, pc: u16, f: &Vec<u8>) -> (e: Effects)
    requires
        executable(*i),
        group(i.opcode) == 1,
        f.len() == n_reads(*old(s), *i),
    ensures
        executes_load8(*old(s), *i, pc, f@, *final(s), e.pc, e.post@),
        !e.halt,
{
    reveal(executes_load8);
    match i.opcode {
        Token::LD_RG_RG(dst, src) => exec_ld(s, i, pc, f, dst, src),
        Token::LD_RG_N(r) => {
            let post = store_operand(s, i, r, byte_data_of(i));
            done(pc, post)
        },
        Token::LD_A_AtRP(_) | Token::LD_A_MM | Token::IN_A_N => {
            s.set_rg(Reg::A, f[0]);
            done(pc, Vec::new())
        },
        Token::LD_AtRP_A(rp) => done(pc, ops1(BusOp::MemWrite(s.rp(rp), s.rg(Reg::A)))),
        Token::LD_MM_A => done(pc, ops1(BusOp::MemWrite(word_data_of(i), s.rg(Reg::A)))),
        Token::OUT_N_A => {
            let a = s.rg(Reg::A);
            done(pc, ops1(BusOp::IoWrite(crate::cpu::state::mkword(a, byte_data_of(i)), a)))
        },
        Token::IN_RG_AtBC(r) => {
            let g = in_flags(f[0], s.rg(Reg::F));
            s.set_rg(r, f[0]);
            set_flags_byte(s, g);
            done(pc, Vec::new())
        },
        Token::IN_AtBC => {
            let g = in_flags(f[0], s.rg(Reg::F));
            set_flags_byte(s, g);
            done(pc, Vec::new())
        },
        Token::OUT_AtBC_RG(r) => done(pc, ops1(BusOp::IoWrite(s.bc, s.rg(r)))),
        Token::OUT_AtBC_0 => done(pc, ops1(BusOp::IoWrite(s.bc, 0))),
        _ => done(pc, Vec::new()),
    }
}

/// 16-bit loads, stack and exchange
fn exec_load16(s: &mut CpuState, i: &Instruction, pc: u16, f: &Vec<u8>) -> (e: Effects)
    requires
        executable(*i),
        group(i.opcode) == 2,
        f.len() == n_reads(*old(s), *i),
    ensures
        executes_load16(*old(s), *i, pc, f@, *final(s), e.pc, e.post@),
        !e.halt,
{
    reveal(executes_load16);
    match i.opcode {
        Token::LD_RP_NN(rp) => {
            s.set_rp(rp, word_data_of(i));
            done(pc, Vec::new())
        },
        Token::LD_RP_MM(rp) => {
            s.set_rp(rp, crate::cpu::state::mkword(f[1], f[0]));
            done(pc, Vec::new())
        },
        Token::LD_MM_RP(rp) => {
            let nn = word_data_of(i);
            let (h, l) = crate::cpu::state::spword(s.rp(rp));
            done(pc, ops2(BusOp::MemWrite(nn, l), BusOp::MemWrite(inc16(nn), h)))
        },
        Token::LD_SP_RP(rp) => {
            let v = s.rp(rp);
            s.set_rp(RegPair::SP, v);
            done(pc, Vec::new())
        },
        Token::POP(rp) => {
            let sp = add2_16(s.sp);
            s.set_rp(RegPair::SP, sp);
            s.set_rp(rp, crate::cpu::state::mkword(f[1], f[0]));
            done(pc, Vec::new())
        },
        Token::PUSH(rp) => {
            let sp = s.sp;
            let (h, l) = crate::cpu::state::spword(s.rp(rp));
            s.set_rp(RegPair::SP, sub2_16(sp));
            done(pc, ops2(BusOp::MemWrite(dec16(sp), h), BusOp::MemWrite(sub2_16(sp), l)))
        },
        Token::EX_DE_HL => {
            s.swap_hlde();
            done(pc, Vec::new())
        },
        Token::EX_AF => {
            s.swap_acc();
            done(pc, Vec::new())
        },
        Token::EXX => {
            s.swap_regfile();
            done(pc, Vec::new())
        },
        Token::EX_AtSP_RP(rp) => {
            let sp = s.sp;
            let (h, l) = crate::cpu::state::spword(s.rp(rp));
            s.set_rp(rp, crate::cpu::state::mkword(f[1], f[0]));
            done(pc, ops3(BusOp::MemWrite(inc16(sp), h), BusOp::MemWrite(sp, l), BusOp::Delay(2)))
        },
        _ => done(pc, Vec::new()),
    }
}

fn step16(x: u16, forward: bool) -> (r: u16)
    ensures
        r == if forward { w16(x + 1) } else { w16(x - 1) },
{
    if forward { inc16(x) } else { dec16(x) }
}

fn is_block_increment(op: BlockOp) -> (b: bool)
    ensures
        b == block_increments(op),
{
    matches!(op, BlockOp::LDI | BlockOp::LDIR | BlockOp::CPI | BlockOp::CPIR | BlockOp::INI | BlockOp::INIR
        | BlockOp::OUTI | BlockOp::OTIR)
}

fn is_block_repeat(op: BlockOp) -> (b: bool)
    ensures
        b == block_repeats(op),
{
    matches!(op, BlockOp::LDIR | BlockOp::LDDR | BlockOp::CPIR | BlockOp::CPDR | BlockOp::INIR | BlockOp::INDR
        | BlockOp::OTIR | BlockOp::OTDR)
}

fn again_ops(again: bool, ops: Vec<BusOp>) -> (v: Vec<BusOp>)
    ensures
        v@ == ops@ + if again { seq![BusOp::Delay(5)] } else { Seq::<BusOp>::empty() },
{
    let mut v = ops;
    if again {
        v.push(BusOp::Delay(5));
    }
    v
}

/// Block transfer, search and input/output
#[verifier::rlimit(60)]
fn exec_block(s: &mut CpuState, i: &Instruction, pc: u16, f: &Vec<u8>) -> (e: Effects)
    requires
        executable(*i),
        group(i.opcode) == 3,
        f.len() == n_reads(*old(s), *i),
    ensures
        executes_block(*old(s), *i, pc, f@, *final(s), e.pc, e.post@),
        !e.halt,
{
    reveal(executes_block);
    let op = match i.opcode { Token::BLOP(op) => op, _ => BlockOp::LDI };
    let forward = is_block_increment(op);
    let val = f[0];
    let a = s.rg(Reg::A);
    let fl = s.rg(Reg::F);
    let hl0 = s.hl;
    let hl = step16(hl0, forward);
    match op {
        BlockOp::LDI | BlockOp::LDD | BlockOp::LDIR | BlockOp::LDDR => {
            let de = s.de;
            let ctr = dec16(s.bc);
            let g = ldi_flags(a, val, ctr, fl);
            s.set_rp(RegPair::HL, hl);
            s.set_rp(RegPair::DE, step16(de, forward));
            s.set_rp(RegPair::BC, ctr);
            s.set_rg(Reg::F, g);
            proof { crate::cpu::state::lemma_word_halves(hi(s.af), g); }
            let again = is_block_repeat(op) && ctr != 0;
            assert(w8(a + val) == ((a + val) % 256) as u8);
            let e = Effects { pc: if again { sub2_16(pc) } else { pc },
                post: again_ops(again, ops2(BusOp::MemWrite(de, val), BusOp::Delay(2))), halt: false };
            e
        },
        BlockOp::CPI | BlockOp::CPD | BlockOp::CPIR | BlockOp::CPDR => {
            let ctr = dec16(s.bc);
            let g = cpi_flags(a, val, ctr, fl);
            s.set_rp(RegPair::HL, hl);
            s.set_rp(RegPair::BC, ctr);
            s.set_rg(Reg::F, g);
            proof { crate::cpu::state::lemma_word_halves(hi(s.af), g); }
            let again = is_block_repeat(op) && ctr != 0 && a != val;
            Effects { pc: if again { sub2_16(pc) } else { pc }, post: again_ops(again, Vec::new()), halt: false }
        },
        _ => {
            let bc = s.bc;
            let ctr = dec8w(s.rg(Reg::B));
            let g = block_io_flags(ctr, fl);
            s.set_rp(RegPair::HL, hl);
            s.set_rg(Reg::B, ctr);
            s.set_rg(Reg::F, g);
            proof { crate::cpu::state::lemma_word_halves(hi(s.af), g); }
            let again = is_block_repeat(op) && ctr != 0;
            let first = if matches!(op, BlockOp::INI | BlockOp::IND | BlockOp::INIR | BlockOp::INDR) {
                BusOp::MemWrite(hl0, val)
            } else {
                BusOp::IoWrite(bc, val)
            };
            Effects { pc: if again { sub2_16(pc) } else { pc }, post: again_ops(again, ops2(first, BusOp::Delay(1))), halt: false }
        },
    }
}

fn set_flags_byte(s: &mut CpuState, g: u8)
    ensures
        *final(s) == old(s).with_reg(Reg::F, g),
        final(s).flags() == g,
{
    s.set_rg(Reg::F, g);
    proof { crate::cpu::state::lemma_word_halves(hi(s.af), g); }
}

/// `ALU` operations: `ADD`, `ADC`, `SUB`, `SBC`, `AND`, `XOR`, `OR`, `CP`
fn exec_alu(s: &mut CpuState, i: &Instruction, pc: u16, f: &Vec<u8>, op: AluOp, r: Option<Reg>) -> (e: Effects)
    requires
        executable(*i),
        i.opcode == Token::ALU(op, r),
        f.len() == n_reads(*old(s), *i),
    ensures
        executes_arith8(*old(s), *i, pc, f@, *final(s), e.pc, e.post@),
        !e.halt,
{
    reveal(executes_arith8);
    let a = s.rg(Reg::A);
    let fl = s.rg(Reg::F);
    let v = match r { Some(r) => read_operand(s, r, f), None => byte_data_of(i) };
    let (res, g) = alu8(op, a, v, fl);
    set_flags_byte(s, g);
    if !matches!(op, AluOp::CP) {
        s.set_rg(Reg::A, res);
        proof { crate::cpu::state::lemma_word_halves(res, g); }
    }
    done(pc, Vec::new())
}

/// `INC r`
fn exec_inc(s: &mut CpuState, i: &Instruction, pc: u16, f: &Vec<u8>, r: Reg) -> (e: Effects)
    requires
        executable(*i),
        i.opcode == Token::INC_RG(r),
        f.len() == n_reads(*old(s), *i),
    ensures
        executes_arith8(*old(s), *i, pc, f@, *final(s), e.pc, e.post@),
        !e.halt,
{
    reveal(executes_arith8);
    let fl = s.rg(Reg::F);
    let v = read_operand(s, r, f);
    let (res, g) = inc8(v, fl);
    set_flags_byte(s, g);
    let ghost s1 = *s;
    let post = store_operand(s, i, r, res);
    proof {
        if is_register(r) {
            crate::cpu::state::lemma_reg_write_read(s1, r, Reg::F, res);
        }
        assert(s.flags() == s.reg(Reg::F));
    }
    done(pc, post)
}

/// `DEC r`
fn exec_dec(s: &mut CpuState, i: &Instruction, pc: u16, f: &Vec<u8>, r: Reg) -> (e: Effects)
    requires
        executable(*i),
        i.opcode == Token::DEC_RG(r),
        f.len() == n_reads(*old(s), *i),
    ensures
        executes_arith8(*old(s), *i, pc, f@, *final(s), e.pc, e.post@),
        !e.halt,
{
    reveal(executes_arith8);
    let fl = s.rg(Reg::F);
    let v = read_operand(s, r, f);
    let (res, g) = dec8(v, fl);
    set_flags_byte(s, g);
    let ghost s1 = *s;
    let post = store_operand(s, i, r, res);
    proof {
        if is_register(r) {
            crate::cpu::state::lemma_reg_write_read(s1, r, Reg::F, res);
        }
        assert(s.flags() == s.reg(Reg::F));
    }
    done(pc, post)
}

/// Accumulator and flag operations: `DAA`, `CPL`, `NEG`, `CCF`, `SCF`
#[verifier::rlimit(60)]
fn exec_acc(s: &mut CpuState, i: &Instruction, pc: u16, f: &Vec<u8>) -> (e: Effects)
    requires
        executable(*i),
        group(i.opcode) == 4,
        !(i.opcode is ALU || i.opcode is INC_RG || i.opcode is DEC_RG),
        f.len() == n_reads(*old(s), *i),
    ensures
        executes_arith8(*old(s), *i, pc, f@, *final(s), e.pc, e.post@),
        !e.halt,
{
    reveal(executes_arith8);
    let a = s.rg(Reg::A);
    let fl = s.rg(Reg::F);
    match i.opcode {
        Token::DAA => {
            let (res, g) = daa(a, fl);
            set_flags_byte(s, g);
            s.set_rg(Reg::A, res);
            proof { crate::cpu::state::lemma_word_halves(res, g); }
        },
        Token::CPL => {
            let (res, g) = cpl(a, fl);
            s.set_rg(Reg::A, res);
            set_flags_byte(s, g);
        },
        Token::NEG => {
            let (res, g) = neg(a);
            set_flags_byte(s, g);
            s.set_rg(Reg::A, res);
            proof { crate::cpu::state::lemma_word_halves(res, g); }
        },
        Token::CCF => set_flags_byte(s, ccf(fl)),
        _ => set_flags_byte(s, scf(fl)),
    }
    done(pc, Vec::new())
}

/// 8-bit arithmetic and logic
fn exec_arith8(s: &mut CpuState, i: &Instruction, pc: u16, f: &Vec<u8>) -> (e: Effects)
    requires
        executable(*i),
        group(i.opcode) == 4,
        f.len() == n_reads(*old(s), *i),
    ensures
        executes_arith8(*old(s), *i, pc, f@, *final(s), e.pc, e.post@),
        !e.halt,
{
    match i.opcode {
        Token::ALU(op, r) => exec_alu(s, i, pc, f, op, r),
        Token::INC_RG(r) => exec_inc(s, i, pc, f, r),
        Token::DEC_RG(r) => exec_dec(s, i, pc, f, r),
        _ => exec_acc(s, i, pc, f),
    }
}

/// CPU control and 16-bit arithmetic
fn exec_control(s: &mut CpuState, i: &Instruction, pc: u16, f: &Vec<u8>) -> (e: Effects)
    requires
        executable(*i),
        group(i.opcode) == 5,
        f.len() == n_reads(*old(s), *i),
    ensures
        executes_control(*old(s), *i, pc, f@, *final(s), e.pc, e.post@),
        e.halt == (i.opcode == Token::HALT),
{
    reveal(executes_control);
    let fl = s.rg(Reg::F);
    match i.opcode {
        Token::HALT => Effects { pc: dec16(pc), post: Vec::new(), halt: true },
        Token::DI => {
            s.iff1 = false;
            s.iff2 = false;
            done(pc, Vec::new())
        },
        Token::EI => {
            s.iff1 = true;
            s.iff2 = true;
            done(pc, Vec::new())
        },
        Token::IM(mode) => {
            s.im = mode;
            done(pc, Vec::new())
        },
        Token::ADD_RP_RP(dst, src) => {
            let (res, g) = add16(s.rp(dst), s.rp(src), fl);
            s.set_rp(dst, res);
            set_flags_byte(s, g);
            done(pc, Vec::new())
        },
        Token::ADC_HL_RP(rp) => {
            let (res, g) = adc16(s.hl, s.rp(rp), fl);
            s.set_rp(RegPair::HL, res);
            set_flags_byte(s, g);
            done(pc, Vec::new())
        },
        Token::SBC_HL_RP(rp) => {
            let (res, g) = sbc16(s.hl, s.rp(rp), fl);
            s.set_rp(RegPair::HL, res);
            set_flags_byte(s, g);
            done(pc, Vec::new())
        },
        Token::INC_RP(rp) => {
            let v = inc16(s.rp(rp));
            s.set_rp(rp, v);
            done(pc, Vec::new())
        },
        Token::DEC_RP(rp) => {
            let v = dec16(s.rp(rp));
            s.set_rp(rp, v);
            done(pc, Vec::new())
        },
        _ => done(pc, Vec::new()),
    }
}

fn set_bit_of(v: u8, b: u8) -> (r: u8)
    requires
        b < 8,
    ensures
        r == set_bit(v, b),
{
    v | (1u8 << b)
}

fn res_bit_of(v: u8, b: u8) -> (r: u8)
    requires
        b < 8,
    ensures
        r == res_bit(v, b),
{
    v & !(1u8 << b)
}

/// `RLCA`, `RRCA`, `RLA`, `RRA`
fn exec_rot_acc(s: &mut CpuState, i: &Instruction, pc: u16, f: &Vec<u8>) -> (e: Effects)
    requires
        executable(*i),
        i.opcode is RLCA || i.opcode is RRCA || i.opcode is RLA || i.opcode is RRA,
    ensures
        executes_bits(*old(s), *i, pc, f@, *final(s), e.pc, e.post@),
        !e.halt,
{
    reveal(executes_bits);
    let op = match i.opcode {
        Token::RLCA => ShiftOp::RLC,
        Token::RRCA => ShiftOp::RRC,
        Token::RLA => ShiftOp::RL,
        _ => ShiftOp::RR,
    };
    let (res, g) = shift_acc(op, s.rg(Reg::A), s.rg(Reg::F));
    s.set_rg(Reg::A, res);
    set_flags_byte(s, g);
    done(pc, Vec::new())
}

/// Shifts and rotations of the CB group: `RLC`, `RRC`, `RL`, `RR`, `SLA`, `SRA`, `SLL`, `SRL`
#[verifier::rlimit(60)]
fn exec_shift(s: &mut CpuState, i: &Instruction, pc: u16, f: &Vec<u8>, op: ShiftOp, r: Reg) -> (e: Effects)
    requires
        executable(*i),
        i.opcode == Token::SHOP(op, r),
        f.len() == n_reads(*old(s), *i),
    ensures
        executes_bits(*old(s), *i, pc, f@, *final(s), e.pc, e.post@),
        !e.halt,
{
    reveal(executes_bits);
    let v = read_operand(s, r, f);
    let (res, g) = shift_op(op, v, s.rg(Reg::F));
    let post = store_operand(s, i, r, res);
    set_flags_byte(s, g);
    done(pc, post)
}

/// The undocumented shifts of an indexed cell that also load a register
#[verifier::rlimit(60)]
fn exec_shift_ld(s: &mut CpuState, i: &Instruction, pc: u16, f: &Vec<u8>, op: ShiftOp, r: Reg, d: Reg) -> (e: Effects)
    requires
        executable(*i),
        i.opcode == Token::SHOPLD(op, r, d),
        f.len() == n_reads(*old(s), *i),
    ensures
        executes_bits(*old(s), *i, pc, f@, *final(s), e.pc, e.post@),
        !e.halt,
{
    reveal(executes_bits);
    let v = read_operand(s, r, f);
    let (res, g) = shift_op(op, v, s.rg(Reg::F));
    let post = store_operand(s, i, r, res);
    s.set_rg(d, res);
    set_flags_byte(s, g);
    done(pc, post)
}

/// `RLD` and `RRD`
#[verifier::rlimit(60)]
fn exec_rld_rrd(s: &mut CpuState, i: &Instruction, pc: u16, f: &Vec<u8>) -> (e: Effects)
    requires
        executable(*i),
        i.opcode is RLD || i.opcode is RRD,
        f.len() == n_reads(*old(s), *i),
    ensures
        executes_bits(*old(s), *i, pc, f@, *final(s), e.pc, e.post@),
        !e.halt,
{
    reveal(executes_bits);
    let (acc, mem, g) = if let Token::RLD = i.opcode {
        rld(s.rg(Reg::A), f[0], s.rg(Reg::F))
    } else {
        rrd(s.rg(Reg::A), f[0], s.rg(Reg::F))
    };
    let hl = s.hl;
    s.set_rg(Reg::A, acc);
    set_flags_byte(s, g);
    done(pc, ops1(BusOp::MemWrite(hl, mem)))
}

/// `BIT b,r`
fn exec_bit(s: &mut CpuState, i: &Instruction, pc: u16, f: &Vec<u8>, b: u8, r: Reg) -> (e: Effects)
    requires
        executable(*i),
        i.opcode == Token::BIT(b, r),
        f.len() == n_reads(*old(s), *i),
    ensures
        executes_bits(*old(s), *i, pc, f@, *final(s), e.pc, e.post@),
        !e.halt,
{
    reveal(executes_bits);
    let v = read_operand(s, r, f);
    let g = bit_test(b, v, s.rg(Reg::F));
    set_flags_byte(s, g);
    done(pc, Vec::new())
}

/// `SET b,r`
#[verifier::rlimit(60)]
fn exec_set(s: &mut CpuState, i: &Instruction, pc: u16, f: &Vec<u8>, b: u8, r: Reg) -> (e: Effects)
    requires
        executable(*i),
        i.opcode == Token::SET(b, r),
        f.len() == n_reads(*old(s), *i),
    ensures
        executes_bits(*old(s), *i, pc, f@, *final(s), e.pc, e.post@),
        !e.halt,
{
    reveal(executes_bits);
    let v = read_operand(s, r, f);
    let res = set_bit_of(v, b);
    let post = store_operand(s, i, r, res);
    done(pc, post)
}

/// `SET b,r` that also loads a register (undocumented indexed forms)
#[verifier::rlimit(60)]
fn exec_set_ld(s: &mut CpuState, i: &Instruction, pc: u16, f: &Vec<u8>, b: u8, r: Reg, d: Reg) -> (e: Effects)
    requires
        executable(*i),
        i.opcode == Token::SETLD(b, r, d),
        f.len() == n_reads(*old(s), *i),
    ensures
        executes_bits(*old(s), *i, pc, f@, *final(s), e.pc, e.post@),
        !e.halt,
{
    reveal(executes_bits);
    let v = read_operand(s, r, f);
    let res = set_bit_of(v, b);
    let post = store_operand(s, i, r, res);
    s.set_rg(d, res);
    done(pc, post)
}

/// `RES b,r`
#[verifier::rlimit(60)]
fn exec_res(s: &mut CpuState, i: &Instruction, pc: u16, f: &Vec<u8>, b: u8, r: Reg) -> (e: Effects)
    requires
        executable(*i),
        i.opcode == Token::RES(b, r),
        f.len() == n_reads(*old(s), *i),
    ensures
        executes_bits(*old(s), *i, pc, f@, *final(s), e.pc, e.post@),
        !e.halt,
{
    reveal(executes_bits);
    let v = read_operand(s, r, f);
    let res = res_bit_of(v, b);
    let post = store_operand(s, i, r, res);
    done(pc, post)
}

/// `RES b,r` that also loads a register (undocumented indexed forms)
#[verifier::rlimit(60)]
fn exec_res_ld(s: &mut CpuState, i: &Instruction, pc: u16, f: &Vec<u8>, b: u8, r: Reg, d: Reg) -> (e: Effects)
    requires
        executable(*i),
        i.opcode == Token::RESLD(b, r, d),
        f.len() == n_reads(*old(s), *i),
    ensures
        executes_bits(*old(s), *i, pc, f@, *final(s), e.pc, e.post@),
        !e.halt,
{
    reveal(executes_bits);
    let v = read_operand(s, r, f);
    let res = res_bit_of(v, b);
    let post = store_operand(s, i, r, res);
    s.set_rg(d, res);
    done(pc, post)
}

/// Rotations, shifts and bit operations
fn exec_bits(s: &mut CpuState, i: &Instruction, pc: u16, f: &Vec<u8>) -> (e: Effects)
    requires
        executable(*i),
        group(i.opcode) == 6,
        f.len() == n_reads(*old(s), *i),
    ensures
        executes_bits(*old(s), *i, pc, f@, *final(s), e.pc, e.post@),
        !e.halt,
{
    match i.opcode {
        Token::SHOP(op, r) => exec_shift(s, i, pc, f, op, r),
        Token::SHOPLD(op, r, d) => exec_shift_ld(s, i, pc, f, op, r, d),
        Token::RLD | Token::RRD => exec_rld_rrd(s, i, pc, f),
        Token::BIT(b, r) => exec_bit(s, i, pc, f, b, r),
        Token::SET(b, r) => exec_set(s, i, pc, f, b, r),
        Token::SETLD(b, r, d) => exec_set_ld(s, i, pc, f, b, r, d),
        Token::RES(b, r) => exec_res(s, i, pc, f, b, r),
        Token::RESLD(b, r, d) => exec_res_ld(s, i, pc, f, b, r, d),
        _ => exec_rot_acc(s, i, pc, f),
    }
}

/// Jumps, calls and returns
fn exec_jump(s: &mut CpuState, i: &Instruction, pc: u16, f: &Vec<u8>) -> (e: Effects)
    requires
        executable(*i),
        group(i.opcode) == 7,
        f.len() == n_reads(*old(s), *i) || (reads_by_flags(*i) && f.len() == 2),
    ensures
        executes_jump(*old(s), *i, pc, f@, *final(s), e.pc, e.post@),
        !e.halt,
{
    reveal(executes_jump);
    match i.opcode {
        Token::JP(c) => done(if satisfied(s, c) { word_data_of(i) } else { pc }, Vec::new()),
        Token::JP_RP(rp) => done(s.rp(rp), Vec::new()),
        Token::JR(c) => done(if satisfied(s, c) { offset16(pc, i.displacement.unwrap()) } else { pc }, Vec::new()),
        Token::DJNZ => {
            let b = dec8w(s.rg(Reg::B));
            s.set_rg(Reg::B, b);
            if b != 0 {
                done(offset16(pc, i.displacement.unwrap()), ops1(BusOp::Delay(5)))
            } else {
                done(pc, Vec::new())
            }
        },
        Token::CALL(c) => {
            if satisfied(s, c) {
                let sp = s.sp;
                let (h, l) = crate::cpu::state::spword(pc);
                s.set_rp(RegPair::SP, sub2_16(sp));
                let post = ops3(BusOp::Delay(1), BusOp::MemWrite(dec16(sp), h), BusOp::MemWrite(sub2_16(sp), l));
                assert(post@ == seq![BusOp::Delay(1)] + push_ops(sp, pc));
                done(word_data_of(i), post)
            } else {
                done(pc, Vec::new())
            }
        },
        Token::RET(c) => {
            if satisfied(s, c) || f.len() == 2 {
                let sp = add2_16(s.sp);
                s.set_rp(RegPair::SP, sp);
                done(crate::cpu::state::mkword(f[1], f[0]), Vec::new())
            } else {
                done(pc, Vec::new())
            }
        },
        Token::RETI | Token::RETN => {
            s.iff1 = s.iff2;
            let sp = add2_16(s.sp);
            s.set_rp(RegPair::SP, sp);
            done(crate::cpu::state::mkword(f[1], f[0]), Vec::new())
        },
        _ => {
            let y = match i.opcode { Token::RST(y) => y, _ => 0 };
            let sp = s.sp;
            let (h, l) = crate::cpu::state::spword(pc);
            s.set_rp(RegPair::SP, sub2_16(sp));
            done(y as u16 * 8, ops2(BusOp::MemWrite(dec16(sp), h), BusOp::MemWrite(sub2_16(sp), l)))
        },
    }
}

fn group_of(t: Token) -> (g: u8)
    ensures
        g == group(t),
{
    match t {
        Token::LD_RG_RG(_, _) | Token::LD_RG_N(_) | Token::LD_A_AtRP(_) | Token::LD_AtRP_A(_) | Token::LD_A_MM
        | Token::LD_MM_A | Token::IN_A_N | Token::OUT_N_A | Token::IN_RG_AtBC(_) | Token::OUT_AtBC_RG(_)
        | Token::IN_AtBC | Token::OUT_AtBC_0 => 1,
        Token::LD_RP_NN(_) | Token::LD_RP_MM(_) | Token::LD_MM_RP(_) | Token::LD_SP_RP(_) | Token::POP(_)
        | Token::PUSH(_) | Token::EX_DE_HL | Token::EX_AF | Token::EXX | Token::EX_AtSP_RP(_) => 2,
        Token::BLOP(_) => 3,
        Token::ALU(_, _) | Token::INC_RG(_) | Token::DEC_RG(_) | Token::DAA | Token::CPL | Token::NEG
        | Token::CCF | Token::SCF => 4,
        Token::NOP | Token::HALT | Token::DI | Token::EI | Token::IM(_) | Token::ADD_RP_RP(_, _) | Token::ADC_HL_RP(_)
        | Token::SBC_HL_RP(_) | Token::INC_RP(_) | Token::DEC_RP(_) => 5,
        Token::RLCA | Token::RRCA | Token::RLA | Token::RRA | Token::SHOP(_, _) | Token::SHOPLD(_, _, _)
        | Token::RLD | Token::RRD | Token::BIT(_, _) | Token::SET(_, _) | Token::SETLD(_, _, _) | Token::RES(_, _)
        | Token::RESLD(_, _, _) => 6,
        Token::JP(_) | Token::JP_RP(_) | Token::JR(_) | Token::DJNZ | Token::CALL(_) | Token::RET(_) | Token::RETI
        | Token::RETN | Token::RST(_) => 7,
        _ => 0,
    }
}

/// Carry out a decoded instruction: `pc` is the address after its bytes, and `fetched` the bytes
/// that its pre-operations (`instr_pre_ops`) read from the bus
pub fn execute(s: &mut CpuState, i: &Instruction, pc: u16, fetched: &Vec<u8>) -> (e: Effects)
    requires
        executable(*i),
        fetched.len() == n_reads(*old(s), *i) || (reads_by_flags(*i) && fetched.len() == 2),
    ensures
        executes(*old(s), *i, pc, fetched@, *final(s), e.pc, e.post@, e.halt),
{
    match group_of(i.opcode) {
        1 => exec_load8(s, i, pc, fetched),
        2 => exec_load16(s, i, pc, fetched),
        3 => exec_block(s, i, pc, fetched),
        4 => exec_arith8(s, i, pc, fetched),
        5 => exec_control(s, i, pc, fetched),
        6 => exec_bits(s, i, pc, fetched),
        7 => exec_jump(s, i, pc, fetched),
        _ => done(pc, Vec::new()),
    }
}

fn operand_ok_of(i: &Instruction, r: Reg) -> (b: bool)
    ensures
        b == operand_ok(*i, r),
{
    !is_index_operand(r) || i.displacement.is_some()
}

fn has_byte_of(i: &Instruction) -> (b: bool)
    ensures
        b == has_byte(*i),
{
    matches!(i.data, Some(DataValue::Byte(_)))
}

fn has_word_of(i: &Instruction) -> (b: bool)
    ensures
        b == has_word(*i),
{
    matches!(i.data, Some(DataValue::Word(_)))
}

/// Whether the CPU carries out the instruction
pub fn is_executable(i: &Instruction) -> (b: bool)
    ensures
        b == executable(*i),
{
    match i.opcode {
        Token::Prefix(_) | Token::Displacement(_) | Token::Data(_) => false,
        Token::LD_RG_RG(dst, src) => (is_reg_operand(dst) || is_reg_operand(src)) && operand_ok_of(i, dst) && operand_ok_of(i, src),
        Token::LD_RG_N(r) => operand_ok_of(i, r) && has_byte_of(i),
        Token::LD_A_MM | Token::LD_MM_A | Token::LD_RP_NN(_) | Token::LD_RP_MM(_) | Token::LD_MM_RP(_)
        | Token::JP(_) | Token::CALL(_) => has_word_of(i),
        Token::ALU(_, None) | Token::IN_A_N | Token::OUT_N_A => has_byte_of(i),
        Token::ALU(_, Some(r)) => operand_ok_of(i, r),
        Token::INC_RG(r) | Token::DEC_RG(r) | Token::SHOP(_, r) => !matches!(r, Reg::F) && operand_ok_of(i, r),
        Token::SHOPLD(_, r, dst) => !matches!(r, Reg::F) && operand_ok_of(i, r) && is_reg_operand(dst) && !matches!(dst, Reg::F),
        Token::BIT(b, r) | Token::SET(b, r) | Token::RES(b, r) => b < 8 && operand_ok_of(i, r),
        Token::SETLD(b, r, dst) | Token::RESLD(b, r, dst) => b < 8 && operand_ok_of(i, r) && is_reg_operand(dst),
        Token::ADD_RP_RP(dst, _) => !matches!(dst, RegPair::AF),
        Token::ADC_HL_RP(_) | Token::SBC_HL_RP(_) => true,
        Token::JR(_) | Token::DJNZ => i.displacement.is_some(),
        Token::IN_RG_AtBC(r) | Token::OUT_AtBC_RG(r) => is_reg_operand(r),
        _ => true,
    }
}

} // verus!
