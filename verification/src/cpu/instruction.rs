use vstd::prelude::*;

use super::tokens::{Token, DataValue, Reg, RegPair, IntMode, BlockOp, ShiftOp, AluOp, Condition};

verus! {

/// Z80 CPU instruction
#[derive(Clone, Copy, PartialEq, Eq, Debug, Structural)]
pub struct Instruction {
    pub opcode: Token,
    pub displacement: Option<i8>,
    pub data: Option<DataValue>,
}

/// Upper-case hex digit (also decimal digit for values below 10)
pub open spec fn spec_digit(d: nat) -> Seq<char> {
    if d == 0 { "0"@ } else if d == 1 { "1"@ } else if d == 2 { "2"@ } else if d == 3 { "3"@ }
    else if d == 4 { "4"@ } else if d == 5 { "5"@ } else if d == 6 { "6"@ } else if d == 7 { "7"@ }
    else if d == 8 { "8"@ } else if d == 9 { "9"@ } else if d == 10 { "A"@ } else if d == 11 { "B"@ }
    else if d == 12 { "C"@ } else if d == 13 { "D"@ } else if d == 14 { "E"@ } else { "F"@ }
}

/// Digits of `n` in the given base, most significant first, without leading zeros
pub open spec fn spec_digits(n: nat, base: nat) -> Seq<char>
    decreases n,
{
    if base < 2 || n < base {
        spec_digit(n)
    } else {
        proof {
            assert(n / base < n) by (nonlinear_arith)
                requires base >= 2, n >= base;
        }
        spec_digits(n / base, base) + spec_digit(n % base)
    }
}

/// `{:X}h`
pub open spec fn spec_hex(n: nat) -> Seq<char> {
    spec_digits(n, 16) + "h"@
}

/// Signed hex number: sign, then `{:X}h` of the absolute value
pub open spec fn spec_signed(n: int) -> Seq<char> {
    (if n < 0 { "-"@ } else { "+"@ }) + spec_hex(if n < 0 { (-n) as nat } else { n as nat })
}

pub open spec fn spec_condition_name(c: Condition) -> Seq<char> {
    match c {
        Condition::NZ => "NZ"@,
        Condition::Z => "Z"@,
        Condition::NC => "NC"@,
        Condition::C => "C"@,
        Condition::PO => "PO"@,
        Condition::PE => "PE"@,
        Condition::P => "P"@,
        Condition::M => "M"@,
        Condition::Always => ""@,
    }
}

pub open spec fn spec_regpair_name(rp: RegPair) -> Seq<char> {
    match rp {
        RegPair::BC => "BC"@,
        RegPair::DE => "DE"@,
        RegPair::HL => "HL"@,
        RegPair::SP => "SP"@,
        RegPair::AF => "AF"@,
        RegPair::IX => "IX"@,
        RegPair::IY => "IY"@,
        _ => ""@,
    }
}

pub open spec fn spec_shift_name(op: ShiftOp) -> Seq<char> {
    match op {
        ShiftOp::RLC => "RLC "@,
        ShiftOp::RRC => "RRC "@,
        ShiftOp::RL => "RL "@,
        ShiftOp::RR => "RR "@,
        ShiftOp::SLA => "SLA "@,
        ShiftOp::SRA => "SRA "@,
        ShiftOp::SLL => "SLL "@,
        ShiftOp::SRL => "SRL "@,
    }
}

pub open spec fn spec_alu_name(op: AluOp) -> Seq<char> {
    match op {
        AluOp::ADD => "ADD A,"@,
        AluOp::ADC => "ADC A,"@,
        AluOp::SUB => "SUB "@,
        AluOp::SBC => "SBC A,"@,
        AluOp::AND => "AND "@,
        AluOp::XOR => "XOR "@,
        AluOp::OR => "OR "@,
        AluOp::CP => "CP "@,
    }
}

pub open spec fn spec_block_name(op: BlockOp) -> Seq<char> {
    match op {
        BlockOp::LDI => "LDI"@,
        BlockOp::CPI => "CPI"@,
        BlockOp::INI => "INI"@,
        BlockOp::OUTI => "OUTI"@,
        BlockOp::LDD => "LDD"@,
        BlockOp::CPD => "CPD"@,
        BlockOp::IND => "IND"@,
        BlockOp::OUTD => "OUTD"@,
        BlockOp::LDIR => "LDIR"@,
        BlockOp::CPIR => "CPIR"@,
        BlockOp::INIR => "INIR"@,
        BlockOp::OTIR => "OTIR"@,
        BlockOp::LDDR => "LDDR"@,
        BlockOp::CPDR => "CPDR"@,
        BlockOp::INDR => "INDR"@,
        BlockOp::OTDR => "OTDR"@,
    }
}

pub open spec fn spec_int_mode_name(mode: IntMode) -> Seq<char> {
    match mode {
        IntMode::IM0 | IntMode::IM01 => "IM 0"@,
        IntMode::IM1 => "IM 1"@,
        IntMode::IM2 => "IM 2"@,
    }
}

pub open spec fn reg_formattable(r: Reg) -> bool {
    r != Reg::F
}

pub open spec fn regpair_formattable(rp: RegPair) -> bool {
    rp != RegPair::PC && rp != RegPair::IR
}

impl Instruction {

    /// A register operand can be written out: indexed operands need the displacement
    pub open spec fn reg_ok(self, r: Reg) -> bool {
        &&& reg_formattable(r)
        &&& (r == Reg::AtIX || r == Reg::AtIY) ==> self.displacement is Some
    }

    /// The instruction carries everything its mnemonic mentions
    pub open spec fn wf(self) -> bool {
        match self.opcode {
            Token::Prefix(_) | Token::Displacement(_) | Token::Data(_) => false,
            Token::LD_RG_RG(dst, src) => self.reg_ok(dst) && self.reg_ok(src),
            Token::LD_RG_N(reg) => self.reg_ok(reg) && self.data is Some,
            Token::LD_A_AtRP(rp) | Token::LD_AtRP_A(rp) | Token::LD_SP_RP(rp) | Token::POP(rp)
            | Token::PUSH(rp) | Token::EX_AtSP_RP(rp) | Token::ADC_HL_RP(rp) | Token::SBC_HL_RP(rp)
            | Token::INC_RP(rp) | Token::DEC_RP(rp) | Token::JP_RP(rp) => regpair_formattable(rp),
            Token::LD_A_MM | Token::LD_MM_A | Token::JP(_) | Token::CALL(_) | Token::IN_A_N
            | Token::OUT_N_A => self.data is Some,
            Token::LD_RP_NN(rp) | Token::LD_RP_MM(rp) | Token::LD_MM_RP(rp) => regpair_formattable(rp) && self.data is Some,
            Token::ALU(_, Some(reg)) => self.reg_ok(reg),
            Token::ALU(_, None) => self.data is Some,
            Token::INC_RG(reg) | Token::DEC_RG(reg) | Token::SHOP(_, reg) | Token::BIT(_, reg)
            | Token::SET(_, reg) | Token::RES(_, reg) | Token::IN_RG_AtBC(reg) | Token::OUT_AtBC_RG(reg) => self.reg_ok(reg),
            Token::SHOPLD(_, reg, dst) | Token::SETLD(_, reg, dst) | Token::RESLD(_, reg, dst) => self.reg_ok(reg) && self.reg_ok(dst),
            Token::ADD_RP_RP(dst, src) => regpair_formattable(dst) && regpair_formattable(src),
            Token::JR(_) | Token::DJNZ => self.displacement is Some,
            Token::RST(value) => value < 32,
            _ => true,
        }
    }

    pub open spec fn spec_reg(self, r: Reg) -> Seq<char> {
        match r {
            Reg::B => "B"@,
            Reg::C => "C"@,
            Reg::D => "D"@,
            Reg::E => "E"@,
            Reg::H => "H"@,
            Reg::L => "L"@,
            Reg::AtHL => "(HL)"@,
            Reg::A => "A"@,
            Reg::I => "I"@,
            Reg::R => "R"@,
            Reg::IXH => "IXH"@,
            Reg::IXL => "IXL"@,
            Reg::IYH => "IYH"@,
            Reg::IYL => "IYL"@,
            Reg::AtIX => "(IX"@ + spec_signed(self.displacement.unwrap() as int) + ")"@,
            Reg::AtIY => "(IY"@ + spec_signed(self.displacement.unwrap() as int) + ")"@,
            Reg::F => Seq::empty(),
        }
    }

    pub open spec fn spec_data(self) -> Seq<char> {
        match self.data {
            Some(DataValue::Byte(b)) => spec_hex(b as nat),
            Some(DataValue::Word(w)) => spec_hex(w as nat),
            None => Seq::empty(),
        }
    }

    /// Relative jump target, as an offset to the address of the instruction
    pub open spec fn spec_addr_displacement(self) -> Seq<char> {
        "$"@ + spec_signed(self.displacement.unwrap() as int + 2)
    }

    /// Text of `JP`, `CALL`: with or without a condition
    pub open spec fn spec_cond_data(self, name: Seq<char>, c: Condition) -> Seq<char> {
        if c == Condition::Always {
            name + self.spec_data()
        } else {
            name + spec_condition_name(c) + ","@ + self.spec_data()
        }
    }

    /// The mnemonic of the instruction
    pub open spec fn spec_mnemonic(self) -> Seq<char> {
        match self.opcode {
            Token::LD_RG_RG(dst, src) => "LD "@ + self.spec_reg(dst) + ","@ + self.spec_reg(src),
            Token::LD_RG_N(reg) => "LD "@ + self.spec_reg(reg) + ","@ + self.spec_data(),
            Token::LD_A_AtRP(rp) => "LD A,("@ + spec_regpair_name(rp) + ")"@,
            Token::LD_AtRP_A(rp) => "LD ("@ + spec_regpair_name(rp) + "),A"@,
            Token::LD_A_MM => "LD A,("@ + self.spec_data() + ")"@,
            Token::LD_MM_A => "LD ("@ + self.spec_data() + "),A"@,
            Token::LD_RP_NN(rp) => "LD "@ + spec_regpair_name(rp) + ","@ + self.spec_data(),
            Token::LD_RP_MM(rp) => "LD "@ + spec_regpair_name(rp) + ",("@ + self.spec_data() + ")"@,
            Token::LD_MM_RP(rp) => "LD ("@ + self.spec_data() + "),"@ + spec_regpair_name(rp),
            Token::LD_SP_RP(rp) => "LD SP,"@ + spec_regpair_name(rp),
            Token::POP(rp) => "POP "@ + spec_regpair_name(rp),
            Token::PUSH(rp) => "PUSH "@ + spec_regpair_name(rp),
            Token::EX_DE_HL => "EX DE,HL"@,
            Token::EX_AF => "EX AF,AF'"@,
            Token::EXX => "EXX"@,
            Token::EX_AtSP_RP(rp) => "EX (SP),"@ + spec_regpair_name(rp),
            Token::ALU(op, Some(reg)) => spec_alu_name(op) + self.spec_reg(reg),
            Token::ALU(op, None) => spec_alu_name(op) + self.spec_data(),
            Token::INC_RG(reg) => "INC "@ + self.spec_reg(reg),
            Token::DEC_RG(reg) => "DEC "@ + self.spec_reg(reg),
            Token::DAA => "DAA"@,
            Token::CPL => "CPL"@,
            Token::NEG => "NEG"@,
            Token::CCF => "CCF"@,
            Token::SCF => "SCF"@,
            Token::NOP => "NOP"@,
            Token::HALT => "HALT"@,
            Token::DI => "DI"@,
            Token::EI => "EI"@,
            Token::IM(mode) => spec_int_mode_name(mode),
            Token::ADD_RP_RP(dst, src) => "ADD "@ + spec_regpair_name(dst) + ","@ + spec_regpair_name(src),
            Token::ADC_HL_RP(rp) => "ADC HL,"@ + spec_regpair_name(rp),
            Token::SBC_HL_RP(rp) => "SBC HL,"@ + spec_regpair_name(rp),
            Token::INC_RP(rp) => "INC "@ + spec_regpair_name(rp),
            Token::DEC_RP(rp) => "DEC "@ + spec_regpair_name(rp),
            Token::RLCA => "RLCA"@,
            Token::RLA => "RLA"@,
            Token::RRCA => "RRCA"@,
            Token::RRA => "RRA"@,
            Token::SHOP(op, reg) => spec_shift_name(op) + self.spec_reg(reg),
            Token::RLD => "RLD"@,
            Token::RRD => "RRD"@,
            Token::SHOPLD(op, reg, dst) => spec_shift_name(op) + self.spec_reg(reg) + ","@ + self.spec_reg(dst),
            Token::BIT(bit, reg) => "BIT "@ + spec_digits(bit as nat, 10) + ","@ + self.spec_reg(reg),
            Token::SET(bit, reg) => "SET "@ + spec_digits(bit as nat, 10) + ","@ + self.spec_reg(reg),
            Token::SETLD(bit, reg, dst) => "SET "@ + spec_digits(bit as nat, 10) + ","@ + self.spec_reg(reg) + ","@ + self.spec_reg(dst),
            Token::RES(bit, reg) => "RES "@ + spec_digits(bit as nat, 10) + ","@ + self.spec_reg(reg),
            Token::RESLD(bit, reg, dst) => "RES "@ + spec_digits(bit as nat, 10) + ","@ + self.spec_reg(reg) + ","@ + self.spec_reg(dst),
            Token::JP(c) => self.spec_cond_data("JP "@, c),
            Token::JP_RP(rp) => "JP ("@ + spec_regpair_name(rp) + ")"@,
            Token::JR(c) => if c == Condition::Always {
                "JR "@ + self.spec_addr_displacement()
            } else {
                "JR "@ + spec_condition_name(c) + ","@ + self.spec_addr_displacement()
            },
            Token::DJNZ => "DJNZ "@ + self.spec_addr_displacement(),
            Token::CALL(c) => self.spec_cond_data("CALL "@, c),
            Token::RET(c) => if c == Condition::Always { "RET"@ } else { "RET "@ + spec_condition_name(c) },
            Token::RETI => "RETI"@,
            Token::RETN => "RETN"@,
            Token::RST(value) => "RST "@ + spec_hex(value as nat * 8),
            Token::IN_A_N => "IN A,("@ + self.spec_data() + ")"@,
            Token::OUT_N_A => "OUT ("@ + self.spec_data() + "),A"@,
            Token::IN_RG_AtBC(reg) => "IN "@ + self.spec_reg(reg) + ",(C)"@,
            Token::OUT_AtBC_RG(reg) => "OUT (C),"@ + self.spec_reg(reg),
            Token::IN_AtBC => "IN (C)"@,
            Token::OUT_AtBC_0 => "OUT (C),0"@,
            Token::BLOP(op) => spec_block_name(op),
            Token::Prefix(_) | Token::Displacement(_) | Token::Data(_) => Seq::empty(),
        }
    }


    /// Displacement of an indexed operand
    pub fn expect_displacement(&self) -> (r: i8)
        requires
            self.displacement is Some,
        ensures
            r == self.displacement.unwrap(),
    {
        self.displacement.unwrap()
    }

    /// Immediate data which is a byte
    pub fn expect_byte_data(&self) -> (r: u8)
        requires
            self.data matches Some(DataValue::Byte(_)),
        ensures
            self.data == Some(DataValue::Byte(r)),
    {
        match self.data {
            Some(DataValue::Byte(value)) => value,
            _ => 0,
        }
    }

    /// Immediate data which is a word
    pub fn expect_word_data(&self) -> (r: u16)
        requires
            self.data matches Some(DataValue::Word(_)),
        ensures
            self.data == Some(DataValue::Word(r)),
    {
        match self.data {
            Some(DataValue::Word(value)) => value,
            _ => 0,
        }
    }

    /// Text form of the instruction, e.g. `LD A,(IX+5h)`
    pub fn format_mnemonic(&self) -> (r: String)
        requires
            self.wf(),
        ensures
            r@ == self.spec_mnemonic(),
    {
        let mut s = String::new();
        self.append_mnemonic(&mut s);
        s
    }

    fn append_mnemonic(&self, s: &mut String)
        requires
            self.wf(),
        ensures
            final(s)@ == old(s)@ + self.spec_mnemonic(),
    {
        match self.opcode {
            Token::LD_RG_RG(_, _) | Token::LD_RG_N(_) | Token::LD_A_AtRP(_) | Token::LD_AtRP_A(_) | Token::LD_A_MM | Token::LD_MM_A => self.append_8_bit_load(s),
            Token::LD_RP_NN(_) | Token::LD_RP_MM(_) | Token::LD_MM_RP(_) | Token::LD_SP_RP(_) | Token::POP(_) | Token::PUSH(_) => self.append_16_bit_load(s),
            Token::EX_DE_HL | Token::EX_AF | Token::EXX | Token::EX_AtSP_RP(_) => self.append_exchange(s),
            Token::ALU(_, Some(_)) | Token::ALU(_, None) | Token::INC_RG(_) | Token::DEC_RG(_) => self.append_8_bit_arithmetic_and_logic(s),
            Token::DAA | Token::CPL | Token::NEG | Token::CCF | Token::SCF | Token::NOP | Token::HALT | Token::DI | Token::EI | Token::IM(_) => self.append_general_purpose_arithmetic_and_cpu_control(s),
            Token::ADD_RP_RP(_, _) | Token::ADC_HL_RP(_) | Token::SBC_HL_RP(_) | Token::INC_RP(_) | Token::DEC_RP(_) => self.append_16_bit_arithmetic(s),
            Token::RLCA | Token::RLA | Token::RRCA | Token::RRA | Token::SHOP(_, _) | Token::RLD | Token::RRD | Token::SHOPLD(_, _, _) => self.append_rotate_and_shift(s),
            Token::BIT(_, _) | Token::SET(_, _) | Token::SETLD(_, _, _) | Token::RES(_, _) | Token::RESLD(_, _, _) => self.append_bit_set_reset_and_test(s),
            Token::JP(_) | Token::JP_RP(_) | Token::JR(_) | Token::DJNZ | Token::CALL(_) | Token::RET(_) | Token::RETI | Token::RETN | Token::RST(_) => self.append_jump_call_and_return(s),
            Token::IN_A_N | Token::OUT_N_A | Token::IN_RG_AtBC(_) | Token::OUT_AtBC_RG(_) | Token::IN_AtBC | Token::OUT_AtBC_0 => self.append_input_and_output(s),
            Token::BLOP(_) => self.append_block_transfer_search_and_io(s),
            Token::Prefix(_) | Token::Displacement(_) | Token::Data(_) => {},
        }
    }

    /// 8-bit load
    #[verifier::rlimit(60)]
    fn append_8_bit_load(&self, s: &mut String)
        requires
            self.wf(),
            matches!(self.opcode, Token::LD_RG_RG(_, _) | Token::LD_RG_N(_) | Token::LD_A_AtRP(_) | Token::LD_AtRP_A(_) | Token::LD_A_MM | Token::LD_MM_A),
        ensures
            final(s)@ == old(s)@ + self.spec_mnemonic(),
    {
        match self.opcode {
            Token::LD_RG_RG(dst, src) => {
                s.append("LD "); self.append_reg(s, dst); s.append(","); self.append_reg(s, src);
            },
            Token::LD_RG_N(reg) => {
                s.append("LD "); self.append_reg(s, reg); s.append(","); self.append_data(s);
            },
            Token::LD_A_AtRP(rp) => { s.append("LD A,("); s.append(format_regpair(rp)); s.append(")"); },
            Token::LD_AtRP_A(rp) => { s.append("LD ("); s.append(format_regpair(rp)); s.append("),A"); },
            Token::LD_A_MM => { s.append("LD A,("); self.append_data(s); s.append(")"); },
            Token::LD_MM_A => { s.append("LD ("); self.append_data(s); s.append("),A"); },
            _ => {},
        }
    }

    /// 16-bit load
    #[verifier::rlimit(60)]
    fn append_16_bit_load(&self, s: &mut String)
        requires
            self.wf(),
            matches!(self.opcode, Token::LD_RP_NN(_) | Token::LD_RP_MM(_) | Token::LD_MM_RP(_) | Token::LD_SP_RP(_) | Token::POP(_) | Token::PUSH(_)),
        ensures
            final(s)@ == old(s)@ + self.spec_mnemonic(),
    {
        match self.opcode {
            Token::LD_RP_NN(rp) => { s.append("LD "); s.append(format_regpair(rp)); s.append(","); self.append_data(s); },
            Token::LD_RP_MM(rp) => { s.append("LD "); s.append(format_regpair(rp)); s.append(",("); self.append_data(s); s.append(")"); },
            Token::LD_MM_RP(rp) => { s.append("LD ("); self.append_data(s); s.append("),"); s.append(format_regpair(rp)); },
            Token::LD_SP_RP(rp) => { s.append("LD SP,"); s.append(format_regpair(rp)); },
            Token::POP(rp) => { s.append("POP "); s.append(format_regpair(rp)); },
            Token::PUSH(rp) => { s.append("PUSH "); s.append(format_regpair(rp)); },
            _ => {},
        }
    }

    /// Exchange
    #[verifier::rlimit(60)]
    fn append_exchange(&self, s: &mut String)
        requires
            self.wf(),
            matches!(self.opcode, Token::EX_DE_HL | Token::EX_AF | Token::EXX | Token::EX_AtSP_RP(_)),
        ensures
            final(s)@ == old(s)@ + self.spec_mnemonic(),
    {
        match self.opcode {
            Token::EX_DE_HL => s.append("EX DE,HL"),
            Token::EX_AF => s.append("EX AF,AF'"),
            Token::EXX => s.append("EXX"),
            Token::EX_AtSP_RP(rp) => { s.append("EX (SP),"); s.append(format_regpair(rp)); },
            _ => {},
        }
    }

    /// 8-bit arithmetic and logic
    #[verifier::rlimit(60)]
    fn append_8_bit_arithmetic_and_logic(&self, s: &mut String)
        requires
            self.wf(),
            matches!(self.opcode, Token::ALU(_, Some(_)) | Token::ALU(_, None) | Token::INC_RG(_) | Token::DEC_RG(_)),
        ensures
            final(s)@ == old(s)@ + self.spec_mnemonic(),
    {
        match self.opcode {
            Token::ALU(op, Some(reg)) => { s.append(format_alu_op(op)); self.append_reg(s, reg); },
            Token::ALU(op, None) => { s.append(format_alu_op(op)); self.append_data(s); },
            Token::INC_RG(reg) => { s.append("INC "); self.append_reg(s, reg); },
            Token::DEC_RG(reg) => { s.append("DEC "); self.append_reg(s, reg); },
            _ => {},
        }
    }

    /// General-purpose arithmetic and CPU control
    #[verifier::rlimit(60)]
    fn append_general_purpose_arithmetic_and_cpu_control(&self, s: &mut String)
        requires
            self.wf(),
            matches!(self.opcode, Token::DAA | Token::CPL | Token::NEG | Token::CCF | Token::SCF | Token::NOP | Token::HALT | Token::DI | Token::EI | Token::IM(_)),
        ensures
            final(s)@ == old(s)@ + self.spec_mnemonic(),
    {
        match self.opcode {
            Token::DAA => s.append("DAA"),
            Token::CPL => s.append("CPL"),
            Token::NEG => s.append("NEG"),
            Token::CCF => s.append("CCF"),
            Token::SCF => s.append("SCF"),
            Token::NOP => s.append("NOP"),
            Token::HALT => s.append("HALT"),
            Token::DI => s.append("DI"),
            Token::EI => s.append("EI"),
            Token::IM(mode) => s.append(match mode {
                IntMode::IM0 | IntMode::IM01 => "IM 0",
                IntMode::IM1 => "IM 1",
                IntMode::IM2 => "IM 2",
            }),
            _ => {},
        }
    }

    /// 16-bit arithmetic
    #[verifier::rlimit(60)]
    fn append_16_bit_arithmetic(&self, s: &mut String)
        requires
            self.wf(),
            matches!(self.opcode, Token::ADD_RP_RP(_, _) | Token::ADC_HL_RP(_) | Token::SBC_HL_RP(_) | Token::INC_RP(_) | Token::DEC_RP(_)),
        ensures
            final(s)@ == old(s)@ + self.spec_mnemonic(),
    {
        match self.opcode {
            Token::ADD_RP_RP(dst, src) => {
                s.append("ADD "); s.append(format_regpair(dst)); s.append(","); s.append(format_regpair(src));
            },
            Token::ADC_HL_RP(rp) => { s.append("ADC HL,"); s.append(format_regpair(rp)); },
            Token::SBC_HL_RP(rp) => { s.append("SBC HL,"); s.append(format_regpair(rp)); },
            Token::INC_RP(rp) => { s.append("INC "); s.append(format_regpair(rp)); },
            Token::DEC_RP(rp) => { s.append("DEC "); s.append(format_regpair(rp)); },
            _ => {},
        }
    }

    /// Rotate and shift
    #[verifier::rlimit(60)]
    fn append_rotate_and_shift(&self, s: &mut String)
        requires
            self.wf(),
            matches!(self.opcode, Token::RLCA | Token::RLA | Token::RRCA | Token::RRA | Token::SHOP(_, _) | Token::RLD | Token::RRD | Token::SHOPLD(_, _, _)),
        ensures
            final(s)@ == old(s)@ + self.spec_mnemonic(),
    {
        match self.opcode {
            Token::RLCA => s.append("RLCA"),
            Token::RLA => s.append("RLA"),
            Token::RRCA => s.append("RRCA"),
            Token::RRA => s.append("RRA"),
            Token::SHOP(op, reg) => { s.append(format_shift_op(op)); self.append_reg(s, reg); },
            Token::RLD => s.append("RLD"),
            Token::RRD => s.append("RRD"),
            Token::SHOPLD(op, reg, dst) => {
                s.append(format_shift_op(op)); self.append_reg(s, reg); s.append(","); self.append_reg(s, dst);
            },
            _ => {},
        }
    }

    /// Bit set, reset and test
    #[verifier::rlimit(60)]
    fn append_bit_set_reset_and_test(&self, s: &mut String)
        requires
            self.wf(),
            matches!(self.opcode, Token::BIT(_, _) | Token::SET(_, _) | Token::SETLD(_, _, _) | Token::RES(_, _) | Token::RESLD(_, _, _)),
        ensures
            final(s)@ == old(s)@ + self.spec_mnemonic(),
    {
        match self.opcode {
            Token::BIT(bit, reg) => self.append_bit_op(s, "BIT ", bit, reg),
            Token::SET(bit, reg) => self.append_bit_op(s, "SET ", bit, reg),
            Token::SETLD(bit, reg, dst) => {
                self.append_bit_op(s, "SET ", bit, reg);
                s.append(","); self.append_reg(s, dst);
            },
            Token::RES(bit, reg) => self.append_bit_op(s, "RES ", bit, reg),
            Token::RESLD(bit, reg, dst) => {
                self.append_bit_op(s, "RES ", bit, reg);
                s.append(","); self.append_reg(s, dst);
            },
            _ => {},
        }
    }

    fn append_bit_op(&self, s: &mut String, name: &str, bit: u8, reg: Reg)
        requires
            self.reg_ok(reg),
        ensures
            final(s)@ == old(s)@ + name@ + spec_digits(bit as nat, 10) + ","@ + self.spec_reg(reg),
    {
        s.append(name); append_digits(s, bit as u32, 10); s.append(","); self.append_reg(s, reg);
    }

    /// Jump, call and return
    #[verifier::rlimit(60)]
    fn append_jump_call_and_return(&self, s: &mut String)
        requires
            self.wf(),
            matches!(self.opcode, Token::JP(_) | Token::JP_RP(_) | Token::JR(_) | Token::DJNZ | Token::CALL(_) | Token::RET(_) | Token::RETI | Token::RETN | Token::RST(_)),
        ensures
            final(s)@ == old(s)@ + self.spec_mnemonic(),
    {
        match self.opcode {
            Token::JP(c) => self.append_cond_data(s, "JP ", c),
            Token::JP_RP(rp) => { s.append("JP ("); s.append(format_regpair(rp)); s.append(")"); },
            Token::JR(c) => {
                s.append("JR ");
                if c != Condition::Always {
                    s.append(format_condition(c)); s.append(",");
                }
                self.append_addr_displacement(s);
            },
            Token::DJNZ => { s.append("DJNZ "); self.append_addr_displacement(s); },
            Token::CALL(c) => self.append_cond_data(s, "CALL ", c),
            Token::RET(c) => if c == Condition::Always {
                s.append("RET");
            } else {
                s.append("RET "); s.append(format_condition(c));
            },
            Token::RETI => s.append("RETI"),
            Token::RETN => s.append("RETN"),
            Token::RST(value) => { s.append("RST "); append_hex(s, value as u32 * 8); },
            _ => {},
        }
    }

    /// Input and output
    #[verifier::rlimit(60)]
    fn append_input_and_output(&self, s: &mut String)
        requires
            self.wf(),
            matches!(self.opcode, Token::IN_A_N | Token::OUT_N_A | Token::IN_RG_AtBC(_) | Token::OUT_AtBC_RG(_) | Token::IN_AtBC | Token::OUT_AtBC_0),
        ensures
            final(s)@ == old(s)@ + self.spec_mnemonic(),
    {
        match self.opcode {
            Token::IN_A_N => { s.append("IN A,("); self.append_data(s); s.append(")"); },
            Token::OUT_N_A => { s.append("OUT ("); self.append_data(s); s.append("),A"); },
            Token::IN_RG_AtBC(reg) => { s.append("IN "); self.append_reg(s, reg); s.append(",(C)"); },
            Token::OUT_AtBC_RG(reg) => { s.append("OUT (C),"); self.append_reg(s, reg); },
            Token::IN_AtBC => s.append("IN (C)"),
            Token::OUT_AtBC_0 => s.append("OUT (C),0"),
            _ => {},
        }
    }

    /// Block transfer, search and IO
    #[verifier::rlimit(60)]
    fn append_block_transfer_search_and_io(&self, s: &mut String)
        requires
            self.wf(),
            matches!(self.opcode, Token::BLOP(_)),
        ensures
            final(s)@ == old(s)@ + self.spec_mnemonic(),
    {
        match self.opcode {
            Token::BLOP(op) => s.append(format_block_op(op)),
            _ => {},
        }
    }

    fn append_cond_data(&self, s: &mut String, name: &str, c: Condition)
        requires
            self.data is Some,
        ensures
            final(s)@ == old(s)@ + self.spec_cond_data(name@, c),
    {
        s.append(name);
        if c != Condition::Always {
            s.append(format_condition(c));
            s.append(",");
        }
        self.append_data(s);
    }

    fn append_reg(&self, s: &mut String, reg: Reg)
        requires
            self.reg_ok(reg),
        ensures
            final(s)@ == old(s)@ + self.spec_reg(reg),
    {
        match reg {
            Reg::AtIX => {
                s.append("(IX");
                append_signed(s, self.expect_displacement() as i32);
                s.append(")");
            },
            Reg::AtIY => {
                s.append("(IY");
                append_signed(s, self.expect_displacement() as i32);
                s.append(")");
            },
            _ => s.append(match reg {
                Reg::B => "B",
                Reg::C => "C",
                Reg::D => "D",
                Reg::E => "E",
                Reg::H => "H",
                Reg::L => "L",
                Reg::AtHL => "(HL)",
                Reg::A => "A",
                Reg::I => "I",
                Reg::R => "R",
                Reg::IXH => "IXH",
                Reg::IXL => "IXL",
                Reg::IYH => "IYH",
                _ => "IYL",
            }),
        }
    }

    /// Text of a register operand
    pub fn format_reg(&self, reg: Reg) -> (r: String)
        requires
            self.reg_ok(reg),
        ensures
            r@ == self.spec_reg(reg),
    {
        let mut s = String::new();
        self.append_reg(&mut s, reg);
        s
    }

    fn append_data(&self, s: &mut String)
        requires
            self.data is Some,
        ensures
            final(s)@ == old(s)@ + self.spec_data(),
    {
        match self.data {
            Some(DataValue::Byte(byte)) => append_hex(s, byte as u32),
            Some(DataValue::Word(word)) => append_hex(s, word as u32),
            None => {},
        }
    }

    /// Text of the immediate data
    pub fn format_data(&self) -> (r: String)
        requires
            self.data is Some,
        ensures
            r@ == self.spec_data(),
    {
        let mut s = String::new();
        self.append_data(&mut s);
        s
    }

    fn append_addr_displacement(&self, s: &mut String)
        requires
            self.displacement is Some,
        ensures
            final(s)@ == old(s)@ + self.spec_addr_displacement(),
    {
        s.append("$");
        append_signed(s, self.expect_displacement() as i32 + 2);
    }

    /// Text of a relative jump target
    pub fn format_addr_displacement(&self) -> (r: String)
        requires
            self.displacement is Some,
        ensures
            r@ == self.spec_addr_displacement(),
    {
        let mut s = String::new();
        self.append_addr_displacement(&mut s);
        s
    }

} // impl

/// A single digit as text
fn format_digit(d: u32) -> (r: &'static str)
    requires
        d < 16,
    ensures
        r@ == spec_digit(d as nat),
{
    if d == 0 { "0" } else if d == 1 { "1" } else if d == 2 { "2" } else if d == 3 { "3" }
    else if d == 4 { "4" } else if d == 5 { "5" } else if d == 6 { "6" } else if d == 7 { "7" }
    else if d == 8 { "8" } else if d == 9 { "9" } else if d == 10 { "A" } else if d == 11 { "B" }
    else if d == 12 { "C" } else if d == 13 { "D" } else if d == 14 { "E" } else { "F" }
}

fn append_digits(s: &mut String, n: u32, base: u32)
    requires
        2 <= base <= 16,
    ensures
        final(s)@ == old(s)@ + spec_digits(n as nat, base as nat),
    decreases n,
{
    if n < base {
        s.append(format_digit(n));
    } else {
        assert(n / base < n) by (nonlinear_arith)
            requires base >= 2, n >= base;
        append_digits(s, n / base, base);
        s.append(format_digit(n % base));
    }
}

fn append_hex(s: &mut String, n: u32)
    ensures
        final(s)@ == old(s)@ + spec_hex(n as nat),
{
    append_digits(s, n, 16);
    s.append("h");
}

fn append_signed(s: &mut String, num: i32)
    requires
        num > i32::MIN,
    ensures
        final(s)@ == old(s)@ + spec_signed(num as int),
{
    if num < 0 {
        s.append("-");
        append_hex(s, (-num) as u32);
    } else {
        s.append("+");
        append_hex(s, num as u32);
    }
}

/// `{:X}h` of a byte
pub fn format_byte(byte: u8) -> (r: String)
    ensures
        r@ == spec_hex(byte as nat),
{
    let mut s = String::new();
    append_hex(&mut s, byte as u32);
    s
}

/// `{:X}h` of a word
pub fn format_word(word: u16) -> (r: String)
    ensures
        r@ == spec_hex(word as nat),
{
    let mut s = String::new();
    append_hex(&mut s, word as u32);
    s
}

/// Sign and `{:X}h` of the absolute value
pub fn format_number_with_sign(num: i32) -> (r: String)
    requires
        num > i32::MIN,
    ensures
        r@ == spec_signed(num as int),
{
    let mut s = String::new();
    append_signed(&mut s, num);
    s
}

pub fn format_condition(c: Condition) -> (r: &'static str)
    ensures
        r@ == spec_condition_name(c),
{
    match c {
        Condition::NZ => "NZ",
        Condition::Z => "Z",
        Condition::NC => "NC",
        Condition::C => "C",
        Condition::PO => "PO",
        Condition::PE => "PE",
        Condition::P => "P",
        Condition::M => "M",
        Condition::Always => "",
    }
}

pub fn format_regpair(rp: RegPair) -> (r: &'static str)
    ensures
        r@ == spec_regpair_name(rp),
{
    match rp {
        RegPair::BC => "BC",
        RegPair::DE => "DE",
        RegPair::HL => "HL",
        RegPair::SP => "SP",
        RegPair::AF => "AF",
        RegPair::IX => "IX",
        RegPair::IY => "IY",
        _ => "",
    }
}

fn format_shift_op(op: ShiftOp) -> (r: &'static str)
    ensures
        r@ == spec_shift_name(op),
{
    match op {
        ShiftOp::RLC => "RLC ",
        ShiftOp::RRC => "RRC ",
        ShiftOp::RL => "RL ",
        ShiftOp::RR => "RR ",
        ShiftOp::SLA => "SLA ",
        ShiftOp::SRA => "SRA ",
        ShiftOp::SLL => "SLL ",
        ShiftOp::SRL => "SRL ",
    }
}

pub fn format_alu_op(op: AluOp) -> (r: &'static str)
    ensures
        r@ == spec_alu_name(op),
{
    match op {
        AluOp::ADD => "ADD A,",
        AluOp::ADC => "ADC A,",
        AluOp::SUB => "SUB ",
        AluOp::SBC => "SBC A,",
        AluOp::AND => "AND ",
        AluOp::XOR => "XOR ",
        AluOp::OR => "OR ",
        AluOp::CP => "CP ",
    }
}

fn format_block_op(op: BlockOp) -> (r: &'static str)
    ensures
        r@ == spec_block_name(op),
{
    match op {
        BlockOp::LDI => "LDI",
        BlockOp::CPI => "CPI",
        BlockOp::INI => "INI",
        BlockOp::OUTI => "OUTI",
        BlockOp::LDD => "LDD",
        BlockOp::CPD => "CPD",
        BlockOp::IND => "IND",
        BlockOp::OUTD => "OUTD",
        BlockOp::LDIR => "LDIR",
        BlockOp::CPIR => "CPIR",
        BlockOp::INIR => "INIR",
        BlockOp::OTIR => "OTIR",
        BlockOp::LDDR => "LDDR",
        BlockOp::CPDR => "CPDR",
        BlockOp::INDR => "INDR",
        BlockOp::OTDR => "OTDR",
    }
}

/// Different conditions have different names, and every condition but the unconditional one has
/// a name
proof fn lemma_condition_names(c1: Condition, c2: Condition)
    ensures
        c1 != Condition::Always ==> spec_condition_name(c1).len() >= 1,
        c1 != c2 ==> spec_condition_name(c1) != spec_condition_name(c2),
{
    reveal_strlit("NZ");
    reveal_strlit("Z");
    reveal_strlit("NC");
    reveal_strlit("C");
    reveal_strlit("PO");
    reveal_strlit("PE");
    reveal_strlit("P");
    reveal_strlit("M");
    reveal_strlit("");
    let a = spec_condition_name(c1);
    let b = spec_condition_name(c2);
    if c1 != c2 && a == b {
        assert(a.len() == b.len());
        if a.len() > 0 {
            assert(a[0] == b[0]);
        }
        if a.len() > 1 {
            assert(a[1] == b[1]);
        }
    }
}

/// Law: a return's mnemonic names its condition. Returns on different conditions, or on a
/// condition and unconditionally, read differently; a conditional one reads "RET ", then the
/// condition's name
pub proof fn lemma_ret_mnemonics(i: Instruction, j: Instruction)
    requires
        i.opcode is RET,
        j.opcode is RET,
    ensures
        i.opcode != j.opcode ==> i.spec_mnemonic() != j.spec_mnemonic(),
        i.opcode != Token::RET(Condition::Always) ==> i.spec_mnemonic().len() > 4
            && i.spec_mnemonic().subrange(0, 4) == "RET "@,
{
    reveal_strlit("RET");
    reveal_strlit("RET ");
    let c1 = match i.opcode { Token::RET(c) => c, _ => Condition::Always };
    let c2 = match j.opcode { Token::RET(c) => c, _ => Condition::Always };
    lemma_condition_names(c1, c2);
    lemma_condition_names(c2, c1);
    let a = i.spec_mnemonic();
    let b = j.spec_mnemonic();
    if c1 != Condition::Always {
        assert(a.subrange(0, 4) =~= "RET "@);
    }
    if c1 != c2 && a == b {
        if c1 != Condition::Always && c2 != Condition::Always {
            assert(a.subrange(4, a.len() as int) =~= spec_condition_name(c1));
            assert(b.subrange(4, b.len() as int) =~= spec_condition_name(c2));
        } else {
            assert(a.len() != b.len());
        }
    }
}

/// Law: the returns read, by their condition, "RET NZ", "RET Z", "RET NC", "RET C", "RET PO",
/// "RET PE", "RET P", "RET M", and "RET" when unconditional
pub proof fn lemma_ret_texts(i: Instruction)
    ensures
        (Instruction { opcode: Token::RET(Condition::NZ), ..i }).spec_mnemonic() == "RET NZ"@,
        (Instruction { opcode: Token::RET(Condition::Z), ..i }).spec_mnemonic() == "RET Z"@,
        (Instruction { opcode: Token::RET(Condition::NC), ..i }).spec_mnemonic() == "RET NC"@,
        (Instruction { opcode: Token::RET(Condition::C), ..i }).spec_mnemonic() == "RET C"@,
        (Instruction { opcode: Token::RET(Condition::PO), ..i }).spec_mnemonic() == "RET PO"@,
        (Instruction { opcode: Token::RET(Condition::PE), ..i }).spec_mnemonic() == "RET PE"@,
        (Instruction { opcode: Token::RET(Condition::P), ..i }).spec_mnemonic() == "RET P"@,
        (Instruction { opcode: Token::RET(Condition::M), ..i }).spec_mnemonic() == "RET M"@,
        (Instruction { opcode: Token::RET(Condition::Always), ..i }).spec_mnemonic() == "RET"@,
{
    reveal_strlit("RET ");
    reveal_strlit("RET");
    reveal_strlit("NZ");
    reveal_strlit("Z");
    reveal_strlit("NC");
    reveal_strlit("C");
    reveal_strlit("PO");
    reveal_strlit("PE");
    reveal_strlit("P");
    reveal_strlit("M");
    reveal_strlit("RET NZ");
    reveal_strlit("RET Z");
    reveal_strlit("RET NC");
    reveal_strlit("RET C");
    reveal_strlit("RET PO");
    reveal_strlit("RET PE");
    reveal_strlit("RET P");
    reveal_strlit("RET M");
    assert("RET "@ + "NZ"@ =~= "RET NZ"@);
    assert("RET "@ + "Z"@ =~= "RET Z"@);
    assert("RET "@ + "NC"@ =~= "RET NC"@);
    assert("RET "@ + "C"@ =~= "RET C"@);
    assert("RET "@ + "PO"@ =~= "RET PO"@);
    assert("RET "@ + "PE"@ =~= "RET PE"@);
    assert("RET "@ + "P"@ =~= "RET P"@);
    assert("RET "@ + "M"@ =~= "RET M"@);
}

/// Law: a conditional jump, call or relative jump reads as the unconditional one with the name
/// of its condition and a comma put before its operand
pub proof fn lemma_conditional_mnemonics(i: Instruction, c: Condition)
    requires
        c != Condition::Always,
    ensures
        ({
            let j = Instruction { opcode: Token::JP(c), ..i };
            let k = Instruction { opcode: Token::JP(Condition::Always), ..i };
            j.spec_mnemonic() == "JP "@ + spec_condition_name(c) + ","@ + k.spec_mnemonic().subrange(3, k.spec_mnemonic().len() as int)
        }),
        ({
            let j = Instruction { opcode: Token::CALL(c), ..i };
            let k = Instruction { opcode: Token::CALL(Condition::Always), ..i };
            j.spec_mnemonic() == "CALL "@ + spec_condition_name(c) + ","@ + k.spec_mnemonic().subrange(5, k.spec_mnemonic().len() as int)
        }),
        ({
            let j = Instruction { opcode: Token::JR(c), ..i };
            let k = Instruction { opcode: Token::JR(Condition::Always), ..i };
            j.spec_mnemonic() == "JR "@ + spec_condition_name(c) + ","@ + k.spec_mnemonic().subrange(3, k.spec_mnemonic().len() as int)
        }),
        spec_condition_name(c).len() >= 1,
{
    reveal_strlit("JP ");
    reveal_strlit("CALL ");
    reveal_strlit("JR ");
    lemma_condition_names(c, Condition::Always);
    let kj = Instruction { opcode: Token::JP(Condition::Always), ..i };
    let kc = Instruction { opcode: Token::CALL(Condition::Always), ..i };
    let kr = Instruction { opcode: Token::JR(Condition::Always), ..i };
    assert(kj.spec_mnemonic().subrange(3, kj.spec_mnemonic().len() as int) =~= kj.spec_data());
    assert(kc.spec_mnemonic().subrange(5, kc.spec_mnemonic().len() as int) =~= kc.spec_data());
    assert(kr.spec_mnemonic().subrange(3, kr.spec_mnemonic().len() as int) =~= kr.spec_addr_displacement());
}

} // verus!
