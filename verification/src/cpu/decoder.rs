use vstd::prelude::*;

use super::tokens::{
    Token, TokenType, DataValue, Reg, RegPair, IntMode, BlockOp, ShiftOp, AluOp, Condition,
    spec_reg, spec_regpair, spec_int_mode, spec_block_op, spec_shift_op, spec_alu_op, spec_condition,
};
use super::instruction::Instruction;

verus! {

/// Result of decoding a byte into a token
#[derive(Clone, Copy, PartialEq, Eq, Debug, Structural)]
pub struct TokenDecodeResult {
    /// Decoded token
    pub token: Token,
    /// Expected type for the next token
    pub upnext: TokenType,
}

/// Operand bytes that follow an opcode byte
#[derive(Clone, Copy, PartialEq, Eq, Debug, Structural)]
pub enum Operands {
    Nothing,
    Disp,
    Byte,
    Word,
    DispByte,
}

/// Position of the decoder within an instruction
#[derive(Clone, Copy, PartialEq, Eq, Debug, Structural)]
pub enum Stage {
    /// Reading prefix bytes (or the opcode byte that ends them)
    Prefix,
    /// DDCB/FDCB: reading the displacement byte
    IndexedBitDisp,
    /// DDCB/FDCB: reading the opcode byte
    IndexedBitOpcode,
    /// Reading operand byte `1` of the given layout
    Operand(Operands, u8),
    /// The instruction is complete
    Done,
}

/// Outcome of feeding one byte to the instruction decoder
#[derive(Clone, Copy, PartialEq, Eq, Debug, Structural)]
pub enum DecodeState {
    /// More bytes are needed; the token decoded from the byte
    Yielded(TokenDecodeResult),
    /// The instruction is complete
    Complete(Instruction),
}

pub open spec fn spec_x(b: u8) -> u8 { b / 64 }
pub open spec fn spec_y(b: u8) -> u8 { (b / 8) % 8 }
pub open spec fn spec_z(b: u8) -> u8 { b % 8 }
pub open spec fn spec_p(b: u8) -> u8 { (b / 16) % 4 }
pub open spec fn spec_q(b: u8) -> u8 { (b / 8) % 2 }

proof fn lemma_fields(b: u8)
    by (bit_vector)
    ensures
        (b & 0b11000000) >> 6 == b / 64,
        (b & 0b00111000) >> 3 == (b / 8) % 8,
        b & 0b00000111 == b % 8,
        (b & 0b00110000) >> 4 == (b / 16) % 4,
        (b & 0b00001000) >> 3 == (b / 8) % 2,
{
}

fn get_x(byte: u8) -> (r: u8)
    ensures r == spec_x(byte), r < 4,
{
    proof { lemma_fields(byte); }
    (byte & 0b11000000) >> 6
}

fn get_y(byte: u8) -> (r: u8)
    ensures r == spec_y(byte), r < 8,
{
    proof { lemma_fields(byte); }
    (byte & 0b00111000) >> 3
}

fn get_z(byte: u8) -> (r: u8)
    ensures r == spec_z(byte), r < 8,
{
    proof { lemma_fields(byte); }
    byte & 0b00000111
}

fn get_p(byte: u8) -> (r: u8)
    ensures r == spec_p(byte), r < 4,
{
    proof { lemma_fields(byte); }
    (byte & 0b00110000) >> 4
}

fn get_q(byte: u8) -> (r: u8)
    ensures r == spec_q(byte), r < 2,
{
    proof { lemma_fields(byte); }
    (byte & 0b00001000) >> 3
}

/// Index register selected by a DD (IX) or FD (IY) prefix, if any
pub open spec fn index_of(prefix: Option<u16>) -> Option<bool> {
    match prefix {
        None => None,
        Some(code) => if code % 256 == 0xdd {
            Some(true)
        } else if code % 256 == 0xfd {
            Some(false)
        } else {
            None
        },
    }
}

/// DD/FD prefix turns H, L, (HL) into IXH/IYH, IXL/IYL, (IX+d)/(IY+d)
pub open spec fn spec_alt_reg(prefix: Option<u16>, reg: Reg) -> Reg {
    match index_of(prefix) {
        Some(true) => match reg {
            Reg::H => Reg::IXH,
            Reg::L => Reg::IXL,
            Reg::AtHL => Reg::AtIX,
            _ => reg,
        },
        Some(false) => match reg {
            Reg::H => Reg::IYH,
            Reg::L => Reg::IYL,
            Reg::AtHL => Reg::AtIY,
            _ => reg,
        },
        None => reg,
    }
}

/// DD/FD prefix turns HL into IX/IY
pub open spec fn spec_alt_rpair(prefix: Option<u16>, rpair: RegPair) -> RegPair {
    match index_of(prefix) {
        Some(true) => if rpair == RegPair::HL { RegPair::IX } else { rpair },
        Some(false) => if rpair == RegPair::HL { RegPair::IY } else { rpair },
        None => rpair,
    }
}

/// Prefix scanning: the prefix in effect after `byte`, or `None` when `byte` is not a prefix
pub open spec fn spec_prefix_step(current: Option<u16>, byte: u8) -> Option<u16> {
    match current {
        Some(code) => if code == 0xdd || code == 0xfd {
            if byte == 0xed || byte == 0xdd || byte == 0xfd {
                Some(byte as u16)
            } else if byte == 0xcb {
                Some((0xcb * 256 + code) as u16)
            } else {
                None
            }
        } else {
            None
        },
        None => if byte == 0xcb || byte == 0xed || byte == 0xdd || byte == 0xfd {
            Some(byte as u16)
        } else {
            None
        },
    }
}

/// The prefixes after which the displacement byte comes before the opcode byte
pub open spec fn is_indexed_bit_prefix(code: u16) -> bool {
    code == 0xcbdd || code == 0xcbfd
}

/// Opcode table without prefix or with a DD/FD prefix
pub open spec fn spec_main_opcode(prefix: Option<u16>, b: u8) -> (Token, Operands) {
    let (x, y, z, p, q) = (spec_x(b), spec_y(b), spec_z(b), spec_p(b), spec_q(b));
    let indexed = prefix is Some;
    if x == 0 {
        if z == 0 {
            if y == 0 { (Token::NOP, Operands::Nothing) }
            else if y == 1 { (Token::EX_AF, Operands::Nothing) }
            else if y == 2 { (Token::DJNZ, Operands::Disp) }
            else if y == 3 { (Token::JR(Condition::Always), Operands::Disp) }
            else { (Token::JR(spec_condition(y % 4)), Operands::Disp) }
        } else if z == 1 {
            if q == 0 {
                (Token::LD_RP_NN(spec_alt_rpair(prefix, spec_regpair(p))), Operands::Word)
            } else {
                (Token::ADD_RP_RP(spec_alt_rpair(prefix, RegPair::HL), spec_alt_rpair(prefix, spec_regpair(p))), Operands::Nothing)
            }
        } else if z == 2 {
            if y == 0 { (Token::LD_AtRP_A(RegPair::BC), Operands::Nothing) }
            else if y == 1 { (Token::LD_A_AtRP(RegPair::BC), Operands::Nothing) }
            else if y == 2 { (Token::LD_AtRP_A(RegPair::DE), Operands::Nothing) }
            else if y == 3 { (Token::LD_A_AtRP(RegPair::DE), Operands::Nothing) }
            else if y == 4 { (Token::LD_MM_RP(spec_alt_rpair(prefix, RegPair::HL)), Operands::Word) }
            else if y == 5 { (Token::LD_RP_MM(spec_alt_rpair(prefix, RegPair::HL)), Operands::Word) }
            else if y == 6 { (Token::LD_MM_A, Operands::Word) }
            else { (Token::LD_A_MM, Operands::Word) }
        } else if z == 3 {
            let rp = spec_alt_rpair(prefix, spec_regpair(p));
            (if q == 0 { Token::INC_RP(rp) } else { Token::DEC_RP(rp) }, Operands::Nothing)
        } else if z == 4 || z == 5 {
            let reg = spec_reg(y);
            let tok = if z == 4 { Token::INC_RG(spec_alt_reg(prefix, reg)) } else { Token::DEC_RG(spec_alt_reg(prefix, reg)) };
            (tok, if indexed && reg == Reg::AtHL { Operands::Disp } else { Operands::Nothing })
        } else if z == 6 {
            let reg = spec_reg(y);
            (Token::LD_RG_N(spec_alt_reg(prefix, reg)), if indexed && reg == Reg::AtHL { Operands::DispByte } else { Operands::Byte })
        } else {
            (if y == 0 { Token::RLCA }
            else if y == 1 { Token::RRCA }
            else if y == 2 { Token::RLA }
            else if y == 3 { Token::RRA }
            else if y == 4 { Token::DAA }
            else if y == 5 { Token::CPL }
            else if y == 6 { Token::SCF }
            else { Token::CCF }, Operands::Nothing)
        }
    } else if x == 1 {
        let dst = spec_reg(y);
        let src = spec_reg(z);
        let tok = if dst == Reg::AtHL && src == Reg::AtHL {
            Token::HALT
        } else if dst == Reg::AtHL {
            Token::LD_RG_RG(spec_alt_reg(prefix, dst), src)
        } else if src == Reg::AtHL {
            Token::LD_RG_RG(dst, spec_alt_reg(prefix, src))
        } else {
            Token::LD_RG_RG(spec_alt_reg(prefix, dst), spec_alt_reg(prefix, src))
        };
        (tok, if indexed && (dst == Reg::AtHL || src == Reg::AtHL) { Operands::Disp } else { Operands::Nothing })
    } else if x == 2 {
        let reg = spec_reg(z);
        (Token::ALU(spec_alu_op(y), Some(spec_alt_reg(prefix, reg))), if indexed && reg == Reg::AtHL { Operands::Disp } else { Operands::Nothing })
    } else {
        if z == 0 {
            (Token::RET(spec_condition(y)), Operands::Nothing)
        } else if z == 1 {
            (if q == 0 {
                Token::POP(spec_alt_rpair(prefix, spec_regpair(p).spec_prefer_af()))
            } else if p == 0 {
                Token::RET(Condition::Always)
            } else if p == 1 {
                Token::EXX
            } else if p == 2 {
                Token::JP_RP(spec_alt_rpair(prefix, RegPair::HL))
            } else {
                Token::LD_SP_RP(spec_alt_rpair(prefix, RegPair::HL))
            }, Operands::Nothing)
        } else if z == 2 {
            (Token::JP(spec_condition(y)), Operands::Word)
        } else if z == 3 {
            if y == 0 { (Token::JP(Condition::Always), Operands::Word) }
            else if y == 2 { (Token::OUT_N_A, Operands::Byte) }
            else if y == 3 { (Token::IN_A_N, Operands::Byte) }
            else if y == 4 { (Token::EX_AtSP_RP(spec_alt_rpair(prefix, RegPair::HL)), Operands::Nothing) }
            else if y == 5 { (Token::EX_DE_HL, Operands::Nothing) }
            else if y == 6 { (Token::DI, Operands::Nothing) }
            else if y == 7 { (Token::EI, Operands::Nothing) }
            else { (Token::NOP, Operands::Nothing) } // CB: a prefix, never an opcode here
        } else if z == 4 || z == 5 {
            if z == 5 && q == 0 {
                (Token::PUSH(spec_alt_rpair(prefix, spec_regpair(p).spec_prefer_af())), Operands::Nothing)
            } else {
                (Token::CALL(if z == 4 { spec_condition(y) } else { Condition::Always }), Operands::Word)
            }
        } else if z == 6 {
            (Token::ALU(spec_alu_op(y), None), Operands::Byte)
        } else {
            (Token::RST(y), Operands::Nothing)
        }
    }
}

/// Opcode table after an ED prefix
pub open spec fn spec_ed_opcode(b: u8) -> (Token, Operands) {
    let (x, y, z, p, q) = (spec_x(b), spec_y(b), spec_z(b), spec_p(b), spec_q(b));
    if x == 1 {
        if z == 0 {
            (if y == 6 { Token::IN_AtBC } else { Token::IN_RG_AtBC(spec_reg(y)) }, Operands::Nothing)
        } else if z == 1 {
            (if y == 6 { Token::OUT_AtBC_0 } else { Token::OUT_AtBC_RG(spec_reg(y)) }, Operands::Nothing)
        } else if z == 2 {
            (if q == 0 { Token::SBC_HL_RP(spec_regpair(p)) } else { Token::ADC_HL_RP(spec_regpair(p)) }, Operands::Nothing)
        } else if z == 3 {
            (if q == 0 { Token::LD_MM_RP(spec_regpair(p)) } else { Token::LD_RP_MM(spec_regpair(p)) }, Operands::Word)
        } else if z == 4 {
            (Token::NEG, Operands::Nothing)
        } else if z == 5 {
            (if y == 1 { Token::RETI } else { Token::RETN }, Operands::Nothing)
        } else if z == 6 {
            (Token::IM(spec_int_mode(y)), Operands::Nothing)
        } else {
            (if y == 0 { Token::LD_RG_RG(Reg::I, Reg::A) }
            else if y == 1 { Token::LD_RG_RG(Reg::R, Reg::A) }
            else if y == 2 { Token::LD_RG_RG(Reg::A, Reg::I) }
            else if y == 3 { Token::LD_RG_RG(Reg::A, Reg::R) }
            else if y == 4 { Token::RRD }
            else if y == 5 { Token::RLD }
            else { Token::NOP }, Operands::Nothing)
        }
    } else if x == 2 && z <= 3 && y >= 4 {
        (Token::BLOP(spec_block_op((y * 4 + z) as u8)), Operands::Nothing)
    } else {
        (Token::NOP, Operands::Nothing)
    }
}

/// Opcode table after a CB prefix
pub open spec fn spec_cb_opcode(b: u8) -> Token {
    let (x, y, z) = (spec_x(b), spec_y(b), spec_z(b));
    if x == 0 {
        Token::SHOP(spec_shift_op(y), spec_reg(z))
    } else if x == 1 {
        Token::BIT(y, spec_reg(z))
    } else if x == 2 {
        Token::RES(y, spec_reg(z))
    } else {
        Token::SET(y, spec_reg(z))
    }
}

/// Opcode table after a DDCB/FDCB prefix and the displacement byte
pub open spec fn spec_indexed_bit_opcode(prefix: Option<u16>, b: u8) -> Token {
    let (x, y, z) = (spec_x(b), spec_y(b), spec_z(b));
    let target = spec_alt_reg(prefix, Reg::AtHL);
    if x == 0 {
        if z == 6 { Token::SHOP(spec_shift_op(y), target) } else { Token::SHOPLD(spec_shift_op(y), target, spec_reg(z)) }
    } else if x == 1 {
        Token::BIT(y, target)
    } else if x == 2 {
        if z == 6 { Token::RES(y, target) } else { Token::RESLD(y, target, spec_reg(z)) }
    } else {
        if z == 6 { Token::SET(y, target) } else { Token::SETLD(y, target, spec_reg(z)) }
    }
}

/// Opcode token and operand layout of an opcode byte read after the given prefix
pub open spec fn spec_opcode(prefix: Option<u16>, b: u8) -> (Token, Operands) {
    match prefix {
        Some(code) => if code == 0xed {
            spec_ed_opcode(b)
        } else if code == 0xcb {
            (spec_cb_opcode(b), Operands::Nothing)
        } else {
            spec_main_opcode(prefix, b)
        },
        None => spec_main_opcode(prefix, b),
    }
}

/// Type of the first byte of an operand layout
pub open spec fn first_operand_type(ops: Operands) -> TokenType {
    match ops {
        Operands::Disp | Operands::DispByte => TokenType::Displacement,
        _ => TokenType::Data,
    }
}

/// Create a decoder which accepts bytes, yields decoded
/// tokens and completes with an instruction when the entire instruction is decoded
pub fn instruction_decoder() -> (d: InstructionDecoder)
    ensures
        d == InstructionDecoder::initial(),
{
    InstructionDecoder {
        stage: Stage::Prefix,
        prefix: None,
        opcode: Token::NOP,
        displacement: None,
        data: None,
        low: 0,
    }
}

/// Streaming Z80 instruction decoder
#[derive(Clone, Copy, PartialEq, Eq, Debug, Structural)]
pub struct InstructionDecoder {
    pub stage: Stage,
    pub prefix: Option<u16>,
    pub opcode: Token,
    pub displacement: Option<i8>,
    pub data: Option<DataValue>,
    pub low: u8,
}

impl InstructionDecoder {

    pub open spec fn initial() -> InstructionDecoder {
        InstructionDecoder {
            stage: Stage::Prefix,
            prefix: None,
            opcode: Token::NOP,
            displacement: None,
            data: None,
            low: 0,
        }
    }

    pub open spec fn is_done(self) -> bool {
        self.stage is Done
    }

    /// The instruction assembled so far
    pub open spec fn instruction(self) -> Instruction {
        Instruction { opcode: self.opcode, displacement: self.displacement, data: self.data }
    }

    /// Decoder after consuming an opcode byte
    pub open spec fn after_opcode(self, b: u8) -> (InstructionDecoder, DecodeState) {
        let (tok, ops) = spec_opcode(self.prefix, b);
        let d = InstructionDecoder { opcode: tok, ..self };
        if ops == Operands::Nothing {
            (InstructionDecoder { stage: Stage::Done, ..d }, DecodeState::Complete(d.instruction()))
        } else {
            (InstructionDecoder { stage: Stage::Operand(ops, 0), ..d },
             DecodeState::Yielded(TokenDecodeResult { token: tok, upnext: first_operand_type(ops) }))
        }
    }

    /// One decoding step: the decoder after `b` and what it reports
    pub open spec fn next(self, b: u8) -> (InstructionDecoder, DecodeState) {
        match self.stage {
            Stage::Prefix => match spec_prefix_step(self.prefix, b) {
                Some(code) => {
                    let indexed_bit = is_indexed_bit_prefix(code);
                    (InstructionDecoder {
                        stage: if indexed_bit { Stage::IndexedBitDisp } else { Stage::Prefix },
                        prefix: Some(code),
                        ..self
                    }, DecodeState::Yielded(TokenDecodeResult {
                        token: Token::Prefix(code),
                        upnext: if indexed_bit { TokenType::Displacement } else { TokenType::Opcode },
                    }))
                },
                None => self.after_opcode(b),
            },
            Stage::IndexedBitDisp => (
                InstructionDecoder { stage: Stage::IndexedBitOpcode, displacement: Some(b as i8), ..self },
                DecodeState::Yielded(TokenDecodeResult { token: Token::Displacement(b as i8), upnext: TokenType::Opcode }),
            ),
            Stage::IndexedBitOpcode => {
                let d = InstructionDecoder { stage: Stage::Done, opcode: spec_indexed_bit_opcode(self.prefix, b), ..self };
                (d, DecodeState::Complete(d.instruction()))
            },
            Stage::Operand(ops, idx) => {
                if ops == Operands::Word && idx == 0 {
                    (InstructionDecoder { stage: Stage::Operand(ops, 1), low: b, ..self },
                     DecodeState::Yielded(TokenDecodeResult { token: Token::Data(DataValue::Byte(b)), upnext: TokenType::Data }))
                } else if ops == Operands::Word {
                    let d = InstructionDecoder {
                        stage: Stage::Done,
                        data: Some(DataValue::Word((b as u16 * 256 + self.low) as u16)),
                        ..self
                    };
                    (d, DecodeState::Complete(d.instruction()))
                } else if ops == Operands::DispByte && idx == 0 {
                    (InstructionDecoder { stage: Stage::Operand(ops, 1), displacement: Some(b as i8), ..self },
                     DecodeState::Yielded(TokenDecodeResult { token: Token::Displacement(b as i8), upnext: TokenType::Data }))
                } else if ops == Operands::Disp {
                    let d = InstructionDecoder { stage: Stage::Done, displacement: Some(b as i8), ..self };
                    (d, DecodeState::Complete(d.instruction()))
                } else {
                    let d = InstructionDecoder { stage: Stage::Done, data: Some(DataValue::Byte(b)), ..self };
                    (d, DecodeState::Complete(d.instruction()))
                }
            },
            Stage::Done => (self, DecodeState::Complete(self.instruction())),
        }
    }

}


fn alt_reg(prefix: Option<u16>, reg: Reg) -> (r: Reg)
    ensures r == spec_alt_reg(prefix, reg),
{
    match prefix {
        None => reg,
        Some(code) => {
            let low = code & 0xff;
            assert(low == code % 256) by (bit_vector) requires low == code & 0xff;
            if low == 0xdd {
                match reg {
                    Reg::H => Reg::IXH,
                    Reg::L => Reg::IXL,
                    Reg::AtHL => Reg::AtIX,
                    _ => reg,
                }
            } else if low == 0xfd {
                match reg {
                    Reg::H => Reg::IYH,
                    Reg::L => Reg::IYL,
                    Reg::AtHL => Reg::AtIY,
                    _ => reg,
                }
            } else {
                reg
            }
        },
    }
}

fn alt_rpair(prefix: Option<u16>, rpair: RegPair) -> (r: RegPair)
    ensures r == spec_alt_rpair(prefix, rpair),
{
    match prefix {
        None => rpair,
        Some(code) => {
            let low = code & 0xff;
            assert(low == code % 256) by (bit_vector) requires low == code & 0xff;
            if low == 0xdd {
                if rpair == RegPair::HL { RegPair::IX } else { rpair }
            } else if low == 0xfd {
                if rpair == RegPair::HL { RegPair::IY } else { rpair }
            } else {
                rpair
            }
        },
    }
}

/// Prefix scanning: Z80 opcodes may have several prefixes that override each other.
/// Returns the prefix in effect after `byte`, or `None` when `byte` ends the prefixes.
pub fn prefix_decoder(current: Option<u16>, byte: u8) -> (r: Option<u16>)
    ensures r == spec_prefix_step(current, byte),
{
    match current {
        Some(code) => if code == 0xdd || code == 0xfd {
            if byte == 0xed || byte == 0xdd || byte == 0xfd {
                // DD or FD followed by DD, ED or FD: the former prefix is ignored
                Some(byte as u16)
            } else if byte == 0xcb {
                // DD or FD followed by CB gives DDCB or FDCB
                let merged = 0xcb00 | code;
                assert(merged == (0xcb * 256 + code) as u16) by (bit_vector)
                    requires merged == 0xcb00 | code, code == 0xdd || code == 0xfd;
                Some(merged)
            } else {
                None
            }
        } else {
            // CB, ED, DDCB and FDCB are never followed by another prefix
            None
        },
        None => if byte == 0xcb || byte == 0xed || byte == 0xdd || byte == 0xfd {
            Some(byte as u16)
        } else {
            None
        },
    }
}

fn main_opcode_x0(prefix: Option<u16>, b: u8) -> (r: (Token, Operands))
    requires spec_x(b) == 0,
    ensures r == spec_main_opcode(prefix, b),
{
    let (y, z, p, q) = (get_y(b), get_z(b), get_p(b), get_q(b));
    let indexed = prefix.is_some();
    if z == 0 {
        if y == 0 { (Token::NOP, Operands::Nothing) }
        else if y == 1 { (Token::EX_AF, Operands::Nothing) }
        else if y == 2 { (Token::DJNZ, Operands::Disp) }
        else if y == 3 { (Token::JR(Condition::Always), Operands::Disp) }
        else { (Token::JR(Condition::from_code(y % 4)), Operands::Disp) }
    } else if z == 1 {
        if q == 0 {
            (Token::LD_RP_NN(alt_rpair(prefix, RegPair::from_code(p).prefer_sp())), Operands::Word)
        } else {
            (Token::ADD_RP_RP(alt_rpair(prefix, RegPair::HL), alt_rpair(prefix, RegPair::from_code(p).prefer_sp())), Operands::Nothing)
        }
    } else if z == 2 {
        if y == 0 { (Token::LD_AtRP_A(RegPair::BC), Operands::Nothing) }
        else if y == 1 { (Token::LD_A_AtRP(RegPair::BC), Operands::Nothing) }
        else if y == 2 { (Token::LD_AtRP_A(RegPair::DE), Operands::Nothing) }
        else if y == 3 { (Token::LD_A_AtRP(RegPair::DE), Operands::Nothing) }
        else if y == 4 { (Token::LD_MM_RP(alt_rpair(prefix, RegPair::HL)), Operands::Word) }
        else if y == 5 { (Token::LD_RP_MM(alt_rpair(prefix, RegPair::HL)), Operands::Word) }
        else if y == 6 { (Token::LD_MM_A, Operands::Word) }
        else { (Token::LD_A_MM, Operands::Word) }
    } else if z == 3 {
        let rp = alt_rpair(prefix, RegPair::from_code(p).prefer_sp());
        (if q == 0 { Token::INC_RP(rp) } else { Token::DEC_RP(rp) }, Operands::Nothing)
    } else if z == 4 || z == 5 {
        let reg = Reg::from_code(y);
        let tok = if z == 4 { Token::INC_RG(alt_reg(prefix, reg)) } else { Token::DEC_RG(alt_reg(prefix, reg)) };
        (tok, if indexed && reg == Reg::AtHL { Operands::Disp } else { Operands::Nothing })
    } else if z == 6 {
        let reg = Reg::from_code(y);
        (Token::LD_RG_N(alt_reg(prefix, reg)), if indexed && reg == Reg::AtHL { Operands::DispByte } else { Operands::Byte })
    } else {
        (if y == 0 { Token::RLCA }
        else if y == 1 { Token::RRCA }
        else if y == 2 { Token::RLA }
        else if y == 3 { Token::RRA }
        else if y == 4 { Token::DAA }
        else if y == 5 { Token::CPL }
        else if y == 6 { Token::SCF }
        else { Token::CCF }, Operands::Nothing)
    }
}

fn main_opcode_x3(prefix: Option<u16>, b: u8) -> (r: (Token, Operands))
    requires spec_x(b) == 3,
    ensures r == spec_main_opcode(prefix, b),
{
    let (y, z, p, q) = (get_y(b), get_z(b), get_p(b), get_q(b));
    if z == 0 {
        (Token::RET(Condition::from_code(y)), Operands::Nothing)
    } else if z == 1 {
        (if q == 0 {
            Token::POP(alt_rpair(prefix, RegPair::from_code(p).prefer_af()))
        } else if p == 0 {
            Token::RET(Condition::Always)
        } else if p == 1 {
            Token::EXX
        } else if p == 2 {
            Token::JP_RP(alt_rpair(prefix, RegPair::HL))
        } else {
            Token::LD_SP_RP(alt_rpair(prefix, RegPair::HL))
        }, Operands::Nothing)
    } else if z == 2 {
        (Token::JP(Condition::from_code(y)), Operands::Word)
    } else if z == 3 {
        if y == 0 { (Token::JP(Condition::Always), Operands::Word) }
        else if y == 2 { (Token::OUT_N_A, Operands::Byte) }
        else if y == 3 { (Token::IN_A_N, Operands::Byte) }
        else if y == 4 { (Token::EX_AtSP_RP(alt_rpair(prefix, RegPair::HL)), Operands::Nothing) }
        else if y == 5 { (Token::EX_DE_HL, Operands::Nothing) }
        else if y == 6 { (Token::DI, Operands::Nothing) }
        else if y == 7 { (Token::EI, Operands::Nothing) }
        else { (Token::NOP, Operands::Nothing) }
    } else if z == 4 || z == 5 {
        if z == 5 && q == 0 {
            (Token::PUSH(alt_rpair(prefix, RegPair::from_code(p).prefer_af())), Operands::Nothing)
        } else {
            (Token::CALL(if z == 4 { Condition::from_code(y) } else { Condition::Always }), Operands::Word)
        }
    } else if z == 6 {
        (Token::ALU(AluOp::from_code(y), None), Operands::Byte)
    } else {
        (Token::RST(y), Operands::Nothing)
    }
}

fn main_opcode(prefix: Option<u16>, b: u8) -> (r: (Token, Operands))
    ensures r == spec_main_opcode(prefix, b),
{
    let (x, y, z) = (get_x(b), get_y(b), get_z(b));
    let indexed = prefix.is_some();
    if x == 0 {
        main_opcode_x0(prefix, b)
    } else if x == 1 {
        let dst = Reg::from_code(y);
        let src = Reg::from_code(z);
        let tok = if dst == Reg::AtHL && src == Reg::AtHL {
            Token::HALT // exception
        } else if dst == Reg::AtHL {
            Token::LD_RG_RG(alt_reg(prefix, dst), src)
        } else if src == Reg::AtHL {
            Token::LD_RG_RG(dst, alt_reg(prefix, src))
        } else {
            Token::LD_RG_RG(alt_reg(prefix, dst), alt_reg(prefix, src))
        };
        (tok, if indexed && (dst == Reg::AtHL || src == Reg::AtHL) { Operands::Disp } else { Operands::Nothing })
    } else if x == 2 {
        let reg = Reg::from_code(z);
        (Token::ALU(AluOp::from_code(y), Some(alt_reg(prefix, reg))), if indexed && reg == Reg::AtHL { Operands::Disp } else { Operands::Nothing })
    } else {
        main_opcode_x3(prefix, b)
    }
}

fn ed_opcode(b: u8) -> (r: (Token, Operands))
    ensures r == spec_ed_opcode(b),
{
    let (x, y, z, p, q) = (get_x(b), get_y(b), get_z(b), get_p(b), get_q(b));
    if x == 1 {
        if z == 0 {
            (if y == 6 { Token::IN_AtBC } else { Token::IN_RG_AtBC(Reg::from_code(y)) }, Operands::Nothing)
        } else if z == 1 {
            (if y == 6 { Token::OUT_AtBC_0 } else { Token::OUT_AtBC_RG(Reg::from_code(y)) }, Operands::Nothing)
        } else if z == 2 {
            (if q == 0 { Token::SBC_HL_RP(RegPair::from_code(p).prefer_sp()) } else { Token::ADC_HL_RP(RegPair::from_code(p).prefer_sp()) }, Operands::Nothing)
        } else if z == 3 {
            (if q == 0 { Token::LD_MM_RP(RegPair::from_code(p).prefer_sp()) } else { Token::LD_RP_MM(RegPair::from_code(p).prefer_sp()) }, Operands::Word)
        } else if z == 4 {
            (Token::NEG, Operands::Nothing)
        } else if z == 5 {
            (if y == 1 { Token::RETI } else { Token::RETN }, Operands::Nothing)
        } else if z == 6 {
            (Token::IM(IntMode::from_code(y)), Operands::Nothing)
        } else {
            (if y == 0 { Token::LD_RG_RG(Reg::I, Reg::A) }
            else if y == 1 { Token::LD_RG_RG(Reg::R, Reg::A) }
            else if y == 2 { Token::LD_RG_RG(Reg::A, Reg::I) }
            else if y == 3 { Token::LD_RG_RG(Reg::A, Reg::R) }
            else if y == 4 { Token::RRD }
            else if y == 5 { Token::RLD }
            else { Token::NOP }, Operands::Nothing)
        }
    } else if x == 2 && z <= 3 && y >= 4 {
        let code = (y << 2) | z;
        assert(code == (y * 4 + z) as u8) by (bit_vector)
            requires code == (y << 2) | z, y < 8, z < 4;
        (Token::BLOP(BlockOp::from_code(code)), Operands::Nothing)
    } else {
        (Token::NOP, Operands::Nothing)
    }
}

fn cb_opcode(b: u8) -> (r: Token)
    ensures r == spec_cb_opcode(b),
{
    let (x, y, z) = (get_x(b), get_y(b), get_z(b));
    if x == 0 {
        Token::SHOP(ShiftOp::from_code(y), Reg::from_code(z))
    } else if x == 1 {
        Token::BIT(y, Reg::from_code(z))
    } else if x == 2 {
        Token::RES(y, Reg::from_code(z))
    } else {
        Token::SET(y, Reg::from_code(z))
    }
}

fn indexed_bit_opcode(prefix: Option<u16>, b: u8) -> (r: Token)
    ensures r == spec_indexed_bit_opcode(prefix, b),
{
    let (x, y, z) = (get_x(b), get_y(b), get_z(b));
    let target = alt_reg(prefix, Reg::AtHL);
    if x == 0 {
        if z == 6 { Token::SHOP(ShiftOp::from_code(y), target) } else { Token::SHOPLD(ShiftOp::from_code(y), target, Reg::from_code(z)) }
    } else if x == 1 {
        Token::BIT(y, target)
    } else if x == 2 {
        if z == 6 { Token::RES(y, target) } else { Token::RESLD(y, target, Reg::from_code(z)) }
    } else {
        if z == 6 { Token::SET(y, target) } else { Token::SETLD(y, target, Reg::from_code(z)) }
    }
}

/// Token and operand layout of an opcode byte read after the given prefix
pub fn token_decoder(prefix: Option<u16>, b: u8) -> (r: (Token, Operands))
    ensures r == spec_opcode(prefix, b),
{
    match prefix {
        Some(code) => if code == 0xed {
            ed_opcode(b)
        } else if code == 0xcb {
            (cb_opcode(b), Operands::Nothing)
        } else {
            main_opcode(prefix, b)
        },
        None => main_opcode(prefix, b),
    }
}

impl InstructionDecoder {

    fn feed_opcode(&mut self, b: u8) -> (r: DecodeState)
        ensures (*final(self), r) == old(self).after_opcode(b),
    {
        let (tok, ops) = token_decoder(self.prefix, b);
        self.opcode = tok;
        if ops == Operands::Nothing {
            self.stage = Stage::Done;
            DecodeState::Complete(Instruction { opcode: tok, displacement: self.displacement, data: self.data })
        } else {
            self.stage = Stage::Operand(ops, 0);
            let upnext = match ops {
                Operands::Disp | Operands::DispByte => TokenType::Displacement,
                _ => TokenType::Data,
            };
            DecodeState::Yielded(TokenDecodeResult { token: tok, upnext })
        }
    }

    /// Feed the next instruction byte
    pub fn resume(&mut self, b: u8) -> (r: DecodeState)
        requires
            !old(self).is_done(),
        ensures
            (*final(self), r) == old(self).next(b),
    {
        match self.stage {
            Stage::Prefix => match prefix_decoder(self.prefix, b) {
                Some(code) => {
                    let indexed_bit = code == 0xcbdd || code == 0xcbfd;
                    self.prefix = Some(code);
                    self.stage = if indexed_bit { Stage::IndexedBitDisp } else { Stage::Prefix };
                    DecodeState::Yielded(TokenDecodeResult {
                        token: Token::Prefix(code),
                        upnext: if indexed_bit { TokenType::Displacement } else { TokenType::Opcode },
                    })
                },
                None => self.feed_opcode(b),
            },
            Stage::IndexedBitDisp => {
                // First byte after DDCB/FDCB is a displacement byte and then opcode follows
                self.stage = Stage::IndexedBitOpcode;
                self.displacement = Some(b as i8);
                DecodeState::Yielded(TokenDecodeResult { token: Token::Displacement(b as i8), upnext: TokenType::Opcode })
            },
            Stage::IndexedBitOpcode => {
                self.stage = Stage::Done;
                self.opcode = indexed_bit_opcode(self.prefix, b);
                DecodeState::Complete(Instruction { opcode: self.opcode, displacement: self.displacement, data: self.data })
            },
            Stage::Operand(ops, idx) => {
                if ops == Operands::Word && idx == 0 {
                    self.stage = Stage::Operand(ops, 1);
                    self.low = b;
                    DecodeState::Yielded(TokenDecodeResult { token: Token::Data(DataValue::Byte(b)), upnext: TokenType::Data })
                } else if ops == Operands::Word {
                    self.stage = Stage::Done;
                    let low = self.low;
                    let word = ((b as u16) << 8) | low as u16;
                    assert(word == (b as u16 * 256 + low) as u16) by (bit_vector)
                        requires word == ((b as u16) << 8) | low as u16;
                    self.data = Some(DataValue::Word(word));
                    DecodeState::Complete(Instruction { opcode: self.opcode, displacement: self.displacement, data: self.data })
                } else if ops == Operands::DispByte && idx == 0 {
                    self.stage = Stage::Operand(ops, 1);
                    self.displacement = Some(b as i8);
                    DecodeState::Yielded(TokenDecodeResult { token: Token::Displacement(b as i8), upnext: TokenType::Data })
                } else if ops == Operands::Disp {
                    self.stage = Stage::Done;
                    self.displacement = Some(b as i8);
                    DecodeState::Complete(Instruction { opcode: self.opcode, displacement: self.displacement, data: self.data })
                } else {
                    self.stage = Stage::Done;
                    self.data = Some(DataValue::Byte(b));
                    DecodeState::Complete(Instruction { opcode: self.opcode, displacement: self.displacement, data: self.data })
                }
            },
            Stage::Done => DecodeState::Complete(Instruction { opcode: self.opcode, displacement: self.displacement, data: self.data }),
        }
    }

}


/// Effective prefixes while prefix bytes are being read
pub open spec fn is_scan_prefix(prefix: Option<u16>) -> bool {
    match prefix {
        None => true,
        Some(code) => code == 0xcb || code == 0xed || code == 0xdd || code == 0xfd,
    }
}

pub open spec fn is_indexed_bit(prefix: Option<u16>) -> bool {
    prefix matches Some(code) && is_indexed_bit_prefix(code)
}

pub open spec fn has_disp(ops: Operands) -> bool {
    ops == Operands::Disp || ops == Operands::DispByte
}

pub open spec fn has_data(ops: Operands) -> bool {
    ops == Operands::Byte || ops == Operands::Word || ops == Operands::DispByte
}

impl InstructionDecoder {

    /// States that the decoder can reach from its initial state
    pub open spec fn inv(self) -> bool {
        match self.stage {
            Stage::Prefix => is_scan_prefix(self.prefix) && self.displacement is None && self.data is None,
            Stage::IndexedBitDisp => is_indexed_bit(self.prefix) && self.displacement is None && self.data is None,
            Stage::IndexedBitOpcode => is_indexed_bit(self.prefix) && self.displacement is Some && self.data is None,
            Stage::Operand(ops, idx) => {
                &&& is_scan_prefix(self.prefix)
                &&& ops != Operands::Nothing
                &&& exists|b: u8| #[trigger] spec_opcode(self.prefix, b) == (self.opcode, ops)
                &&& self.data is None
                &&& idx <= 1
                &&& idx == 0 ==> self.displacement is None
                &&& idx == 1 ==> ((ops == Operands::Word && self.displacement is None)
                    || (ops == Operands::DispByte && self.displacement is Some))
            },
            Stage::Done => true,
        }
    }

    /// Kind of the byte that the decoder consumes next
    pub open spec fn expects(self) -> TokenType {
        match self.stage {
            Stage::Prefix | Stage::IndexedBitOpcode | Stage::Done => TokenType::Opcode,
            Stage::IndexedBitDisp => TokenType::Displacement,
            Stage::Operand(ops, idx) => if idx == 0 && has_disp(ops) { TokenType::Displacement } else { TokenType::Data },
        }
    }

    /// Bytes left until the instruction completes, once no more prefix bytes can come
    pub open spec fn bytes_left(self) -> nat {
        match self.stage {
            Stage::IndexedBitDisp => 2,
            Stage::IndexedBitOpcode => 1,
            Stage::Operand(ops, idx) => if idx == 0 && (ops == Operands::Word || ops == Operands::DispByte) { 2 } else { 1 },
            _ => 0,
        }
    }
}

/// Every opcode table entry names the operands that its mnemonic needs
#[verifier::spinoff_prover]
proof fn lemma_opcode_wf(prefix: Option<u16>, b: u8, displacement: Option<i8>, data: Option<DataValue>)
    requires
        is_scan_prefix(prefix),
        (displacement is Some) == has_disp(spec_opcode(prefix, b).1),
        (data is Some) == has_data(spec_opcode(prefix, b).1),
    ensures
        (Instruction { opcode: spec_opcode(prefix, b).0, displacement, data }).wf(),
{
    let (x, y, z) = (spec_x(b), spec_y(b), spec_z(b));
    assert(x < 4 && y < 8 && z < 8 && spec_p(b) < 4 && spec_q(b) < 2);
    assert(spec_y(b) == spec_p(b) * 2 + spec_q(b));
}

/// Law: the decoder only ever reaches well-formed states
pub proof fn lemma_decoder_inv(d: InstructionDecoder, b: u8)
    requires
        d.inv(),
        !d.is_done(),
    ensures
        d.next(b).0.inv(),
{
    let (n, r) = d.next(b);
    match d.stage {
        Stage::Prefix => {
            if spec_prefix_step(d.prefix, b) is None {
                let (tok, ops) = spec_opcode(d.prefix, b);
                if ops != Operands::Nothing {
                    assert(spec_opcode(n.prefix, b) == (n.opcode, ops));
                }
            }
        },
        _ => {},
    }
}

/// A fresh decoder after being fed `bytes`
pub open spec fn feed_seq(bytes: Seq<u8>) -> InstructionDecoder
    decreases bytes.len(),
{
    if bytes.len() == 0 {
        InstructionDecoder::initial()
    } else {
        feed_seq(bytes.drop_last()).next(bytes.last()).0
    }
}

/// What a fresh decoder reports on byte `k` of `bytes`
pub open spec fn report(bytes: Seq<u8>, k: int) -> DecodeState {
    feed_seq(bytes.take(k)).next(bytes[k]).1
}

/// The bytes make up instruction `i`: fed to a fresh decoder, each byte but the last asks for
/// more, and the last completes `i`
pub open spec fn decodes_to(bytes: Seq<u8>, i: Instruction) -> bool {
    &&& bytes.len() > 0
    &&& forall|k: int| 0 <= k < bytes.len() - 1 ==> report(bytes, k) is Yielded
    &&& report(bytes, bytes.len() - 1) == DecodeState::Complete(i)
}

/// A decoder that completes an instruction is done
pub proof fn lemma_complete_done(d: InstructionDecoder, b: u8)
    ensures
        d.next(b).1 is Complete ==> d.next(b).0.is_done(),
        d.next(b).1 is Yielded ==> !d.next(b).0.is_done(),
{
}

pub proof fn lemma_initial_inv()
    ensures
        InstructionDecoder::initial().inv(),
{
}

/// Law: every instruction that the decoder completes is well-formed, so its mnemonic can be formatted
pub proof fn lemma_decoded_wf(d: InstructionDecoder, b: u8)
    requires
        d.inv(),
        !d.is_done(),
    ensures
        d.next(b).1 matches DecodeState::Complete(instr) ==> instr.wf(),
{
    match d.stage {
        Stage::Prefix => {
            if spec_prefix_step(d.prefix, b) is None {
                let ops = spec_opcode(d.prefix, b).1;
                if ops == Operands::Nothing {
                    lemma_opcode_wf(d.prefix, b, d.displacement, d.data);
                    assert(d.next(b).1 == DecodeState::Complete(Instruction { opcode: spec_opcode(d.prefix, b).0, displacement: d.displacement, data: d.data }));
                }
            }
        },
        Stage::IndexedBitOpcode => {
            let (x, y, z) = (spec_x(b), spec_y(b), spec_z(b));
            assert(x < 4 && y < 8 && z < 8);
        },
        Stage::Operand(ops, idx) => {
            let b0 = choose|b0: u8| #[trigger] spec_opcode(d.prefix, b0) == (d.opcode, ops);
            if let DecodeState::Complete(instr) = d.next(b).1 {
                lemma_opcode_wf(d.prefix, b0, instr.displacement, instr.data);
            }
        },
        _ => {},
    }
}

/// Law: the kind of the next byte that the decoder announces is the kind that it consumes next
pub proof fn lemma_upnext_matches(d: InstructionDecoder, b: u8)
    requires
        d.inv(),
        !d.is_done(),
    ensures
        d.next(b).1 matches DecodeState::Yielded(r) ==> r.upnext == d.next(b).0.expects(),
{
}

/// Law: once the prefix bytes are over, an instruction completes within two more bytes,
/// each byte bringing it one step closer
pub proof fn lemma_bounded_length(d: InstructionDecoder, b: u8)
    requires
        d.inv(),
        !d.is_done(),
    ensures
        d.stage !is Prefix ==> 1 <= d.bytes_left() <= 2,
        d.stage !is Prefix ==> (d.next(b).1 is Complete <==> d.bytes_left() == 1),
        d.stage !is Prefix && d.bytes_left() == 2 ==> d.next(b).0.bytes_left() == 1,
        d.stage is Prefix && !(d.next(b).0.stage is Prefix) && d.next(b).1 is Yielded ==> d.next(b).0.bytes_left() <= 2,
{
}

/// A fresh decoder fed bytes that each asked for more is in a well-formed state, not done
proof fn lemma_feed_inv(bytes: Seq<u8>)
    requires
        forall|k: int| 0 <= k < bytes.len() ==> report(bytes, k) is Yielded,
    ensures
        feed_seq(bytes).inv(),
        !feed_seq(bytes).is_done(),
    decreases bytes.len(),
{
    lemma_initial_inv();
    if bytes.len() > 0 {
        let n = bytes.len() as int;
        let prefix = bytes.drop_last();
        assert forall|k: int| 0 <= k < prefix.len() implies report(prefix, k) is Yielded by {
            assert(prefix.take(k) =~= bytes.take(k));
            assert(prefix[k] == bytes[k]);
            assert(report(bytes, k) is Yielded);
        }
        lemma_feed_inv(prefix);
        lemma_decoder_inv(feed_seq(prefix), bytes.last());
        assert(prefix =~= bytes.take(n - 1));
        assert(report(bytes, n - 1) is Yielded);
        lemma_complete_done(feed_seq(prefix), bytes.last());
    }
}

/// Law: the bytes of a whole instruction decode to a well-formed instruction, whose mnemonic can
/// be formatted
pub proof fn lemma_decodes_wf(bytes: Seq<u8>, i: Instruction)
    requires
        decodes_to(bytes, i),
    ensures
        i.wf(),
{
    let n = bytes.len() as int;
    let prefix = bytes.take(n - 1);
    assert forall|k: int| 0 <= k < prefix.len() implies report(prefix, k) is Yielded by {
        assert(prefix.take(k) =~= bytes.take(k));
        assert(prefix[k] == bytes[k]);
        assert(report(bytes, k) is Yielded);
        assert(report(prefix, k) == report(bytes, k));
    }
    lemma_feed_inv(prefix);
    lemma_decoded_wf(feed_seq(prefix), bytes[n - 1]);
}

/// An instruction with just an opcode
pub open spec fn bare(opcode: Token) -> Instruction {
    Instruction { opcode, displacement: None, data: None }
}

/// A byte that is no prefix and needs no operands is an instruction of its own
proof fn lemma_one_byte(b: u8)
    requires
        spec_prefix_step(None, b) is None,
        spec_opcode(None, b).1 == Operands::Nothing,
    ensures
        decodes_to(seq![b], bare(spec_opcode(None, b).0)),
{
    let bytes = seq![b];
    assert(bytes.take(0) =~= Seq::<u8>::empty());
    assert(feed_seq(bytes.take(0)) == InstructionDecoder::initial());
}

/// The one-byte instructions on the accumulator and the carry flag, by the bits 3 to 5 of their
/// opcode (00yyy111), as the Z80 opcode map lists them
pub open spec fn acc_ops() -> Seq<Token> {
    seq![Token::RLCA, Token::RRCA, Token::RLA, Token::RRA, Token::DAA, Token::CPL, Token::SCF, Token::CCF]
}

/// The conditions of conditional jumps, calls and returns, by their 3-bit code
pub open spec fn condition_codes() -> Seq<Condition> {
    seq![Condition::NZ, Condition::Z, Condition::NC, Condition::C, Condition::PO, Condition::PE, Condition::P, Condition::M]
}

/// Law: the opcodes 00yyy111 decode, each on its own, to RLCA, RRCA, RLA, RRA, DAA, CPL, SCF and
/// CCF in that order (0x37 to SCF, 0x3F to CCF)
#[verifier::spinoff_prover]
#[verifier::rlimit(100)]
pub proof fn lemma_decodes_acc_ops(y: u8)
    requires
        y < 8,
    ensures
        decodes_to(seq![(y * 8 + 7) as u8], bare(acc_ops()[y as int])),
{
    let b = (y * 8 + 7) as u8;
    assert(spec_x(b) == 0 && spec_z(b) == 7 && spec_y(b) == y);
    lemma_one_byte(b);
    if y == 0 { } else if y == 1 { } else if y == 2 { } else if y == 3 { }
    else if y == 4 { } else if y == 5 { } else if y == 6 { } else { }
}

/// Law: the opcodes 11ccc000 decode, each on its own, to the returns on the conditions NZ, Z, NC,
/// C, PO, PE, P and M in that order, and 0xC9 to the unconditional return
#[verifier::spinoff_prover]
#[verifier::rlimit(100)]
pub proof fn lemma_decodes_returns(c: u8)
    requires
        c < 8,
    ensures
        decodes_to(seq![(0xc0 + c * 8) as u8], bare(Token::RET(condition_codes()[c as int]))),
        decodes_to(seq![0xc9u8], bare(Token::RET(Condition::Always))),
{
    let b = (0xc0 + c * 8) as u8;
    assert(spec_x(b) == 3 && spec_z(b) == 0 && spec_y(b) == c);
    lemma_one_byte(b);
    assert(spec_x(0xc9) == 3 && spec_z(0xc9) == 1 && spec_q(0xc9) == 1 && spec_p(0xc9) == 0);
    lemma_one_byte(0xc9);
    lemma_small_code(c);
    if c == 0 { } else if c == 1 { } else if c == 2 { } else if c == 3 { }
    else if c == 4 { } else if c == 5 { } else if c == 6 { } else { }
}

/// A field of an opcode read as a small number keeps its value under the masks the tables use
proof fn lemma_small_code(v: u8)
    requires
        v < 8,
    ensures
        v & 7 == v,
        v < 4 ==> v & 3 == v,
{
    assert(v & 7 == v && (v < 4 ==> v & 3 == v)) by (bit_vector) requires v < 8;
}

/// The registers of 8-bit operations, by their 3-bit code, as the Z80 opcode map lists them
pub open spec fn reg_codes() -> Seq<Reg> {
    seq![Reg::B, Reg::C, Reg::D, Reg::E, Reg::H, Reg::L, Reg::AtHL, Reg::A]
}

/// The 8-bit arithmetic and logic operations, by their 3-bit code
pub open spec fn alu_codes() -> Seq<AluOp> {
    seq![AluOp::ADD, AluOp::ADC, AluOp::SUB, AluOp::SBC, AluOp::AND, AluOp::XOR, AluOp::OR, AluOp::CP]
}

/// The rotates and shifts, by their 3-bit code
pub open spec fn shift_codes() -> Seq<ShiftOp> {
    seq![ShiftOp::RLC, ShiftOp::RRC, ShiftOp::RL, ShiftOp::RR, ShiftOp::SLA, ShiftOp::SRA, ShiftOp::SLL, ShiftOp::SRL]
}

/// The register pairs of 16-bit arithmetic and loads, by their 2-bit code
pub open spec fn pair_codes() -> Seq<RegPair> {
    seq![RegPair::BC, RegPair::DE, RegPair::HL, RegPair::SP]
}

/// The register pairs of pushes and pops, by their 2-bit code
pub open spec fn stack_pair_codes() -> Seq<RegPair> {
    seq![RegPair::BC, RegPair::DE, RegPair::HL, RegPair::AF]
}

proof fn lemma_codes(v: u8)
    requires
        v < 8,
    ensures
        spec_reg(v) == reg_codes()[v as int],
        spec_alu_op(v) == alu_codes()[v as int],
        spec_shift_op(v) == shift_codes()[v as int],
        spec_condition(v) == condition_codes()[v as int],
        v < 4 ==> spec_regpair(v) == pair_codes()[v as int],
        v < 4 ==> spec_regpair(v).spec_prefer_af() == stack_pair_codes()[v as int],
        spec_alt_reg(None, spec_reg(v)) == spec_reg(v),
{
    lemma_small_code(v);
    if v == 0 { } else if v == 1 { } else if v == 2 { } else if v == 3 { }
    else if v == 4 { } else if v == 5 { } else if v == 6 { } else { }
}

/// Law: the opcodes 10ooorrr decode, each on its own, to the arithmetic or logic operation `o`
/// (ADD, ADC, SUB, SBC, AND, XOR, OR, CP) on the accumulator and register `r` (B, C, D, E, H, L,
/// (HL), A)
#[verifier::spinoff_prover]
#[verifier::rlimit(100)]
pub proof fn lemma_decodes_alu(o: u8, r: u8)
    requires
        o < 8,
        r < 8,
    ensures
        decodes_to(seq![(0x80 + o * 8 + r) as u8], bare(Token::ALU(alu_codes()[o as int], Some(reg_codes()[r as int])))),
{
    let b = (0x80 + o * 8 + r) as u8;
    assert(spec_x(b) == 2 && spec_z(b) == r && spec_y(b) == o);
    lemma_codes(o);
    lemma_codes(r);
    lemma_one_byte(b);
}

/// Law: the opcodes 01dddsss but 0x76 decode, each on its own, to the load of register `d` from
/// register `s` (B, C, D, E, H, L, (HL), A), and 0x76 to HALT
#[verifier::spinoff_prover]
#[verifier::rlimit(100)]
pub proof fn lemma_decodes_loads(d: u8, s: u8)
    requires
        d < 8,
        s < 8,
    ensures
        !(d == 6 && s == 6) ==> decodes_to(seq![(0x40 + d * 8 + s) as u8], bare(Token::LD_RG_RG(reg_codes()[d as int], reg_codes()[s as int]))),
        decodes_to(seq![0x76u8], bare(Token::HALT)),
{
    let b = (0x40 + d * 8 + s) as u8;
    assert(spec_x(b) == 1 && spec_z(b) == s && spec_y(b) == d);
    lemma_codes(d);
    lemma_codes(s);
    lemma_one_byte(b);
    lemma_codes(6);
    assert(spec_x(0x76) == 1 && spec_z(0x76) == 6 && spec_y(0x76) == 6);
    lemma_one_byte(0x76);
}

/// Law: the opcodes 00rrr100 and 00rrr101 decode, each on its own, to the increment and the
/// decrement of register `r`, and 11yyy111 to the restart at page zero address `y` * 8
#[verifier::spinoff_prover]
#[verifier::rlimit(100)]
pub proof fn lemma_decodes_inc_dec_rst(r: u8)
    requires
        r < 8,
    ensures
        decodes_to(seq![(0x04 + r * 8) as u8], bare(Token::INC_RG(reg_codes()[r as int]))),
        decodes_to(seq![(0x05 + r * 8) as u8], bare(Token::DEC_RG(reg_codes()[r as int]))),
        decodes_to(seq![(0xc7 + r * 8) as u8], bare(Token::RST(r))),
{
    let i = (0x04 + r * 8) as u8;
    let d = (0x05 + r * 8) as u8;
    let t = (0xc7 + r * 8) as u8;
    assert(spec_x(i) == 0 && spec_z(i) == 4 && spec_y(i) == r);
    assert(spec_x(d) == 0 && spec_z(d) == 5 && spec_y(d) == r);
    assert(spec_x(t) == 3 && spec_z(t) == 7 && spec_y(t) == r);
    lemma_codes(r);
    lemma_one_byte(i);
    lemma_one_byte(d);
    lemma_one_byte(t);
}

/// Law: the opcodes 11pp0101 and 11pp0001 decode, each on its own, to the push and the pop of
/// pair `p` (BC, DE, HL, AF); 00pp0011, 00pp1011 and 00pp1001 to the increment and decrement of
/// pair `p` (BC, DE, HL, SP) and its addition to HL
#[verifier::spinoff_prover]
#[verifier::rlimit(100)]
pub proof fn lemma_decodes_pairs(p: u8)
    requires
        p < 4,
    ensures
        decodes_to(seq![(0xc5 + p * 16) as u8], bare(Token::PUSH(stack_pair_codes()[p as int]))),
        decodes_to(seq![(0xc1 + p * 16) as u8], bare(Token::POP(stack_pair_codes()[p as int]))),
        decodes_to(seq![(0x03 + p * 16) as u8], bare(Token::INC_RP(pair_codes()[p as int]))),
        decodes_to(seq![(0x0b + p * 16) as u8], bare(Token::DEC_RP(pair_codes()[p as int]))),
        decodes_to(seq![(0x09 + p * 16) as u8], bare(Token::ADD_RP_RP(RegPair::HL, pair_codes()[p as int]))),
{
    let a = (0xc5 + p * 16) as u8;
    let b = (0xc1 + p * 16) as u8;
    let c = (0x03 + p * 16) as u8;
    let d = (0x0b + p * 16) as u8;
    let e = (0x09 + p * 16) as u8;
    assert(spec_x(a) == 3 && spec_z(a) == 5 && spec_q(a) == 0 && spec_p(a) == p);
    assert(spec_x(b) == 3 && spec_z(b) == 1 && spec_q(b) == 0 && spec_p(b) == p);
    assert(spec_x(c) == 0 && spec_z(c) == 3 && spec_q(c) == 0 && spec_p(c) == p);
    assert(spec_x(d) == 0 && spec_z(d) == 3 && spec_q(d) == 1 && spec_p(d) == p);
    assert(spec_x(e) == 0 && spec_z(e) == 1 && spec_q(e) == 1 && spec_p(e) == p);
    lemma_codes(p);
    lemma_one_byte(a);
    lemma_one_byte(b);
    lemma_one_byte(c);
    lemma_one_byte(d);
    lemma_one_byte(e);
}

/// A prefix (CB or ED) followed by a byte that needs no operands is an instruction of two bytes
proof fn lemma_two_bytes(pfx: u8, b: u8)
    requires
        pfx == 0xcb || pfx == 0xed,
        spec_opcode(Some(pfx as u16), b).1 == Operands::Nothing,
    ensures
        decodes_to(seq![pfx, b], bare(spec_opcode(Some(pfx as u16), b).0)),
{
    let bytes = seq![pfx, b];
    assert(bytes.take(0) =~= Seq::<u8>::empty());
    assert(bytes.take(1) =~= seq![pfx]);
    assert(seq![pfx].drop_last() =~= Seq::<u8>::empty());
    assert(feed_seq(bytes.take(0)) == InstructionDecoder::initial());
    let d1 = InstructionDecoder::initial().next(pfx).0;
    assert(feed_seq(seq![pfx]) == d1);
    assert(d1.prefix == Some(pfx as u16) && d1.stage is Prefix && d1.displacement is None && d1.data is None);
    assert(report(bytes, 0) is Yielded);
}

/// The block transfer, search and input/output operations, by the bits 3, 0 and 1 of their
/// opcode after ED (101rdcc0..): LDI, CPI, INI, OUTI, LDD, CPD, IND, OUTD and the repeating ones
pub open spec fn block_codes() -> Seq<BlockOp> {
    seq![BlockOp::LDI, BlockOp::CPI, BlockOp::INI, BlockOp::OUTI, BlockOp::LDD, BlockOp::CPD, BlockOp::IND, BlockOp::OUTD,
        BlockOp::LDIR, BlockOp::CPIR, BlockOp::INIR, BlockOp::OTIR, BlockOp::LDDR, BlockOp::CPDR, BlockOp::INDR, BlockOp::OTDR]
}

/// Law: after a CB prefix, the opcode xxyyyrrr decodes to the rotate or shift `y` (RLC, RRC, RL,
/// RR, SLA, SRA, SLL, SRL) of register `r` for xx = 0, and to the test, the reset and the set of
/// bit `y` of register `r` for xx = 1, 2 and 3
#[verifier::spinoff_prover]
#[verifier::rlimit(100)]
pub proof fn lemma_decodes_bit_ops(y: u8, r: u8)
    requires
        y < 8,
        r < 8,
    ensures
        decodes_to(seq![0xcbu8, (y * 8 + r) as u8], bare(Token::SHOP(shift_codes()[y as int], reg_codes()[r as int]))),
        decodes_to(seq![0xcbu8, (0x40 + y * 8 + r) as u8], bare(Token::BIT(y, reg_codes()[r as int]))),
        decodes_to(seq![0xcbu8, (0x80 + y * 8 + r) as u8], bare(Token::RES(y, reg_codes()[r as int]))),
        decodes_to(seq![0xcbu8, (0xc0 + y * 8 + r) as u8], bare(Token::SET(y, reg_codes()[r as int]))),
{
    lemma_codes(y);
    lemma_codes(r);
    let a = (y * 8 + r) as u8;
    let b = (0x40 + y * 8 + r) as u8;
    let c = (0x80 + y * 8 + r) as u8;
    let d = (0xc0 + y * 8 + r) as u8;
    assert(spec_x(a) == 0 && spec_y(a) == y && spec_z(a) == r);
    assert(spec_x(b) == 1 && spec_y(b) == y && spec_z(b) == r);
    assert(spec_x(c) == 2 && spec_y(c) == y && spec_z(c) == r);
    assert(spec_x(d) == 3 && spec_y(d) == y && spec_z(d) == r);
    lemma_two_bytes(0xcb, a);
    lemma_two_bytes(0xcb, b);
    lemma_two_bytes(0xcb, c);
    lemma_two_bytes(0xcb, d);
}

proof fn lemma_block_code(k: u8)
    requires
        k < 16,
    ensures
        spec_block_op((16 + k) as u8) == block_codes()[k as int],
{
    assert(((16 + k) as u8) & 15 == k) by (bit_vector) requires k < 16;
    if k == 0 { } else if k == 1 { } else if k == 2 { } else if k == 3 { }
    else if k == 4 { } else if k == 5 { } else if k == 6 { } else if k == 7 { }
    else if k == 8 { } else if k == 9 { } else if k == 10 { } else if k == 11 { }
    else if k == 12 { } else if k == 13 { } else if k == 14 { } else { }
}

/// Law: after an ED prefix, 0x44 decodes to NEG, 0x45 to RETN, 0x4D to RETI, 0x46, 0x56 and 0x5E
/// to the interrupt modes 0, 1 and 2, 0x47, 0x4F, 0x57 and 0x5F to the loads of I and R from A
/// and of A from them, 0x67 and 0x6F to RRD and RLD, 01pp0010 and 01pp1010 to the subtraction and
/// addition with carry of pair `p` to HL, and 101rdcc0..: the block operation `k` of the table,
/// `k` being made of the bits r, d and cc
#[verifier::spinoff_prover]
#[verifier::rlimit(100)]
pub proof fn lemma_decodes_ed(p: u8, k: u8)
    requires
        p < 4,
        k < 16,
    ensures
        decodes_to(seq![0xedu8, 0x44u8], bare(Token::NEG)),
        decodes_to(seq![0xedu8, 0x45u8], bare(Token::RETN)),
        decodes_to(seq![0xedu8, 0x4du8], bare(Token::RETI)),
        decodes_to(seq![0xedu8, 0x46u8], bare(Token::IM(IntMode::IM0))),
        decodes_to(seq![0xedu8, 0x56u8], bare(Token::IM(IntMode::IM1))),
        decodes_to(seq![0xedu8, 0x5eu8], bare(Token::IM(IntMode::IM2))),
        decodes_to(seq![0xedu8, 0x47u8], bare(Token::LD_RG_RG(Reg::I, Reg::A))),
        decodes_to(seq![0xedu8, 0x4fu8], bare(Token::LD_RG_RG(Reg::R, Reg::A))),
        decodes_to(seq![0xedu8, 0x57u8], bare(Token::LD_RG_RG(Reg::A, Reg::I))),
        decodes_to(seq![0xedu8, 0x5fu8], bare(Token::LD_RG_RG(Reg::A, Reg::R))),
        decodes_to(seq![0xedu8, 0x67u8], bare(Token::RRD)),
        decodes_to(seq![0xedu8, 0x6fu8], bare(Token::RLD)),
        decodes_to(seq![0xedu8, (0x42 + p * 16) as u8], bare(Token::SBC_HL_RP(pair_codes()[p as int]))),
        decodes_to(seq![0xedu8, (0x4a + p * 16) as u8], bare(Token::ADC_HL_RP(pair_codes()[p as int]))),
        decodes_to(seq![0xedu8, (0xa0 + (k / 4) * 8 + k % 4) as u8], bare(Token::BLOP(block_codes()[k as int]))),
{
    lemma_codes(p);
    lemma_small_code(2);
    lemma_small_code(3);
    lemma_small_code(0);
    lemma_block_code(k);
    let s = (0x42 + p * 16) as u8;
    let a = (0x4a + p * 16) as u8;
    let b = (0xa0 + (k / 4) * 8 + k % 4) as u8;
    assert(spec_x(s) == 1 && spec_z(s) == 2 && spec_q(s) == 0 && spec_p(s) == p);
    assert(spec_x(a) == 1 && spec_z(a) == 2 && spec_q(a) == 1 && spec_p(a) == p);
    assert(spec_x(b) == 2 && spec_z(b) == k % 4 && spec_y(b) == 4 + k / 4 && spec_y(b) * 4 + spec_z(b) == 16 + k);
    lemma_two_bytes(0xed, 0x44);
    lemma_two_bytes(0xed, 0x45);
    lemma_two_bytes(0xed, 0x4d);
    lemma_two_bytes(0xed, 0x46);
    lemma_two_bytes(0xed, 0x56);
    lemma_two_bytes(0xed, 0x5e);
    lemma_two_bytes(0xed, 0x47);
    lemma_two_bytes(0xed, 0x4f);
    lemma_two_bytes(0xed, 0x57);
    lemma_two_bytes(0xed, 0x5f);
    lemma_two_bytes(0xed, 0x67);
    lemma_two_bytes(0xed, 0x6f);
    lemma_two_bytes(0xed, s);
    lemma_two_bytes(0xed, a);
    lemma_two_bytes(0xed, b);
}

/// Law: the other one-byte instructions without operands decode, each on its own, as the Z80
/// opcode map lists them: 0x00 NOP, 0x08 EX AF,AF', 0xD9 EXX, 0xF3 DI, 0xFB EI, 0xEB EX DE,HL,
/// 0xE3 EX (SP),HL, 0xE9 JP (HL), 0xF9 LD SP,HL, 0x02 and 0x12 the stores of A at (BC) and (DE),
/// 0x0A and 0x1A the loads of A from them
#[verifier::spinoff_prover]
#[verifier::rlimit(100)]
pub proof fn lemma_decodes_other_one_byte()
    ensures
        decodes_to(seq![0x00u8], bare(Token::NOP)),
        decodes_to(seq![0x08u8], bare(Token::EX_AF)),
        decodes_to(seq![0xd9u8], bare(Token::EXX)),
        decodes_to(seq![0xf3u8], bare(Token::DI)),
        decodes_to(seq![0xfbu8], bare(Token::EI)),
        decodes_to(seq![0xebu8], bare(Token::EX_DE_HL)),
        decodes_to(seq![0xe3u8], bare(Token::EX_AtSP_RP(RegPair::HL))),
        decodes_to(seq![0xe9u8], bare(Token::JP_RP(RegPair::HL))),
        decodes_to(seq![0xf9u8], bare(Token::LD_SP_RP(RegPair::HL))),
        decodes_to(seq![0x02u8], bare(Token::LD_AtRP_A(RegPair::BC))),
        decodes_to(seq![0x12u8], bare(Token::LD_AtRP_A(RegPair::DE))),
        decodes_to(seq![0x0au8], bare(Token::LD_A_AtRP(RegPair::BC))),
        decodes_to(seq![0x1au8], bare(Token::LD_A_AtRP(RegPair::DE))),
{
    lemma_one_byte(0x00);
    lemma_one_byte(0x08);
    lemma_one_byte(0xd9);
    lemma_one_byte(0xf3);
    lemma_one_byte(0xfb);
    lemma_one_byte(0xeb);
    lemma_one_byte(0xe3);
    lemma_one_byte(0xe9);
    lemma_one_byte(0xf9);
    lemma_one_byte(0x02);
    lemma_one_byte(0x12);
    lemma_one_byte(0x0a);
    lemma_one_byte(0x1a);
}

/// An opcode without prefix followed by the one byte of data it needs
proof fn lemma_with_byte(b: u8, n: u8)
    requires
        spec_prefix_step(None, b) is None,
        spec_opcode(None, b).1 == Operands::Byte,
    ensures
        decodes_to(seq![b, n], Instruction { opcode: spec_opcode(None, b).0, displacement: None, data: Some(DataValue::Byte(n)) }),
{
    let bytes = seq![b, n];
    assert(bytes.take(0) =~= Seq::<u8>::empty());
    assert(bytes.take(1) =~= seq![b]);
    assert(seq![b].drop_last() =~= Seq::<u8>::empty());
    assert(feed_seq(bytes.take(0)) == InstructionDecoder::initial());
    assert(report(bytes, 0) is Yielded);
}

/// An opcode without prefix followed by the displacement it needs
proof fn lemma_with_disp(b: u8, e: u8)
    requires
        spec_prefix_step(None, b) is None,
        spec_opcode(None, b).1 == Operands::Disp,
    ensures
        decodes_to(seq![b, e], Instruction { opcode: spec_opcode(None, b).0, displacement: Some(e as i8), data: None }),
{
    let bytes = seq![b, e];
    assert(bytes.take(0) =~= Seq::<u8>::empty());
    assert(bytes.take(1) =~= seq![b]);
    assert(seq![b].drop_last() =~= Seq::<u8>::empty());
    assert(feed_seq(bytes.take(0)) == InstructionDecoder::initial());
    assert(report(bytes, 0) is Yielded);
}

/// An opcode without prefix followed by the word of data it needs, low byte first
proof fn lemma_with_word(b: u8, lo: u8, hi: u8)
    requires
        spec_prefix_step(None, b) is None,
        spec_opcode(None, b).1 == Operands::Word,
    ensures
        decodes_to(seq![b, lo, hi], Instruction {
            opcode: spec_opcode(None, b).0, displacement: None, data: Some(DataValue::Word((hi as u16 * 256 + lo) as u16)) }),
{
    let bytes = seq![b, lo, hi];
    assert(bytes.take(0) =~= Seq::<u8>::empty());
    assert(bytes.take(1) =~= seq![b]);
    assert(bytes.take(2) =~= seq![b, lo]);
    assert(seq![b].drop_last() =~= Seq::<u8>::empty());
    assert(seq![b, lo].drop_last() =~= seq![b]);
    assert(feed_seq(bytes.take(0)) == InstructionDecoder::initial());
    assert(report(bytes, 0) is Yielded);
    assert(report(bytes, 1) is Yielded);
}

/// Law: the instructions with one byte of data decode as the Z80 opcode map lists them: 00rrr110
/// loads register `r` with it, 11ooo110 applies operation `o` to the accumulator and it, 0xD3 and
/// 0xDB are OUT (n),A and IN A,(n)
#[verifier::spinoff_prover]
#[verifier::rlimit(100)]
pub proof fn lemma_decodes_byte_data(r: u8, n: u8)
    requires
        r < 8,
    ensures
        decodes_to(seq![(0x06 + r * 8) as u8, n],
            Instruction { opcode: Token::LD_RG_N(reg_codes()[r as int]), displacement: None, data: Some(DataValue::Byte(n)) }),
        decodes_to(seq![(0xc6 + r * 8) as u8, n],
            Instruction { opcode: Token::ALU(alu_codes()[r as int], None), displacement: None, data: Some(DataValue::Byte(n)) }),
        decodes_to(seq![0xd3u8, n], Instruction { opcode: Token::OUT_N_A, displacement: None, data: Some(DataValue::Byte(n)) }),
        decodes_to(seq![0xdbu8, n], Instruction { opcode: Token::IN_A_N, displacement: None, data: Some(DataValue::Byte(n)) }),
{
    lemma_codes(r);
    let a = (0x06 + r * 8) as u8;
    let b = (0xc6 + r * 8) as u8;
    assert(spec_x(a) == 0 && spec_z(a) == 6 && spec_y(a) == r);
    assert(spec_x(b) == 3 && spec_z(b) == 6 && spec_y(b) == r);
    lemma_with_byte(a, n);
    lemma_with_byte(b, n);
    lemma_with_byte(0xd3, n);
    lemma_with_byte(0xdb, n);
}

/// Law: the jumps and calls decode as the Z80 opcode map lists them: 11ccc010 and 11ccc100 are
/// the jump and the call on condition `c` (NZ, Z, NC, C, PO, PE, P, M) to the word that follows,
/// 0xC3 and 0xCD the unconditional ones, 001cc000 the relative jump on condition `c` (NZ, Z, NC,
/// C) by the displacement that follows, 0x18 the unconditional one and 0x10 DJNZ
#[verifier::spinoff_prover]
#[verifier::rlimit(100)]
pub proof fn lemma_decodes_jumps(c: u8, lo: u8, hi: u8)
    requires
        c < 8,
    ensures
        decodes_to(seq![(0xc2 + c * 8) as u8, lo, hi], Instruction {
            opcode: Token::JP(condition_codes()[c as int]), displacement: None, data: Some(DataValue::Word((hi as u16 * 256 + lo) as u16)) }),
        decodes_to(seq![(0xc4 + c * 8) as u8, lo, hi], Instruction {
            opcode: Token::CALL(condition_codes()[c as int]), displacement: None, data: Some(DataValue::Word((hi as u16 * 256 + lo) as u16)) }),
        decodes_to(seq![0xc3u8, lo, hi], Instruction {
            opcode: Token::JP(Condition::Always), displacement: None, data: Some(DataValue::Word((hi as u16 * 256 + lo) as u16)) }),
        decodes_to(seq![0xcdu8, lo, hi], Instruction {
            opcode: Token::CALL(Condition::Always), displacement: None, data: Some(DataValue::Word((hi as u16 * 256 + lo) as u16)) }),
        c < 4 ==> decodes_to(seq![(0x20 + c * 8) as u8, lo],
            Instruction { opcode: Token::JR(condition_codes()[c as int]), displacement: Some(lo as i8), data: None }),
        decodes_to(seq![0x18u8, lo], Instruction { opcode: Token::JR(Condition::Always), displacement: Some(lo as i8), data: None }),
        decodes_to(seq![0x10u8, lo], Instruction { opcode: Token::DJNZ, displacement: Some(lo as i8), data: None }),
{
    lemma_codes(c);
    let j = (0xc2 + c * 8) as u8;
    let k = (0xc4 + c * 8) as u8;
    assert(spec_x(j) == 3 && spec_z(j) == 2 && spec_y(j) == c);
    assert(spec_x(k) == 3 && spec_z(k) == 4 && spec_y(k) == c);
    lemma_with_word(j, lo, hi);
    lemma_with_word(k, lo, hi);
    assert(spec_x(0xc3) == 3 && spec_z(0xc3) == 3 && spec_y(0xc3) == 0);
    assert(spec_x(0xcd) == 3 && spec_z(0xcd) == 5 && spec_q(0xcd) == 1);
    lemma_with_word(0xc3, lo, hi);
    lemma_with_word(0xcd, lo, hi);
    if c < 4 {
        let r = (0x20 + c * 8) as u8;
        assert(spec_x(r) == 0 && spec_z(r) == 0 && spec_y(r) == 4 + c && spec_y(r) % 4 == c);
        lemma_with_disp(r, lo);
    }
    lemma_with_disp(0x18, lo);
    lemma_with_disp(0x10, lo);
}

/// Law: 00pp0001 loads pair `p` (BC, DE, HL, SP) with the word that follows; 0x22 and 0x2A store
/// HL at and load it from the address that follows, 0x32 and 0x3A the same for A
#[verifier::spinoff_prover]
#[verifier::rlimit(100)]
pub proof fn lemma_decodes_word_loads(p: u8, lo: u8, hi: u8)
    requires
        p < 4,
    ensures
        decodes_to(seq![(0x01 + p * 16) as u8, lo, hi], Instruction {
            opcode: Token::LD_RP_NN(pair_codes()[p as int]), displacement: None, data: Some(DataValue::Word((hi as u16 * 256 + lo) as u16)) }),
        decodes_to(seq![0x22u8, lo, hi], Instruction {
            opcode: Token::LD_MM_RP(RegPair::HL), displacement: None, data: Some(DataValue::Word((hi as u16 * 256 + lo) as u16)) }),
        decodes_to(seq![0x2au8, lo, hi], Instruction {
            opcode: Token::LD_RP_MM(RegPair::HL), displacement: None, data: Some(DataValue::Word((hi as u16 * 256 + lo) as u16)) }),
        decodes_to(seq![0x32u8, lo, hi], Instruction {
            opcode: Token::LD_MM_A, displacement: None, data: Some(DataValue::Word((hi as u16 * 256 + lo) as u16)) }),
        decodes_to(seq![0x3au8, lo, hi], Instruction {
            opcode: Token::LD_A_MM, displacement: None, data: Some(DataValue::Word((hi as u16 * 256 + lo) as u16)) }),
{
    lemma_codes(p);
    let a = (0x01 + p * 16) as u8;
    assert(spec_x(a) == 0 && spec_z(a) == 1 && spec_q(a) == 0 && spec_p(a) == p);
    lemma_with_word(a, lo, hi);
    lemma_with_word(0x22, lo, hi);
    lemma_with_word(0x2a, lo, hi);
    lemma_with_word(0x32, lo, hi);
    lemma_with_word(0x3a, lo, hi);
}

/// The index register that a DD (IX) or FD (IY) prefix selects in place of HL
pub open spec fn index_pair(pfx: u8) -> RegPair {
    if pfx == 0xdd { RegPair::IX } else { RegPair::IY }
}

/// The memory cell that a DD or FD prefix selects in place of (HL): (IX+d) or (IY+d)
pub open spec fn index_cell(pfx: u8) -> Reg {
    if pfx == 0xdd { Reg::AtIX } else { Reg::AtIY }
}

/// A DD or FD prefix followed by an opcode that needs no operands
proof fn lemma_indexed_plain(pfx: u8, b: u8)
    requires
        pfx == 0xdd || pfx == 0xfd,
        b != 0xcb && b != 0xed && b != 0xdd && b != 0xfd,
        spec_opcode(Some(pfx as u16), b).1 == Operands::Nothing,
    ensures
        decodes_to(seq![pfx, b], bare(spec_opcode(Some(pfx as u16), b).0)),
{
    let bytes = seq![pfx, b];
    assert(bytes.take(0) =~= Seq::<u8>::empty());
    assert(bytes.take(1) =~= seq![pfx]);
    assert(seq![pfx].drop_last() =~= Seq::<u8>::empty());
    assert(feed_seq(bytes.take(0)) == InstructionDecoder::initial());
    assert(report(bytes, 0) is Yielded);
}

/// A DD or FD prefix followed by an opcode that needs a displacement, then the displacement
proof fn lemma_indexed_disp(pfx: u8, b: u8, e: u8)
    requires
        pfx == 0xdd || pfx == 0xfd,
        b != 0xcb && b != 0xed && b != 0xdd && b != 0xfd,
        spec_opcode(Some(pfx as u16), b).1 == Operands::Disp,
    ensures
        decodes_to(seq![pfx, b, e], Instruction { opcode: spec_opcode(Some(pfx as u16), b).0, displacement: Some(e as i8), data: None }),
{
    let bytes = seq![pfx, b, e];
    assert(bytes.take(0) =~= Seq::<u8>::empty());
    assert(bytes.take(1) =~= seq![pfx]);
    assert(bytes.take(2) =~= seq![pfx, b]);
    assert(seq![pfx].drop_last() =~= Seq::<u8>::empty());
    assert(seq![pfx, b].drop_last() =~= seq![pfx]);
    assert(feed_seq(bytes.take(0)) == InstructionDecoder::initial());
    assert(report(bytes, 0) is Yielded);
    assert(report(bytes, 1) is Yielded);
}

/// Law: with a DD (FD) prefix, the instructions on (HL) work on (IX+d) ((IY+d)), `d` being the
/// byte after the opcode: 01rrr110 and 01110rrr (r not 6) load register `r` from and store it
/// to the cell, 10ooo110 applies operation `o` to the accumulator and the cell, 0x34 and 0x35
/// increment and decrement the cell; and those on HL work on IX (IY): 0xE9 JP (IX), 0xF9
/// LD SP,IX, 0xE3 EX (SP),IX, 0xE5 and 0xE1 its push and pop, 0x23 and 0x2B its increment and
/// decrement
#[verifier::spinoff_prover]
#[verifier::rlimit(100)]
pub proof fn lemma_decodes_indexed(pfx: u8, r: u8, e: u8)
    requires
        pfx == 0xdd || pfx == 0xfd,
        r < 8,
        r != 6,
    ensures
        decodes_to(seq![pfx, (0x46 + r * 8) as u8, e],
            Instruction { opcode: Token::LD_RG_RG(reg_codes()[r as int], index_cell(pfx)), displacement: Some(e as i8), data: None }),
        decodes_to(seq![pfx, (0x70 + r) as u8, e],
            Instruction { opcode: Token::LD_RG_RG(index_cell(pfx), reg_codes()[r as int]), displacement: Some(e as i8), data: None }),
        decodes_to(seq![pfx, (0x86 + r * 8) as u8, e],
            Instruction { opcode: Token::ALU(alu_codes()[r as int], Some(index_cell(pfx))), displacement: Some(e as i8), data: None }),
        decodes_to(seq![pfx, 0x34u8, e], Instruction { opcode: Token::INC_RG(index_cell(pfx)), displacement: Some(e as i8), data: None }),
        decodes_to(seq![pfx, 0x35u8, e], Instruction { opcode: Token::DEC_RG(index_cell(pfx)), displacement: Some(e as i8), data: None }),
        decodes_to(seq![pfx, 0xe9u8], bare(Token::JP_RP(index_pair(pfx)))),
        decodes_to(seq![pfx, 0xf9u8], bare(Token::LD_SP_RP(index_pair(pfx)))),
        decodes_to(seq![pfx, 0xe3u8], bare(Token::EX_AtSP_RP(index_pair(pfx)))),
        decodes_to(seq![pfx, 0xe5u8], bare(Token::PUSH(index_pair(pfx)))),
        decodes_to(seq![pfx, 0xe1u8], bare(Token::POP(index_pair(pfx)))),
        decodes_to(seq![pfx, 0x23u8], bare(Token::INC_RP(index_pair(pfx)))),
        decodes_to(seq![pfx, 0x2bu8], bare(Token::DEC_RP(index_pair(pfx)))),
{
    lemma_codes(r);
    lemma_codes(6);
    lemma_codes(2);
    let ld = (0x46 + r * 8) as u8;
    let st = (0x70 + r) as u8;
    let alu = (0x86 + r * 8) as u8;
    assert(spec_x(ld) == 1 && spec_z(ld) == 6 && spec_y(ld) == r);
    assert(spec_x(st) == 1 && spec_z(st) == r && spec_y(st) == 6);
    assert(spec_x(alu) == 2 && spec_z(alu) == 6 && spec_y(alu) == r);
    assert(index_of(Some(pfx as u16)) == Some(pfx == 0xdd));
    lemma_indexed_disp(pfx, ld, e);
    lemma_indexed_disp(pfx, st, e);
    lemma_indexed_disp(pfx, alu, e);
    lemma_indexed_disp(pfx, 0x34, e);
    lemma_indexed_disp(pfx, 0x35, e);
    lemma_indexed_plain(pfx, 0xe9);
    lemma_indexed_plain(pfx, 0xf9);
    lemma_indexed_plain(pfx, 0xe3);
    lemma_indexed_plain(pfx, 0xe5);
    lemma_indexed_plain(pfx, 0xe1);
    lemma_indexed_plain(pfx, 0x23);
    lemma_indexed_plain(pfx, 0x2b);
}

} // verus!
