use vstd::prelude::*;

verus! {

/// 8-bit registers (and register-like operands) of the Z80
#[allow(non_camel_case_types)]
#[derive(Clone, Copy, PartialEq, Eq, Debug, Structural)]
pub enum Reg {
    B, C, D, E, H, L, AtHL, A, F, I, R, IXH, IXL, IYH, IYL, AtIX, AtIY,
}

/// 16-bit register pairs of the Z80
#[derive(Clone, Copy, PartialEq, Eq, Debug, Structural)]
pub enum RegPair {
    BC, DE, HL, SP, AF, PC, IR, IX, IY,
}

/// Interrupt modes (IM01 is the undocumented "0/1" mode)
#[derive(Clone, Copy, PartialEq, Eq, Debug, Structural)]
pub enum IntMode {
    IM0, IM01, IM1, IM2,
}

/// Block transfer, search and IO operations
#[derive(Clone, Copy, PartialEq, Eq, Debug, Structural)]
pub enum BlockOp {
    LDI, CPI, INI, OUTI, LDD, CPD, IND, OUTD, LDIR, CPIR, INIR, OTIR, LDDR, CPDR, INDR, OTDR,
}

/// Rotate and shift operations of the CB-prefixed group
#[derive(Clone, Copy, PartialEq, Eq, Debug, Structural)]
pub enum ShiftOp {
    RLC, RRC, RL, RR, SLA, SRA, SLL, SRL,
}

/// 8-bit arithmetic and logic operations
#[derive(Clone, Copy, PartialEq, Eq, Debug, Structural)]
pub enum AluOp {
    ADD, ADC, SUB, SBC, AND, XOR, OR, CP,
}

/// Jump, call and return conditions
#[derive(Clone, Copy, PartialEq, Eq, Debug, Structural)]
pub enum Condition {
    NZ, Z, NC, C, PO, PE, P, M, Always,
}

/// Immediate data of an instruction
#[derive(Clone, Copy, PartialEq, Eq, Debug, Structural)]
pub enum DataValue {
    Byte(u8),
    Word(u16),
}

/// Kind of the byte that the decoder expects next
#[derive(Clone, Copy, PartialEq, Eq, Debug, Structural)]
pub enum TokenType {
    Opcode,
    Displacement,
    Data,
}

/// Tokens that the decoder produces, one for each instruction byte
#[allow(non_camel_case_types)]
#[derive(Clone, Copy, PartialEq, Eq, Debug, Structural)]
pub enum Token {
    Prefix(u16),
    Displacement(i8),
    Data(DataValue),

    // 8-bit load
    LD_RG_RG(Reg, Reg),
    LD_RG_N(Reg),
    LD_A_AtRP(RegPair),
    LD_AtRP_A(RegPair),
    LD_A_MM,
    LD_MM_A,

    // 16-bit load
    LD_RP_NN(RegPair),
    LD_RP_MM(RegPair),
    LD_MM_RP(RegPair),
    LD_SP_RP(RegPair),
    POP(RegPair),
    PUSH(RegPair),

    // Exchange
    EX_DE_HL,
    EX_AF,
    EXX,
    EX_AtSP_RP(RegPair),

    // 8-bit arithmetic and logic
    ALU(AluOp, Option<Reg>),
    INC_RG(Reg),
    DEC_RG(Reg),

    // General purpose arithmetic and CPU control
    DAA,
    CPL,
    NEG,
    CCF,
    SCF,
    NOP,
    HALT,
    DI,
    EI,
    IM(IntMode),

    // 16-bit arithmetic
    ADD_RP_RP(RegPair, RegPair),
    ADC_HL_RP(RegPair),
    SBC_HL_RP(RegPair),
    INC_RP(RegPair),
    DEC_RP(RegPair),

    // Rotate and shift
    RLCA,
    RLA,
    RRCA,
    RRA,
    SHOP(ShiftOp, Reg),
    RLD,
    RRD,
    SHOPLD(ShiftOp, Reg, Reg),

    // Bit set, reset and test
    BIT(u8, Reg),
    SET(u8, Reg),
    SETLD(u8, Reg, Reg),
    RES(u8, Reg),
    RESLD(u8, Reg, Reg),

    // Jump, call and return
    JP(Condition),
    JP_RP(RegPair),
    JR(Condition),
    DJNZ,
    CALL(Condition),
    RET(Condition),
    RETI,
    RETN,
    RST(u8),

    // Input and output
    IN_A_N,
    OUT_N_A,
    IN_RG_AtBC(Reg),
    OUT_AtBC_RG(Reg),
    IN_AtBC,
    OUT_AtBC_0,

    // Block transfer, search and IO
    BLOP(BlockOp),
}

/// Register selected by a 3-bit field of an opcode
pub open spec fn spec_reg(code: u8) -> Reg {
    match code & 7 {
        0 => Reg::B,
        1 => Reg::C,
        2 => Reg::D,
        3 => Reg::E,
        4 => Reg::H,
        5 => Reg::L,
        6 => Reg::AtHL,
        _ => Reg::A,
    }
}

/// Register pair selected by a 2-bit field of an opcode (3 selects SP)
pub open spec fn spec_regpair(code: u8) -> RegPair {
    match code & 3 {
        0 => RegPair::BC,
        1 => RegPair::DE,
        2 => RegPair::HL,
        _ => RegPair::SP,
    }
}

pub open spec fn spec_int_mode(code: u8) -> IntMode {
    match code & 3 {
        0 => IntMode::IM0,
        1 => IntMode::IM01,
        2 => IntMode::IM1,
        _ => IntMode::IM2,
    }
}

pub open spec fn spec_block_op(code: u8) -> BlockOp {
    match code & 15 {
        0 => BlockOp::LDI,
        1 => BlockOp::CPI,
        2 => BlockOp::INI,
        3 => BlockOp::OUTI,
        4 => BlockOp::LDD,
        5 => BlockOp::CPD,
        6 => BlockOp::IND,
        7 => BlockOp::OUTD,
        8 => BlockOp::LDIR,
        9 => BlockOp::CPIR,
        10 => BlockOp::INIR,
        11 => BlockOp::OTIR,
        12 => BlockOp::LDDR,
        13 => BlockOp::CPDR,
        14 => BlockOp::INDR,
        _ => BlockOp::OTDR,
    }
}

pub open spec fn spec_shift_op(code: u8) -> ShiftOp {
    match code & 7 {
        0 => ShiftOp::RLC,
        1 => ShiftOp::RRC,
        2 => ShiftOp::RL,
        3 => ShiftOp::RR,
        4 => ShiftOp::SLA,
        5 => ShiftOp::SRA,
        6 => ShiftOp::SLL,
        _ => ShiftOp::SRL,
    }
}

pub open spec fn spec_alu_op(code: u8) -> AluOp {
    match code & 7 {
        0 => AluOp::ADD,
        1 => AluOp::ADC,
        2 => AluOp::SUB,
        3 => AluOp::SBC,
        4 => AluOp::AND,
        5 => AluOp::XOR,
        6 => AluOp::OR,
        _ => AluOp::CP,
    }
}

pub open spec fn spec_condition(code: u8) -> Condition {
    match code & 7 {
        0 => Condition::NZ,
        1 => Condition::Z,
        2 => Condition::NC,
        3 => Condition::C,
        4 => Condition::PO,
        5 => Condition::PE,
        6 => Condition::P,
        _ => Condition::M,
    }
}

impl Reg {
    /// Register encoded by the low 3 bits of `code`
    pub fn from_code(code: u8) -> (r: Reg)
        ensures
            r == spec_reg(code),
    {
        match code & 7 {
            0 => Reg::B,
            1 => Reg::C,
            2 => Reg::D,
            3 => Reg::E,
            4 => Reg::H,
            5 => Reg::L,
            6 => Reg::AtHL,
            _ => Reg::A,
        }
    }
}

impl RegPair {
    /// Register pair encoded by the low 2 bits of `code` (3 selects SP)
    pub fn from_code(code: u8) -> (r: RegPair)
        ensures
            r == spec_regpair(code),
    {
        match code & 3 {
            0 => RegPair::BC,
            1 => RegPair::DE,
            2 => RegPair::HL,
            _ => RegPair::SP,
        }
    }

    pub open spec fn spec_prefer_af(self) -> RegPair {
        if self == RegPair::SP { RegPair::AF } else { self }
    }

    /// Register pair table variant where code 3 selects SP
    pub fn prefer_sp(self) -> (r: RegPair)
        ensures
            r == self,
    {
        self
    }

    /// Register pair table variant where code 3 selects AF
    pub fn prefer_af(self) -> (r: RegPair)
        ensures
            r == self.spec_prefer_af(),
    {
        if self == RegPair::SP { RegPair::AF } else { self }
    }
}

impl IntMode {
    pub fn from_code(code: u8) -> (r: IntMode)
        ensures
            r == spec_int_mode(code),
    {
        match code & 3 {
            0 => IntMode::IM0,
            1 => IntMode::IM01,
            2 => IntMode::IM1,
            _ => IntMode::IM2,
        }
    }
}

impl BlockOp {
    pub fn from_code(code: u8) -> (r: BlockOp)
        ensures
            r == spec_block_op(code),
    {
        match code & 15 {
            0 => BlockOp::LDI,
            1 => BlockOp::CPI,
            2 => BlockOp::INI,
            3 => BlockOp::OUTI,
            4 => BlockOp::LDD,
            5 => BlockOp::CPD,
            6 => BlockOp::IND,
            7 => BlockOp::OUTD,
            8 => BlockOp::LDIR,
            9 => BlockOp::CPIR,
            10 => BlockOp::INIR,
            11 => BlockOp::OTIR,
            12 => BlockOp::LDDR,
            13 => BlockOp::CPDR,
            14 => BlockOp::INDR,
            _ => BlockOp::OTDR,
        }
    }
}

impl ShiftOp {
    pub fn from_code(code: u8) -> (r: ShiftOp)
        ensures
            r == spec_shift_op(code),
    {
        match code & 7 {
            0 => ShiftOp::RLC,
            1 => ShiftOp::RRC,
            2 => ShiftOp::RL,
            3 => ShiftOp::RR,
            4 => ShiftOp::SLA,
            5 => ShiftOp::SRA,
            6 => ShiftOp::SLL,
            _ => ShiftOp::SRL,
        }
    }
}

impl AluOp {
    pub fn from_code(code: u8) -> (r: AluOp)
        ensures
            r == spec_alu_op(code),
    {
        match code & 7 {
            0 => AluOp::ADD,
            1 => AluOp::ADC,
            2 => AluOp::SUB,
            3 => AluOp::SBC,
            4 => AluOp::AND,
            5 => AluOp::XOR,
            6 => AluOp::OR,
            _ => AluOp::CP,
        }
    }
}

impl Condition {
    pub fn from_code(code: u8) -> (r: Condition)
        ensures
            r == spec_condition(code),
    {
        match code & 7 {
            0 => Condition::NZ,
            1 => Condition::Z,
            2 => Condition::NC,
            3 => Condition::C,
            4 => Condition::PO,
            5 => Condition::PE,
            6 => Condition::P,
            _ => Condition::M,
        }
    }
}

} // verus!
