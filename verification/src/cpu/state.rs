use vstd::prelude::*;

use super::flags::Flags;
use super::tokens::{IntMode, Reg, RegPair};

verus! {

/// High byte of a word
pub open spec fn hi(w: u16) -> u8 {
    (w / 256) as u8
}

/// Low byte of a word
pub open spec fn lo(w: u16) -> u8 {
    (w % 256) as u8
}

/// Word made of a high and a low byte
pub open spec fn word(h: u8, l: u8) -> u16 {
    (h * 256 + l) as u16
}

/// Merge high and low bytes to a word
pub fn mkword(h: u8, l: u8) -> (r: u16)
    ensures
        r == word(h, l),
{
    h as u16 * 256 + l as u16
}

/// Split a word to its high and low bytes
pub fn spword(w: u16) -> (r: (u8, u8))
    ensures
        r == (hi(w), lo(w)),
        word(r.0, r.1) == w,
{
    ((w / 256) as u8, (w % 256) as u8)
}

/// An operand that names a register rather than a memory cell
pub open spec fn is_register(r: Reg) -> bool {
    r != Reg::AtHL && r != Reg::AtIX && r != Reg::AtIY
}

/// Z80 CPU registers and state
#[derive(Clone, Copy, PartialEq, Eq, Debug, Structural)]
pub struct CpuState {
    pub af: u16,
    pub bc: u16,
    pub de: u16,
    pub hl: u16,
    pub alt_af: u16,
    pub alt_bc: u16,
    pub alt_de: u16,
    pub alt_hl: u16,
    pub ix: u16,
    pub iy: u16,
    pub sp: u16,
    pub pc: u16,
    pub ir: u16,
    pub iff1: bool,
    pub iff2: bool,
    pub im: IntMode,
    pub int: bool,
    pub nmi: bool,
}

impl Default for CpuState {
    fn default() -> (r: CpuState)
        ensures
            r == CpuState::reset(),
    {
        CpuState::new()
    }
}

impl CpuState {

    /// State after power-on: all registers zero, interrupts disabled, mode 0
    pub open spec fn reset() -> CpuState {
        CpuState {
            af: 0, bc: 0, de: 0, hl: 0, alt_af: 0, alt_bc: 0, alt_de: 0, alt_hl: 0,
            ix: 0, iy: 0, sp: 0, pc: 0, ir: 0,
            iff1: false, iff2: false, im: IntMode::IM0, int: false, nmi: false,
        }
    }

    pub fn new() -> (r: CpuState)
        ensures
            r == CpuState::reset(),
    {
        CpuState {
            af: 0, bc: 0, de: 0, hl: 0, alt_af: 0, alt_bc: 0, alt_de: 0, alt_hl: 0,
            ix: 0, iy: 0, sp: 0, pc: 0, ir: 0,
            iff1: false, iff2: false, im: IntMode::IM0, int: false, nmi: false,
        }
    }

    /// Value of an 8-bit register (memory operands read as zero here)
    pub open spec fn reg(self, r: Reg) -> u8 {
        match r {
            Reg::B => hi(self.bc),
            Reg::C => lo(self.bc),
            Reg::D => hi(self.de),
            Reg::E => lo(self.de),
            Reg::H => hi(self.hl),
            Reg::L => lo(self.hl),
            Reg::A => hi(self.af),
            Reg::F => lo(self.af),
            Reg::I => hi(self.ir),
            Reg::R => lo(self.ir),
            Reg::IXH => hi(self.ix),
            Reg::IXL => lo(self.ix),
            Reg::IYH => hi(self.iy),
            Reg::IYL => lo(self.iy),
            _ => 0,
        }
    }

    /// The state with an 8-bit register replaced (memory operands leave it unchanged)
    pub open spec fn with_reg(self, r: Reg, v: u8) -> CpuState {
        match r {
            Reg::B => CpuState { bc: word(v, lo(self.bc)), ..self },
            Reg::C => CpuState { bc: word(hi(self.bc), v), ..self },
            Reg::D => CpuState { de: word(v, lo(self.de)), ..self },
            Reg::E => CpuState { de: word(hi(self.de), v), ..self },
            Reg::H => CpuState { hl: word(v, lo(self.hl)), ..self },
            Reg::L => CpuState { hl: word(hi(self.hl), v), ..self },
            Reg::A => CpuState { af: word(v, lo(self.af)), ..self },
            Reg::F => CpuState { af: word(hi(self.af), v), ..self },
            Reg::I => CpuState { ir: word(v, lo(self.ir)), ..self },
            Reg::R => CpuState { ir: word(hi(self.ir), v), ..self },
            Reg::IXH => CpuState { ix: word(v, lo(self.ix)), ..self },
            Reg::IXL => CpuState { ix: word(hi(self.ix), v), ..self },
            Reg::IYH => CpuState { iy: word(v, lo(self.iy)), ..self },
            Reg::IYL => CpuState { iy: word(hi(self.iy), v), ..self },
            _ => self,
        }
    }

    /// Value of a register pair
    pub open spec fn rpair(self, p: RegPair) -> u16 {
        match p {
            RegPair::BC => self.bc,
            RegPair::DE => self.de,
            RegPair::HL => self.hl,
            RegPair::AF => self.af,
            RegPair::SP => self.sp,
            RegPair::PC => self.pc,
            RegPair::IR => self.ir,
            RegPair::IX => self.ix,
            RegPair::IY => self.iy,
        }
    }

    /// The state with a register pair replaced
    pub open spec fn with_rpair(self, p: RegPair, v: u16) -> CpuState {
        match p {
            RegPair::BC => CpuState { bc: v, ..self },
            RegPair::DE => CpuState { de: v, ..self },
            RegPair::HL => CpuState { hl: v, ..self },
            RegPair::AF => CpuState { af: v, ..self },
            RegPair::SP => CpuState { sp: v, ..self },
            RegPair::PC => CpuState { pc: v, ..self },
            RegPair::IR => CpuState { ir: v, ..self },
            RegPair::IX => CpuState { ix: v, ..self },
            RegPair::IY => CpuState { iy: v, ..self },
        }
    }

    /// Flags register
    pub open spec fn flags(self) -> u8 {
        lo(self.af)
    }

    /// Get the value of an 8-bit register
    pub fn rg(&self, reg: Reg) -> (r: u8)
        requires
            is_register(reg),
        ensures
            r == self.reg(reg),
    {
        match reg {
            Reg::B => spword(self.bc).0,
            Reg::C => spword(self.bc).1,
            Reg::D => spword(self.de).0,
            Reg::E => spword(self.de).1,
            Reg::H => spword(self.hl).0,
            Reg::L => spword(self.hl).1,
            Reg::A => spword(self.af).0,
            Reg::F => spword(self.af).1,
            Reg::I => spword(self.ir).0,
            Reg::R => spword(self.ir).1,
            Reg::IXH => spword(self.ix).0,
            Reg::IXL => spword(self.ix).1,
            Reg::IYH => spword(self.iy).0,
            _ => spword(self.iy).1,
        }
    }

    /// Set the value of an 8-bit register
    pub fn set_rg(&mut self, reg: Reg, v: u8)
        requires
            is_register(reg),
        ensures
            *final(self) == old(self).with_reg(reg, v),
    {
        match reg {
            Reg::B => self.bc = mkword(v, spword(self.bc).1),
            Reg::C => self.bc = mkword(spword(self.bc).0, v),
            Reg::D => self.de = mkword(v, spword(self.de).1),
            Reg::E => self.de = mkword(spword(self.de).0, v),
            Reg::H => self.hl = mkword(v, spword(self.hl).1),
            Reg::L => self.hl = mkword(spword(self.hl).0, v),
            Reg::A => self.af = mkword(v, spword(self.af).1),
            Reg::F => self.af = mkword(spword(self.af).0, v),
            Reg::I => self.ir = mkword(v, spword(self.ir).1),
            Reg::R => self.ir = mkword(spword(self.ir).0, v),
            Reg::IXH => self.ix = mkword(v, spword(self.ix).1),
            Reg::IXL => self.ix = mkword(spword(self.ix).0, v),
            Reg::IYH => self.iy = mkword(v, spword(self.iy).1),
            _ => self.iy = mkword(spword(self.iy).0, v),
        }
    }

    /// Get the value of a register pair
    pub fn rp(&self, rpair: RegPair) -> (r: u16)
        ensures
            r == self.rpair(rpair),
    {
        match rpair {
            RegPair::BC => self.bc,
            RegPair::DE => self.de,
            RegPair::HL => self.hl,
            RegPair::AF => self.af,
            RegPair::SP => self.sp,
            RegPair::PC => self.pc,
            RegPair::IR => self.ir,
            RegPair::IX => self.ix,
            RegPair::IY => self.iy,
        }
    }

    /// Set the value of a register pair
    pub fn set_rp(&mut self, rpair: RegPair, v: u16)
        ensures
            *final(self) == old(self).with_rpair(rpair, v),
    {
        match rpair {
            RegPair::BC => self.bc = v,
            RegPair::DE => self.de = v,
            RegPair::HL => self.hl = v,
            RegPair::AF => self.af = v,
            RegPair::SP => self.sp = v,
            RegPair::PC => self.pc = v,
            RegPair::IR => self.ir = v,
            RegPair::IX => self.ix = v,
            RegPair::IY => self.iy = v,
        }
    }

    /// Get CPU flags
    pub fn get_flags(&self) -> (r: Flags)
        ensures
            r.bits == self.flags(),
    {
        Flags::from_bits(self.rg(Reg::F))
    }

    /// Set CPU flags
    pub fn set_flags(&mut self, flags: Flags)
        ensures
            *final(self) == old(self).with_reg(Reg::F, flags.bits),
    {
        self.set_rg(Reg::F, flags.bits())
    }

    /// Swap primary and alternative accumulator (AF)
    pub fn swap_acc(&mut self)
        ensures
            *final(self) == (CpuState { af: old(self).alt_af, alt_af: old(self).af, ..*old(self) }),
    {
        let t = self.af;
        self.af = self.alt_af;
        self.alt_af = t;
    }

    /// Swap primary and alternative BC, DE and HL
    pub fn swap_regfile(&mut self)
        ensures
            *final(self) == (CpuState {
                bc: old(self).alt_bc, alt_bc: old(self).bc,
                de: old(self).alt_de, alt_de: old(self).de,
                hl: old(self).alt_hl, alt_hl: old(self).hl,
                ..*old(self)
            }),
    {
        let t = self.bc;
        self.bc = self.alt_bc;
        self.alt_bc = t;
        let t = self.de;
        self.de = self.alt_de;
        self.alt_de = t;
        let t = self.hl;
        self.hl = self.alt_hl;
        self.alt_hl = t;
    }

    /// Swap HL and DE
    pub fn swap_hlde(&mut self)
        ensures
            *final(self) == (CpuState { hl: old(self).de, de: old(self).hl, ..*old(self) }),
    {
        let t = self.hl;
        self.hl = self.de;
        self.de = t;
    }

    /// Absolute address for the IX+d or IY+d operand
    pub open spec fn spec_idx_addr(self, reg: Reg, d: i8) -> u16 {
        let base = if reg == Reg::AtIX { self.ix } else { self.iy };
        ((base + d) % 0x10000) as u16
    }

    /// Calculate absolute address for IX+d or IY+d offsets
    pub fn idx_addr(&self, reg: Reg, displacement: i8) -> (r: u16)
        requires
            reg == Reg::AtIX || reg == Reg::AtIY,
        ensures
            r == self.spec_idx_addr(reg, displacement),
    {
        let base = if let Reg::AtIX = reg { self.ix } else { self.iy };
        let sum: i32 = base as i32 + displacement as i32;
        if sum < 0 {
            (sum + 0x10000) as u16
        } else if sum >= 0x10000 {
            (sum - 0x10000) as u16
        } else {
            sum as u16
        }
    }
}

/// Law: an 8-bit register reads back what was written to it, and writing it leaves
/// every other register as it was
pub proof fn lemma_reg_write_read(s: CpuState, r: Reg, other: Reg, v: u8)
    requires
        is_register(r),
        is_register(other),
        other != r,
    ensures
        s.with_reg(r, v).reg(r) == v,
        s.with_reg(r, v).reg(other) == s.reg(other),
{
    let w = match r {
        Reg::B | Reg::C => s.bc,
        Reg::D | Reg::E => s.de,
        Reg::H | Reg::L => s.hl,
        Reg::A | Reg::F => s.af,
        Reg::I | Reg::R => s.ir,
        Reg::IXH | Reg::IXL => s.ix,
        _ => s.iy,
    };
    lemma_word_halves(v, lo(w));
    lemma_word_halves(hi(w), v);
}

/// The halves of a word made of two bytes are those bytes
pub broadcast proof fn lemma_word_halves(h: u8, l: u8)
    ensures
        #[trigger] hi(word(h, l)) == h,
        lo(word(h, l)) == l,
{
}

/// Law: a register pair reads back what was written to it, and its halves are the registers
/// that make it up
pub proof fn lemma_rpair_halves(s: CpuState, v: u16)
    ensures
        s.with_rpair(RegPair::BC, v).reg(Reg::B) == hi(v),
        s.with_rpair(RegPair::BC, v).reg(Reg::C) == lo(v),
        s.with_rpair(RegPair::HL, v).reg(Reg::H) == hi(v),
        s.with_rpair(RegPair::HL, v).reg(Reg::L) == lo(v),
        s.with_rpair(RegPair::AF, v).flags() == lo(v),
        s.with_reg(Reg::H, hi(v)).with_reg(Reg::L, lo(v)).rpair(RegPair::HL) == v,
{
}

} // verus!
