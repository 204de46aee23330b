use vstd::prelude::*;

use super::bus_line::BusLine;
use super::identifiable::Identifier;

verus! {

/// Z80 control outputs (a set of flags)
#[derive(Clone, Copy, PartialEq, Eq, Debug, Structural)]
pub struct Ctrl {
    pub bits: u8,
}

/// No control output
pub const NONE: u8 = 0;
/// Memory request
pub const MREQ: u8 = 1;
/// IO request
pub const IORQ: u8 = 2;
/// Read
pub const RD: u8 = 4;
/// Write
pub const WR: u8 = 8;
/// Refresh
pub const RFSH: u8 = 16;

impl Ctrl {

    pub fn new(bits: u8) -> (r: Ctrl)
        ensures
            r.bits == bits,
    {
        Ctrl { bits }
    }

    /// Whether all flags of `mask` are set
    pub fn contains(&self, mask: u8) -> (r: bool)
        ensures
            r == (self.bits & mask == mask),
    {
        self.bits & mask == mask
    }
}

/// Z80 CPU bus
pub struct CpuBus {
    /// Address bus (tri-state outputs)
    pub addr: BusLine<u16>,
    /// Data bus (tri-state in/outputs)
    pub data: BusLine<u8>,
    /// Tri-state control outputs
    pub ctrl: BusLine<Ctrl>,
    /// M1 output
    pub m1: BusLine<bool>,
    /// BUSAK output
    pub busak: BusLine<bool>,
    /// HALT output
    pub halt: BusLine<bool>,
    /// WAIT input
    pub wait: BusLine<bool>,
    /// INT input
    pub int: BusLine<bool>,
    /// NMI input
    pub nmi: BusLine<bool>,
    /// RESET input
    pub reset: BusLine<bool>,
    /// BUSRQ input
    pub busrq: BusLine<bool>,
}

impl CpuBus {

    /// A bus on which no line is driven
    pub open spec fn is_idle(&self) -> bool {
        &&& self.addr@ is None
        &&& self.data@ is None
        &&& self.ctrl@ is None
        &&& self.m1@ is None
        &&& self.busak@ is None
        &&& self.halt@ is None
        &&& self.wait@ is None
        &&& self.int@ is None
        &&& self.nmi@ is None
        &&& self.reset@ is None
        &&& self.busrq@ is None
    }

    /// Lines that other devices than `device` drive are the same in `next`
    pub open spec fn respected_by(&self, next: &CpuBus, device: Identifier) -> bool {
        &&& self.addr.kept_for_others(&next.addr, device)
        &&& self.data.kept_for_others(&next.data, device)
        &&& self.ctrl.kept_for_others(&next.ctrl, device)
        &&& self.m1.kept_for_others(&next.m1, device)
        &&& self.busak.kept_for_others(&next.busak, device)
        &&& self.halt.kept_for_others(&next.halt, device)
        &&& self.wait.kept_for_others(&next.wait, device)
        &&& self.int.kept_for_others(&next.int, device)
        &&& self.nmi.kept_for_others(&next.nmi, device)
        &&& self.reset.kept_for_others(&next.reset, device)
        &&& self.busrq.kept_for_others(&next.busrq, device)
    }

    pub fn new() -> (r: CpuBus)
        ensures
            r.is_idle(),
    {
        CpuBus {
            addr: BusLine::new("ADDR"),
            data: BusLine::new("DATA"),
            ctrl: BusLine::new("CTRL"),
            m1: BusLine::new("M1"),
            busak: BusLine::new("BUSAK"),
            halt: BusLine::new("HALT"),
            wait: BusLine::new("WAIT"),
            int: BusLine::new("INT"),
            nmi: BusLine::new("NMI"),
            reset: BusLine::new("RESET"),
            busrq: BusLine::new("BUSRQ"),
        }
    }
}

impl Default for CpuBus {
    fn default() -> (r: CpuBus)
        ensures
            r.is_idle(),
    {
        CpuBus::new()
    }
}

} // verus!
