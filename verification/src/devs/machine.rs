use vstd::prelude::*;

use crate::bus::clock::spec_to_rising;
use crate::bus::cpu_bus::CpuBus;
use crate::bus::identifiable::Identifier;
use crate::bus::scheduler::{TaskSet, TaskYield};
use crate::cpu::decoder::decodes_to;
use crate::cpu::state::CpuState;
use super::breakpoints::{BreakCondition, BreakpointManager, StateCondition};
use super::bus_logger::{snapshot, BusLogger, BusState, LOG_SIZE};
use super::cpu::{addr_held, bus_clear, irq_only, op_addr, refused, resume_effects, step_bus, Cpu};
use super::device::DeviceManager;
use super::memory::{access_hit, after_hit, after_write, is_mem_read, mem_clear, stored, Memory, Static48k, MEMORY_SIZE};

verus! {

/// Scheduler task of the CPU
pub const CPU_TASK: usize = 0;
/// Scheduler task of the memory
pub const MEMORY_TASK: usize = 1;
/// Scheduler task of the bus logger
pub const LOGGER_TASK: usize = 2;
/// Number of scheduler tasks
pub const N_TASKS: usize = 3;

/// The devices of the system on their shared bus
pub struct Machine {
    bus: CpuBus,
    cpu: Cpu,
    memory: Static48k,
    logger: BusLogger,
    breakpoints: BreakpointManager<StateCondition>,
}

impl Machine {

    /// Every device is in a consistent state
    pub closed spec fn wf(&self) -> bool {
        &&& self.cpu.wf()
        &&& self.memory.contents().len() == MEMORY_SIZE
        &&& self.logger.wf()
        &&& self.breakpoints.wf()
        &&& self.cpu.spec_cpu_id() != self.memory.spec_mem_id()
        &&& addr_held(self.cpu, self.bus)
    }

    /// Create the CPU, the memory and the bus logger on an idle bus
    pub fn new(devices: &mut DeviceManager) -> (m: Machine)
        requires
            old(devices).wf(),
            old(devices).spec_next_id() + 3 <= Identifier::MAX,
        ensures
            m.wf(),
            final(devices).wf(),
            final(devices).spec_next_id() == old(devices).spec_next_id() + 3,
            m.bus().is_idle(),
            m.cpu().regs() == CpuState::reset(),
    {
        let cpu = devices.create_cpu();
        let memory = devices.create_48k_memory();
        let logger = devices.create_bus_logger();
        Machine { bus: CpuBus::new(), cpu, memory, logger, breakpoints: BreakpointManager::new() }
    }

    pub closed spec fn bus(&self) -> CpuBus {
        self.bus
    }

    pub closed spec fn cpu(&self) -> Cpu {
        self.cpu
    }

    /// The memory device
    pub closed spec fn memory_device(&self) -> Static48k {
        self.memory
    }

    /// The bus logger
    pub closed spec fn logger(&self) -> BusLogger {
        self.logger
    }

    pub closed spec fn spec_memory(&self) -> Seq<u8> {
        self.memory.contents()
    }

    /// Breakpoints, in the order they were added
    pub closed spec fn spec_breakpoints(&self) -> Seq<crate::devs::breakpoints::BreakpointEntry<StateCondition>> {
        self.breakpoints@
    }

    /// Identifier that the next breakpoint gets
    pub closed spec fn spec_next_breakpoint_id(&self) -> Identifier {
        self.breakpoints.spec_next_id()
    }

    /// Bus readings, oldest first
    pub closed spec fn spec_readings(&self) -> Seq<BusState> {
        self.logger.spec_readings()
    }

    /// The CPU state
    pub fn cpu_state(&self) -> (r: CpuState)
        ensures
            r == self.cpu().regs(),
    {
        self.cpu.state()
    }

    /// The CPU is at an instruction boundary, or has decoded an instruction and not started it
    pub fn cpu_at_break(&self) -> (r: bool)
        ensures
            r == self.cpu().at_break(),
    {
        self.cpu.is_at_break()
    }

    /// Whether the CPU is reading the operands of an instruction
    pub fn cpu_reading_operands(&self) -> (r: bool)
        ensures
            r == self.cpu().reading_operands(),
    {
        self.cpu.is_reading_operands()
    }

    /// Replace the CPU state, at any time
    pub fn set_cpu_state(&mut self, state: CpuState)
        requires
            old(self).wf(),
        ensures
            final(self).wf(),
            final(self).cpu().regs() == state,
            final(self).cpu().at_break() == old(self).cpu().at_break(),
            final(self).spec_memory() == old(self).spec_memory(),
            final(self).bus() == old(self).bus(),
    {
        self.cpu.set_state(state);
    }

    /// Read a byte of memory
    pub fn read_memory(&self, addr: u16) -> (r: u8)
        requires
            self.wf(),
        ensures
            r == self.spec_memory()[addr as int],
    {
        self.memory.read(addr)
    }

    /// Load data into memory (ROM included)
    pub fn load(&mut self, addr: u16, data: &Vec<u8>)
        requires
            old(self).wf(),
            addr + data.len() <= MEMORY_SIZE,
        ensures
            final(self).wf(),
            final(self).spec_memory() == crate::devs::memory::after_load(old(self).spec_memory(), addr, data@),
    {
        self.memory.load(addr, data);
    }

    /// Bus readings from the latest to the oldest
    pub fn bus_readings(&self) -> (r: Vec<BusState>)
        requires
            self.wf(),
        ensures
            r@ == self.spec_readings().reverse(),
    {
        self.logger.readings_to_tail()
    }

    /// Add a breakpoint; `None` when no identifier is left for it
    pub fn add_breakpoint(&mut self, condition: BreakCondition<StateCondition>, once: bool) -> (r: Option<Identifier>)
        requires
            old(self).wf(),
        ensures
            final(self).wf(),
            (r is None) == (old(self).spec_next_breakpoint_id() == Identifier::MAX),
            match r {
                Some(id) => id == old(self).spec_next_breakpoint_id() && final(self).spec_breakpoints()
                    == old(self).spec_breakpoints().push(crate::devs::breakpoints::BreakpointEntry { id, condition, once }),
                None => final(self).spec_breakpoints() == old(self).spec_breakpoints(),
            },
    {
        if self.breakpoints.next_id_left() {
            Some(self.breakpoints.add(condition, once))
        } else {
            None
        }
    }

    /// Remove a breakpoint
    pub fn remove_breakpoint(&mut self, id: Identifier)
        requires
            old(self).wf(),
        ensures
            final(self).wf(),
            final(self).spec_breakpoints() == crate::devs::breakpoints::without(old(self).spec_breakpoints(), id),
    {
        self.breakpoints.remove(id);
    }
}

impl TaskSet for Machine {
    open spec fn ready(&self) -> bool {
        self.wf()
    }

    /// Running a device from one yield to the next: the CPU for `CPU_TASK` (which also makes the
    /// progress that `resume_effects` says), the memory for
    /// `MEMORY_TASK`, the bus logger for any other task; the others stay as they were. Only the
    /// CPU carries out instructions, at most the one it holds, as decoded from its bytes, from
    /// the registers it was decoded with
    open spec fn resumes_to(&self, next: &Self, task_idx: usize, htcycles: u64, y: TaskYield) -> bool {
        &&& (task_idx != CPU_TASK ==> next.cpu() == self.cpu())
        &&& (task_idx != MEMORY_TASK ==> next.memory_device() == self.memory_device()
                    && next.spec_breakpoints() == self.spec_breakpoints()
                    && next.spec_next_breakpoint_id() == self.spec_next_breakpoint_id())
        &&& (task_idx == CPU_TASK || task_idx == MEMORY_TASK ==> next.logger() == self.logger())
        &&& (task_idx == CPU_TASK ==> {
                    &&& y matches TaskYield::Wait(off) ==> off > 0
                    &&& self.bus().respected_by(&next.bus(), self.cpu().spec_cpu_id())
                    &&& self.cpu().is_faulted() ==> next.cpu().is_faulted() && y == TaskYield::Break
                    &&& next.cpu().is_faulted() ==> y == TaskYield::Break
                    &&& y == TaskYield::Break && !next.cpu().is_faulted() ==> next.cpu().at_break()
                    &&& !self.cpu().is_faulted() && bus_clear(self.cpu().bus_cycle(), self.cpu().spec_cpu_id(), self.bus())
                        ==> !next.cpu().is_faulted() || refused(next.cpu().instr_bytes())
                    &&& !next.cpu().is_faulted() && self.cpu().bus_cycle() is Some
                        ==> step_bus(self.cpu().bus_cycle().unwrap(), self.cpu().spec_cpu_id(), self.bus(), next.bus())
                    &&& self.cpu().bus_cycle() is None ==> next.bus() == (CpuBus {
                        m1: next.bus().m1, busak: next.bus().busak, halt: next.bus().halt, ..self.bus() })
                    &&& resume_effects(self.cpu(), next.cpu(), self.bus(), next.bus(), y)
                })
        &&& (task_idx == MEMORY_TASK ==> {
                    let mem = self.memory_device();
                    &&& y matches TaskYield::Wait(off) ==> off > 0
                    &&& self.bus().respected_by(&next.bus(), mem.spec_mem_id())
                    &&& mem.is_faulted() ==> next.memory_device().is_faulted() && y == TaskYield::Break
                    &&& next.spec_memory() == match stored(self.bus(), mem.spec_mem_id()) {
                        Some((addr, byte)) if mem.acts() && !next.memory_device().is_faulted() =>
                            after_write(self.spec_memory(), addr, byte),
                        _ => self.spec_memory(),
                    }
                    &&& mem.acts() && is_mem_read(self.bus()) && !next.memory_device().is_faulted()
                        ==> next.bus().data@ == Some((mem.spec_mem_id(),
                            self.spec_memory()[self.bus().addr@.unwrap().1 as int]))
                    &&& !mem.is_faulted() && mem_clear(self.bus(), mem.spec_mem_id()) ==> !next.memory_device().is_faulted()
                    &&& !mem.is_faulted() && !mem.acts() ==> y == TaskYield::Wait(spec_to_rising(htcycles, 1) as u64)
                        && next.memory_device().acts() && next.spec_breakpoints() == self.spec_breakpoints()
                    &&& mem.acts() && !next.memory_device().is_faulted() ==> match access_hit(self.spec_breakpoints(), self.bus()) {
                        Some(k) => y == TaskYield::Break && !next.memory_device().acts()
                            && next.spec_breakpoints() == after_hit(self.spec_breakpoints(), k),
                        None => y == TaskYield::Wait(spec_to_rising(htcycles, 1) as u64) && next.memory_device().acts()
                            && next.spec_breakpoints() == self.spec_breakpoints(),
                    }
                })
        &&& (task_idx != CPU_TASK && task_idx != MEMORY_TASK ==> {
                    &&& y == TaskYield::Wait(1)
                    &&& next.bus() == self.bus()
                    &&& next.spec_readings() == if self.spec_readings().len() < LOG_SIZE {
                        self.spec_readings().push(snapshot(self.bus(), htcycles))
                    } else {
                        self.spec_readings().drop_first().push(snapshot(self.bus(), htcycles))
                    }
                })
        &&& (next.cpu().executed() == self.cpu().executed() || {
                    &&& next.cpu().executed().len() == self.cpu().executed().len() + 1
                    &&& next.cpu().executed().drop_last() == self.cpu().executed()
                    &&& next.cpu().executed().last().instr == self.cpu().current_instr()
                })
        &&& (next.cpu().executed() != self.cpu().executed() ==> self.cpu().holds_decoded()
                    && irq_only(self.cpu().decoded_regs(), next.cpu().executed().last().before)
                    && decodes_to(self.cpu().instr_bytes(), next.cpu().executed().last().instr))
    }

    /// Run a device from one yield to the next, as `resumes_to` says
    fn resume(&mut self, task_idx: usize, htcycles: u64) -> (y: TaskYield) {
        if task_idx == CPU_TASK {
            self.cpu.resume(&mut self.bus, htcycles)
        } else if task_idx == MEMORY_TASK {
            self.memory.resume(&mut self.bus, &mut self.breakpoints, htcycles)
        } else {
            self.logger.resume(&self.bus, htcycles)
        }
    }
}

/// Law: what the CPU fetches is what memory holds. The address the CPU puts out for a read cycle
/// stays on the address bus until the data bus is sampled, so when the memory answers that read
/// (its byte at the address on the bus on the data bus), the byte kept for the decoder is the
/// byte of memory at the address of the fetch, and memory is left as it was; once the instruction
/// is decoded, the bytes it was decoded from are the bytes kept
pub proof fn lemma_fetch_from_memory(m: Machine, next: Machine, h: u64, y: TaskYield)
    requires
        m.wf(),
        next.wf(),
        m.resumes_to(&next, CPU_TASK, h, y),
        !next.cpu().is_faulted(),
        m.cpu().fetching(),
        m.cpu().bus_cycle() matches Some(c) && (c.step == 5 || c.step == 10),
        m.bus().data@ == Some((m.memory_device().spec_mem_id(), m.spec_memory()[m.bus().addr@.unwrap().1 as int])),
    ensures
        next.cpu().bus_bytes()
            == m.cpu().bus_bytes().push(m.spec_memory()[op_addr(m.cpu().bus_cycle().unwrap().op) as int]),
        next.spec_memory() == m.spec_memory(),
        next.cpu().holds_decoded() ==> next.cpu().instr_bytes() == next.cpu().bus_bytes(),
{
    m.cpu().lemma_fed_from_bus();
    next.cpu().lemma_fed_from_bus();
}

} // verus!
