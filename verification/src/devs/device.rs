use vstd::prelude::*;

use std::collections::HashMap;

use crate::bus::identifiable::{Identifiable, Identifier};
use super::bus_logger::BusLogger;
use super::cpu::Cpu;
use super::memory::{Memory, Static48k, MEMORY_SIZE};

verus! {

broadcast use vstd::std_specs::hash::group_hash_axioms;

/// Creates the devices of the system, giving each a new identifier and a readable name
pub struct DeviceManager {
    next_id: Identifier,
    device_names: HashMap<Identifier, &'static str>,
}

impl DeviceManager {

    /// Identifier that the next device gets
    pub closed spec fn spec_next_id(&self) -> Identifier {
        self.next_id
    }

    /// Names of the devices, by identifier
    pub closed spec fn names(&self) -> Map<Identifier, &'static str> {
        self.device_names@
    }

    /// Every named device has an identifier below the next one
    pub closed spec fn wf(&self) -> bool {
        forall|id: Identifier| #[trigger] self.device_names@.contains_key(id) ==> id < self.next_id
    }

    /// Create a new device manager
    pub fn new() -> (r: DeviceManager)
        ensures
            r.wf(),
            r.spec_next_id() == 0,
            r.names() == Map::<Identifier, &'static str>::empty(),
    {
        DeviceManager { next_id: 0, device_names: HashMap::new() }
    }

    fn generate_id(&mut self) -> (id: Identifier)
        requires
            old(self).next_id < Identifier::MAX,
        ensures
            id == old(self).next_id,
            final(self).next_id == id + 1,
            final(self).device_names@ == old(self).device_names@,
    {
        let id = self.next_id;
        self.next_id = id + 1;
        id
    }

    /// Register a device name for a specific ID
    fn register_name(&mut self, id: Identifier, name: &'static str)
        ensures
            final(self).device_names@ == old(self).device_names@.insert(id, name),
            final(self).next_id == old(self).next_id,
    {
        self.device_names.insert(id, name);
    }

    /// Get the readable name of a device
    pub fn get_name<T: Identifiable>(&self, identifiable: &T) -> (r: Option<&'static str>)
        ensures
            r == if self.names().contains_key(identifiable.spec_id()) {
                Some(self.names()[identifiable.spec_id()])
            } else {
                None
            },
    {
        let id = identifiable.id();
        match self.device_names.get(&id) {
            Some(name) => Some(*name),
            None => None,
        }
    }

    /// Create a new CPU
    pub fn create_cpu(&mut self) -> (cpu: Cpu)
        requires
            old(self).wf(),
            old(self).spec_next_id() < Identifier::MAX,
        ensures
            final(self).wf(),
            cpu.wf(),
            !cpu.is_faulted(),
            cpu.bus_cycle() is None,
            cpu.regs() == crate::cpu::state::CpuState::reset(),
            cpu.spec_cpu_id() == old(self).spec_next_id(),
            final(self).spec_next_id() == old(self).spec_next_id() + 1,
            final(self).names() == old(self).names().insert(cpu.spec_cpu_id(), "Z80 CPU"),
    {
        let id = self.generate_id();
        let cpu = Cpu::new(id);
        self.register_name(id, "Z80 CPU");
        cpu
    }

    /// Create a new 48k memory
    pub fn create_48k_memory(&mut self) -> (memory: Static48k)
        requires
            old(self).wf(),
            old(self).spec_next_id() < Identifier::MAX,
        ensures
            final(self).wf(),
            memory.spec_mem_id() == old(self).spec_next_id(),
            memory.contents().len() == MEMORY_SIZE,
            !memory.is_faulted(),
            final(self).spec_next_id() == old(self).spec_next_id() + 1,
            final(self).names() == old(self).names().insert(memory.spec_mem_id(), "Static 48K Memory"),
    {
        let id = self.generate_id();
        let memory = Static48k::new(id);
        self.register_name(id, "Static 48K Memory");
        memory
    }

    /// Create a new bus logger
    pub fn create_bus_logger(&mut self) -> (logger: BusLogger)
        requires
            old(self).wf(),
            old(self).spec_next_id() < Identifier::MAX,
        ensures
            final(self).wf(),
            logger.wf(),
            logger.spec_logger_id() == old(self).spec_next_id(),
            final(self).spec_next_id() == old(self).spec_next_id() + 1,
            final(self).names() == old(self).names().insert(logger.spec_logger_id(), "Bus Logger"),
    {
        let id = self.generate_id();
        let logger = BusLogger::new(id);
        self.register_name(id, "Bus Logger");
        logger
    }
}

/// Law: every device created gets an identifier that no earlier device has
pub proof fn lemma_fresh_ids(manager: DeviceManager, id: Identifier)
    requires
        manager.wf(),
        id == manager.spec_next_id(),
    ensures
        !manager.names().contains_key(id),
{
}

} // verus!
