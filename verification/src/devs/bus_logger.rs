use vstd::prelude::*;

use crate::bus::cpu_bus::{Ctrl, CpuBus};
use crate::bus::identifiable::{Identifiable, Identifier};
use crate::bus::ring_buff::RingBuff;
use crate::bus::scheduler::TaskYield;

verus! {

/// Number of bus readings the logger keeps
pub const LOG_SIZE: usize = 64;

/// Snapshot of all bus lines at a clock value
#[derive(Clone, Copy, Debug)]
pub struct BusState {
    pub htcyc: u64,
    pub addr: Option<(Identifier, u16)>,
    pub data: Option<(Identifier, u8)>,
    pub ctrl: Option<(Identifier, Ctrl)>,
    pub m1: Option<(Identifier, bool)>,
    pub busak: Option<(Identifier, bool)>,
    pub halt: Option<(Identifier, bool)>,
    pub wait: Option<(Identifier, bool)>,
    pub int: Option<(Identifier, bool)>,
    pub nmi: Option<(Identifier, bool)>,
    pub reset: Option<(Identifier, bool)>,
    pub busrq: Option<(Identifier, bool)>,
}

/// Snapshot of the bus at clock `h`
pub open spec fn snapshot(bus: CpuBus, h: u64) -> BusState {
    BusState {
        htcyc: h,
        addr: bus.addr@,
        data: bus.data@,
        ctrl: bus.ctrl@,
        m1: bus.m1@,
        busak: bus.busak@,
        halt: bus.halt@,
        wait: bus.wait@,
        int: bus.int@,
        nmi: bus.nmi@,
        reset: bus.reset@,
        busrq: bus.busrq@,
    }
}

/// CPU bus logger: records the bus on every clock edge
pub struct BusLogger {
    id: Identifier,
    readings: RingBuff<BusState, LOG_SIZE>,
}

impl Identifiable for BusLogger {
    open spec fn spec_id(&self) -> Identifier {
        self.spec_logger_id()
    }

    fn id(&self) -> (r: Identifier) {
        self.id
    }
}

impl BusLogger {

    pub closed spec fn spec_logger_id(&self) -> Identifier {
        self.id
    }

    /// Readings, oldest first
    pub closed spec fn spec_readings(&self) -> Seq<BusState> {
        self.readings.spec_items()
    }

    pub closed spec fn wf(&self) -> bool {
        self.readings.wf()
    }

    pub fn new(id: Identifier) -> (r: BusLogger)
        ensures
            r.wf(),
            r.spec_logger_id() == id,
            r.spec_readings() == Seq::<BusState>::empty(),
    {
        BusLogger { id, readings: RingBuff::new() }
    }

    /// Readings from the latest to the oldest
    pub fn readings_to_tail(&self) -> (r: Vec<BusState>)
        requires
            self.wf(),
        ensures
            r@ == self.spec_readings().reverse(),
    {
        self.readings.iter_to_tail()
    }

    /// Record the bus state, then wait for the next clock edge
    pub fn resume(&mut self, bus: &CpuBus, h: u64) -> (y: TaskYield)
        requires
            old(self).wf(),
        ensures
            final(self).wf(),
            y == TaskYield::Wait(1),
            final(self).spec_logger_id() == old(self).spec_logger_id(),
            final(self).spec_readings() == if old(self).spec_readings().len() < LOG_SIZE {
                old(self).spec_readings().push(snapshot(*bus, h))
            } else {
                old(self).spec_readings().drop_first().push(snapshot(*bus, h))
            },
    {
        let state = BusState {
            htcyc: h,
            addr: bus.addr.state(),
            data: bus.data.state(),
            ctrl: bus.ctrl.state(),
            m1: bus.m1.state(),
            busak: bus.busak.state(),
            halt: bus.halt.state(),
            wait: bus.wait.state(),
            int: bus.int.state(),
            nmi: bus.nmi.state(),
            reset: bus.reset.state(),
            busrq: bus.busrq.state(),
        };
        self.readings.push(state);
        TaskYield::Wait(1)
    }
}

} // verus!
