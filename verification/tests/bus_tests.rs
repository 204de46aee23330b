use librespectrum::bus::bus_line::BusLine;
use librespectrum::bus::clock::{falling, rising, Clock};
use librespectrum::bus::cpu_bus::CpuBus;
use librespectrum::bus::scheduler::{Scheduler, Step, TaskSet, TaskSlot, TaskYield};

const DEV1: usize = 1;
const DEV2: usize = 2;

fn mkline() -> BusLine<bool> {
    BusLine::new("TEST")
}

#[test]
fn line_drive_and_probe() {
    let mut line = mkline();
    assert_eq!(line.probe(), None);
    line.drive(DEV1, false);
    assert_eq!(line.probe(), Some(false));
    line.drive(DEV1, true);
    assert_eq!(line.probe(), Some(true));
    line.release(DEV1);
    assert_eq!(line.probe(), None);
    line.drive(DEV2, true);
    assert_eq!(line.probe(), Some(true));
}

#[test]
fn bus_line_line_drive_and_probe() {
    let mut line = mkline();
    assert_eq!(line.probe(), None);
    line.drive(DEV1, false);
    assert_eq!(line.probe(), Some(false));
    line.drive(DEV1, true);
    assert_eq!(line.probe(), Some(true));
    line.release(DEV1);
    assert_eq!(line.probe(), None);
    line.drive(DEV2, true);
    assert_eq!(line.probe(), Some(true));
}

#[test]
fn only_the_driving_device_can_drive_a_line() {
    let mut line = mkline();
    line.drive(DEV1, false);
    assert!(!line.try_drive(DEV2, true));
    assert_eq!(line.probe(), Some(false));
    assert_eq!(line.owner(), Some(DEV1));
    line.release(DEV2);
    assert_eq!(line.probe(), Some(false));
    assert_eq!(line.name(), "TEST");
}

#[test]
fn clock_edges_follow_parity() {
    let mut clock = Clock::new();
    assert_eq!(clock.to_rising(1), 1);
    assert_eq!(clock.to_falling(1), 2);
    clock.set(5);
    assert_eq!(clock.get(), 5);
    assert_eq!(clock.to_rising(1), 2);
    assert_eq!(clock.to_falling(1), 1);
    assert_eq!(clock.to_rising(3), 6);
    assert_eq!(rising(4, 2), 3);
    assert_eq!(falling(4, 2), 4);
}

#[test]
fn new_bus_is_idle() {
    let bus = CpuBus::new();
    assert_eq!(bus.addr.probe(), None);
    assert_eq!(bus.data.probe(), None);
    assert_eq!(bus.halt.probe(), None);
}

/// Foo waits for every third edge pair from even clock values, Bar for the next odd one
struct FooBar {
    seq: Vec<(u64, bool)>,
    started: [bool; 2],
}

impl TaskSet for FooBar {
    fn ready(&self) -> bool {
        true
    }

    fn resumes_to(&self, _next: &Self, _task_idx: usize, _htcycles: u64, _y: TaskYield) -> bool {
        true
    }

    fn resume(&mut self, task_idx: usize, htcycles: u64) -> TaskYield {
        let first = !self.started[task_idx];
        self.started[task_idx] = true;
        if task_idx == 0 {
            if !first {
                self.seq.push((htcycles, true));
            }
            TaskYield::Wait(falling(htcycles, 3))
        } else {
            if !first {
                self.seq.push((htcycles, false));
            }
            TaskYield::Wait(rising(htcycles, 1))
        }
    }
}

#[test]
fn scheduler_scheduler_executes_tasks() {
    let mut tasks = FooBar { seq: vec![], started: [false; 2] };
    let mut scheduler = Scheduler::new(0, 2);
    scheduler.run(&mut tasks, 10);
    assert_eq!(tasks.seq, vec![(1, false), (3, false), (5, false), (6, true), (7, false), (9, false)]);
    tasks.seq.clear();
    scheduler.run(&mut tasks, 10);
    assert_eq!(tasks.seq, vec![(11, false), (12, true), (13, false), (15, false), (17, false), (18, true), (19, false)]);
}

#[test]
fn task_scheduler_executes_tasks() {
    let mut tasks = FooBar { seq: vec![], started: [false; 2] };
    let mut scheduler = Scheduler::new(0, 2);
    scheduler.advance(&mut tasks, 10);
    assert_eq!(tasks.seq, vec![(1, false), (3, false), (5, false), (6, true), (7, false), (9, false)]);
    tasks.seq.clear();
    scheduler.advance(&mut tasks, 10);
    assert_eq!(tasks.seq, vec![(11, false), (12, true), (13, false), (15, false), (17, false), (18, true), (19, false)]);
    assert_eq!(scheduler.clock(), 20);
}

struct Breaker;

impl TaskSet for Breaker {
    fn ready(&self) -> bool {
        true
    }

    fn resumes_to(&self, _next: &Self, _task_idx: usize, _htcycles: u64, _y: TaskYield) -> bool {
        true
    }

    fn resume(&mut self, _task_idx: usize, _htcycles: u64) -> TaskYield {
        TaskYield::Break
    }
}

#[test]
fn scheduler_breaks_on_task_break() {
    let mut breaker = Breaker;
    let mut scheduler = Scheduler::new(0, 1);
    assert_eq!(scheduler.run(&mut breaker, 10), false);
}

#[test]
fn scheduler_steps_run_the_first_task_due() {
    let mut tasks = FooBar { seq: vec![], started: [false; 2] };
    let mut scheduler = Scheduler::new(0, 2);
    let first = scheduler.step(&mut tasks, 10);
    assert_eq!(first, Step::Ran(TaskSlot { htcycles: 0, task_idx: 1 }, TaskYield::Wait(rising(0, 1))));
    let second = scheduler.step(&mut tasks, 10);
    assert_eq!(second, Step::Ran(TaskSlot { htcycles: 0, task_idx: 0 }, TaskYield::Wait(falling(0, 3))));
    assert_eq!(scheduler.clock(), 0);
    assert_eq!(scheduler.step(&mut tasks, 0), Step::Reached);
    assert_eq!(scheduler.clock(), 0);
    let third = scheduler.step(&mut tasks, 10);
    assert_eq!(third, Step::Ran(TaskSlot { htcycles: rising(0, 1), task_idx: 1 }, TaskYield::Wait(rising(rising(0, 1), 1))));
    assert_eq!(scheduler.clock(), rising(0, 1));
    assert_eq!(tasks.seq, vec![(rising(0, 1), false)]);
}

struct Recorder {
    times: Vec<(u64, usize)>,
}

impl TaskSet for Recorder {
    fn ready(&self) -> bool {
        true
    }

    fn resumes_to(&self, _next: &Self, _task_idx: usize, _htcycles: u64, _y: TaskYield) -> bool {
        true
    }

    fn resume(&mut self, task_idx: usize, htcycles: u64) -> TaskYield {
        self.times.push((htcycles, task_idx));
        TaskYield::Wait([3, 5, 3][task_idx])
    }
}

#[test]
fn scheduler_resumes_tasks_in_time_order() {
    let mut rec = Recorder { times: Vec::new() };
    let mut scheduler = Scheduler::new(0, 3);
    assert!(scheduler.run(&mut rec, 20));
    for w in rec.times.windows(2) {
        assert!(w[0].0 <= w[1].0);
    }
    assert_eq!(&rec.times[..3], &[(0, 2), (0, 1), (0, 0)]);
    assert_eq!(&rec.times[3..5], &[(3, 2), (3, 0)]);
    assert_eq!(scheduler.clock(), 20);
}
