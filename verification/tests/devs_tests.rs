use librespectrum::bus::cpu_bus::{Ctrl, CpuBus, MREQ, RD, WR};
use librespectrum::bus::scheduler::TaskYield;
use librespectrum::cpu::state::CpuState;
use librespectrum::cpu::tokens::Reg;
use librespectrum::devs::breakpoints::{BreakCondition, BreakpointManager, StateCondition, StatePredicate};
use librespectrum::devs::bus_logger::BusLogger;
use librespectrum::devs::cpu::Cpu;
use librespectrum::devs::device::DeviceManager;
use librespectrum::devs::display::render;
use librespectrum::devs::memory::{Dynamic48k, FlatRam, Memory, Static48k};
use librespectrum::gfx::frame_buffer::FrameBuffer;
use librespectrum::gfx::video_mode::VideoMode;

const CPU: usize = 7;

#[test]
fn static_memory_keeps_rom_and_writes_ram() {
    let mut mem = Static48k::new(1);
    mem.load(0x0000, &vec![0xaa, 0xbb]);
    assert_eq!(mem.read(0x0001), 0xbb);
    mem.write(0x0001, 0x11);
    assert_eq!(mem.read(0x0001), 0xbb);
    mem.write(0x4000, 0x22);
    assert_eq!(mem.read(0x4000), 0x22);
    assert!(!mem.writable(0x3fff));
    assert!(mem.writable(0xc000));
}

#[test]
fn static_memory_answers_the_bus() {
    let mut mem = Static48k::new(1);
    let mut bps = BreakpointManager::<StateCondition>::new();
    let mut bus = CpuBus::new();
    mem.load(0x1234, &vec![0x5a]);
    bus.addr.drive(CPU, 0x1234);
    bus.ctrl.drive(CPU, Ctrl::new(MREQ | RD));
    assert_eq!(mem.resume(&mut bus, &mut bps, 0), TaskYield::Wait(1));
    assert_eq!(bus.data.probe(), Some(0x5a));
    bus.ctrl.drive(CPU, Ctrl::new(0));
    mem.resume(&mut bus, &mut bps, 1);
    assert_eq!(bus.data.probe(), None);
    bus.addr.drive(CPU, 0x8000);
    bus.data.drive(CPU, 0x77);
    bus.ctrl.drive(CPU, Ctrl::new(MREQ | WR));
    let id = bps.add(BreakCondition::AfterMemoryWrite(0x8000), true);
    assert_eq!(mem.resume(&mut bus, &mut bps, 2), TaskYield::Break);
    assert_eq!(mem.read(0x8000), 0x77);
    assert_eq!(mem.resume(&mut bus, &mut bps, 2), TaskYield::Wait(1));
    assert_eq!(bps.hits_after_memory_write(0x8000), None);
    assert_eq!(id, 0);
}

#[test]
fn dynamic_memory_drives_reads_for_three_cycles() {
    let mut mem = Dynamic48k::new(2);
    let mut bus = CpuBus::new();
    mem.load(0x10, &vec![0x42]);
    assert_eq!(mem.resume(&mut bus, 0), TaskYield::Wait(1));
    bus.addr.drive(CPU, 0x10);
    bus.ctrl.drive(CPU, Ctrl::new(MREQ | RD));
    assert_eq!(mem.resume(&mut bus, 1), TaskYield::Wait(6));
    assert_eq!(bus.data.probe(), Some(0x42));
    bus.ctrl.drive(CPU, Ctrl::new(0));
    mem.resume(&mut bus, 7);
    assert_eq!(bus.data.probe(), None);
    let mut flat = FlatRam::new();
    assert_eq!(flat.resume(0), TaskYield::Wait(7));
}

#[test]
fn breakpoints_match_the_latest_and_remove_once() {
    let mut bps = BreakpointManager::<StateCondition>::new();
    let a = bps.add(BreakCondition::AfterMemoryAccessRange(0x4000, 0x4fff), false);
    let b = bps.once(BreakCondition::AfterMemoryRead(0x4100));
    let c = bps.add(BreakCondition::BeforeOpcodeRead(None), false);
    assert_eq!((a, b, c), (0, 1, 2));
    assert_eq!(bps.hits_after_memory_read(0x4100), Some(1));
    assert_eq!(bps.hits_after_memory_read(0x4100), Some(0));
    assert_eq!(bps.hits_after_memory_write(0x5000), None);
    assert_eq!(bps.hits_before_opcode_read(0x1234), Some(2));
    bps.remove(2);
    assert_eq!(bps.hits_before_opcode_read(0x1234), None);
    let d = bps.add(BreakCondition::CpuStateMatch(StateCondition::RegEquals(Reg::A, 3)), true);
    let mut s = CpuState::new();
    assert_eq!(bps.hits_cpu_state_match(&s), None);
    s.set_rg(Reg::A, 3);
    assert_eq!(bps.hits_cpu_state_match(&s), Some(d));
    assert_eq!(bps.hits_cpu_state_match(&s), None);
    let z = bps.add(BreakCondition::CpuStateMatch(StateCondition::FlagsMatch(0x41, 0x40)), false);
    s.af = 0x0341;
    assert_eq!(bps.hits_cpu_state_match(&s), None);
    s.af = 0x0340;
    assert_eq!(bps.hits_cpu_state_match(&s), Some(z));
}

#[test]
fn device_manager_names_devices() {
    let mut devices = DeviceManager::new();
    let cpu = devices.create_cpu();
    let mem = devices.create_48k_memory();
    let logger = devices.create_bus_logger();
    assert_eq!(devices.get_name(&cpu), Some("Z80 CPU"));
    assert_eq!(devices.get_name(&mem), Some("Static 48K Memory"));
    assert_eq!(devices.get_name(&logger), Some("Bus Logger"));
    assert_eq!(devices.get_name(&42usize), None);
}

#[test]
fn bus_logger_keeps_the_latest_readings() {
    let mut logger = BusLogger::new(3);
    let mut bus = CpuBus::new();
    for h in 0..70u64 {
        bus.addr.drive(CPU, h as u16);
        assert_eq!(logger.resume(&bus, h), TaskYield::Wait(1));
    }
    let readings = logger.readings_to_tail();
    assert_eq!(readings.len(), 64);
    assert_eq!(readings[0].htcyc, 69);
    assert_eq!(readings[0].addr, Some((CPU, 69)));
    assert_eq!(readings[63].htcyc, 6);
}

#[test]
fn frame_buffer_loads_a_screen() {
    let mut screen = vec![0u8; 6912];
    screen[0] = 0b1000_0001; // line 0, pixels 0 and 7
    screen[256] = 0b0100_0000; // line 1, pixel 1
    screen[32] = 0xff; // line 8, pixels 0..7
    screen[6144] = 0b0100_0010; // bright, red ink, black paper
    let fb = FrameBuffer::load(&screen);
    assert_eq!((fb.cols, fb.rows, fb.width, fb.height), (32, 24, 256, 192));
    assert!(fb.pixels[0] && fb.pixels[7] && !fb.pixels[1]);
    assert!(fb.pixels[256 + 1]);
    assert!(fb.pixels[8 * 256 + 3]);
    let rgb = fb.to_rgb_image();
    assert_eq!(rgb.len(), 256 * 192 * 3);
    assert_eq!(&rgb[0..3], &[0xff, 0x00, 0x00]);
    assert_eq!(&rgb[3..6], &[0x00, 0x00, 0x00]);
    let blank = FrameBuffer::new_for(VideoMode::MUL8X4);
    assert_eq!(blank.rows, 48);
    assert_eq!(&blank.to_rgb_image()[0..3], &[0xee, 0xee, 0xee]);
}

#[test]
fn renders_the_screen_from_memory() {
    let mut mem = Static48k::new(1);
    mem.load(0x4000, &vec![0x80]);
    mem.load(0x4100, &vec![0x01]);
    mem.load(0x4800, &vec![0xff]);
    mem.load(0x5800, &vec![0x42]);
    mem.load(0x5820, &vec![0x38]);
    mem.load(0x5900, &vec![0x05]);
    let screen = render(&mem);
    assert_eq!(screen.len(), 256 * 192);
    assert_eq!(screen[0], (0xff, 0x00, 0x00));
    assert_eq!(screen[1], (0x00, 0x00, 0x00));
    assert_eq!(screen[256 + 7], (0xff, 0x00, 0x00));
    assert_eq!(screen[256 + 6], (0x00, 0x00, 0x00));
    assert_eq!(screen[8 * 256], (0xcd, 0xcd, 0xcd));
    assert_eq!(screen[64 * 256 + 3], (0x00, 0xcd, 0xcd));
    assert_eq!(screen[64 * 256 + 8], (0x00, 0x00, 0x00));
}

#[test]
fn read_breakpoints_stop_and_stay_unless_once() {
    let mut mem = Static48k::new(1);
    let mut bps = BreakpointManager::<StateCondition>::new();
    let mut bus = CpuBus::new();
    bps.add(BreakCondition::AfterMemoryRead(0x0100), false);
    bus.addr.drive(CPU, 0x0100);
    bus.ctrl.drive(CPU, Ctrl::new(MREQ | RD));
    assert_eq!(mem.resume(&mut bus, &mut bps, 0), TaskYield::Break);
    assert_eq!(mem.resume(&mut bus, &mut bps, 0), TaskYield::Wait(1));
    assert_eq!(mem.resume(&mut bus, &mut bps, 2), TaskYield::Break);
    bps.add(BreakCondition::AfterMemoryAccessRange(0x00ff, 0x0101), true);
    assert_eq!(bps.hits_after_memory_read(0x0100), Some(1));
    assert_eq!(bps.hits_after_memory_read(0x0100), Some(0));
}

#[test]
fn memory_faults_only_on_a_bus_it_cannot_answer() {
    let mut mem = Static48k::new(1);
    let mut bps = BreakpointManager::<StateCondition>::new();
    let mut bus = CpuBus::new();
    bus.ctrl.drive(CPU, Ctrl::new(MREQ | RD));
    // no address on the bus
    assert_eq!(mem.resume(&mut bus, &mut bps, 0), TaskYield::Break);
    assert_eq!(mem.resume(&mut bus, &mut bps, 2), TaskYield::Break);
    let mut mem = Static48k::new(1);
    bus.addr.drive(CPU, 0x0010);
    assert_eq!(mem.resume(&mut bus, &mut bps, 0), TaskYield::Wait(1));
}

/// A condition of the user's own: the stack pointer is below a limit
#[derive(Clone, Copy, Debug)]
struct StackBelow(u16);

impl StatePredicate for StackBelow {
    fn holds(&self, s: CpuState) -> bool {
        s.sp < self.0
    }

    fn check(&self, s: &CpuState) -> bool {
        s.sp < self.0
    }
}

#[test]
fn breakpoints_take_user_state_predicates() {
    let mut bps = BreakpointManager::<StackBelow>::new();
    let id = bps.add(BreakCondition::CpuStateMatch(StackBelow(0x8000)), true);
    let mut s = CpuState::new();
    s.sp = 0x9000;
    assert_eq!(bps.hits_cpu_state_match(&s), None);
    s.sp = 0x7ffe;
    assert_eq!(bps.hits_cpu_state_match(&s), Some(id));
    assert_eq!(bps.hits_cpu_state_match(&s), None);
}

#[test]
fn breakpoint_ids_are_not_given_again_after_a_hit_or_a_clear() {
    let mut bps = BreakpointManager::<StateCondition>::new();
    let a = bps.once(BreakCondition::AfterMemoryWrite(0x8000));
    assert_eq!(bps.hits_after_memory_write(0x8000), Some(a));
    let b = bps.add(BreakCondition::AfterMemoryWrite(0x8000), false);
    assert_eq!((a, b), (0, 1));
    bps.clear();
    assert_eq!(bps.hits_after_memory_write(0x8000), None);
    let c = bps.add(BreakCondition::BeforeOpcodeRead(None), false);
    assert_eq!(c, 2);
    assert_eq!(bps.hits_before_opcode_read(0), Some(2));
}

fn run_to_break(cpu: &mut Cpu, bus: &mut CpuBus) -> usize {
    let mut h: u64 = 0;
    for n in 0..64 {
        match cpu.resume(bus, h) {
            TaskYield::Wait(off) => h += off,
            TaskYield::Break => return n,
        }
    }
    panic!("no break");
}

#[test]
fn cpu_first_resume_takes_its_lines_and_starts_the_fetch_at_pc() {
    let mut cpu = Cpu::new(CPU);
    let mut s = CpuState::new();
    s.pc = 0x1234;
    cpu.set_state(s);
    let mut bus = CpuBus::new();
    assert!(matches!(cpu.resume(&mut bus, 0), TaskYield::Wait(_)));
    assert_eq!(bus.m1.state(), Some((CPU, false)));
    assert_eq!(bus.busak.state(), Some((CPU, false)));
    assert_eq!(bus.halt.state(), Some((CPU, false)));
    assert_eq!(bus.addr.state(), None);
    assert!(matches!(cpu.resume(&mut bus, 1), TaskYield::Wait(_)));
    assert_eq!(bus.addr.state(), Some((CPU, 0x1234)));
    assert_eq!(bus.m1.state(), Some((CPU, true)));
}

#[test]
fn opcode_fetch_refreshes_r_and_decodes_the_byte_on_the_data_bus() {
    for (r, refreshed) in [(0x7fu8, 0x00u8), (0xff, 0x80), (0x05, 0x06)] {
        let mut cpu = Cpu::new(CPU);
        let mut s = CpuState::new();
        s.set_rg(Reg::R, r);
        cpu.set_state(s);
        let mut bus = CpuBus::new();
        // INC A on the data bus
        bus.data.drive(9, 0x3c);
        run_to_break(&mut cpu, &mut bus);
        assert!(cpu.is_at_break());
        assert_eq!(cpu.rg(Reg::R), refreshed);
        assert_eq!(cpu.rg(Reg::A), 0);
        assert!(matches!(cpu.resume(&mut bus, 100), TaskYield::Wait(_)));
        assert_eq!(cpu.rg(Reg::A), 1);
        assert_eq!(cpu.program_counter(), 1);
        assert_eq!(cpu.rg(Reg::R), refreshed);
    }
}

#[test]
fn flags_round_trip_at_any_time() {
    let mut cpu = Cpu::new(CPU);
    let mut bus = CpuBus::new();
    bus.data.drive(9, 0x00);
    let mut h: u64 = 0;
    for _ in 0..5 {
        if let TaskYield::Wait(off) = cpu.resume(&mut bus, h) {
            h += off;
        }
        let a = cpu.rg(Reg::A);
        let f = librespectrum::cpu::flags::Flags::from_bits(0xa9);
        cpu.set_flags(f);
        assert_eq!(cpu.get_flags().bits(), 0xa9);
        assert_eq!(cpu.rg(Reg::F), 0xa9);
        assert_eq!(cpu.rg(Reg::A), a);
    }
}

#[test]
fn conditional_return_decides_by_the_flags_after_its_first_cycle() {
    for (late_flags, pc, sp) in [(None, 1u16, 0u16), (Some(0x40u8), 0xc8c8, 2)] {
        let mut cpu = Cpu::new(CPU);
        let mut bus = CpuBus::new();
        // RET Z, and the bytes popped
        bus.data.drive(9, 0xc8);
        run_to_break(&mut cpu, &mut bus);
        // Its internal cycle begins with Z clear
        assert!(matches!(cpu.resume(&mut bus, 100), TaskYield::Wait(_)));
        assert!(cpu.is_reading_operands());
        if let Some(f) = late_flags {
            cpu.set_flags(librespectrum::cpu::flags::Flags::from_bits(f));
        }
        let mut h: u64 = 200;
        while cpu.is_reading_operands() {
            if let TaskYield::Wait(off) = cpu.resume(&mut bus, h) {
                h += off;
            }
        }
        assert_eq!(cpu.rp(librespectrum::cpu::tokens::RegPair::SP), sp);
        assert_eq!(cpu.program_counter(), pc);
    }
}
