use librespectrum::bus::scheduler::Scheduler;
use librespectrum::cpu::alu::{alu8, daa, inc8, shift_op};
use librespectrum::cpu::decoder::{instruction_decoder, DecodeState};
use librespectrum::cpu::disassembler::disassembler;
use librespectrum::cpu::exec::{execute, instr_pre_ops, is_executable, BusOp};
use librespectrum::cpu::flags::Flags;
use librespectrum::cpu::instruction::Instruction;
use librespectrum::cpu::state::CpuState;
use librespectrum::cpu::tokens::{AluOp, BlockOp, ShiftOp, Condition, DataValue, Reg, RegPair, Token};
use librespectrum::devs::device::DeviceManager;
use librespectrum::devs::machine::{Machine, N_TASKS};

fn decode(bytes: &[u8]) -> Instruction {
    let mut d = instruction_decoder();
    for &b in bytes {
        if let DecodeState::Complete(i) = d.resume(b) {
            return i;
        }
    }
    panic!("incomplete instruction");
}

fn mnemonic(bytes: &[u8]) -> String {
    decode(bytes).format_mnemonic()
}

#[test]
fn decodes_and_formats_instructions() {
    assert_eq!(mnemonic(&[0x00]), "NOP");
    assert_eq!(mnemonic(&[0x3e, 0x05]), "LD A,5h");
    assert_eq!(mnemonic(&[0x21, 0x34, 0x12]), "LD HL,1234h");
    assert_eq!(mnemonic(&[0xdd, 0x7e, 0x05]), "LD A,(IX+5h)");
    assert_eq!(mnemonic(&[0xfd, 0x77, 0xfe]), "LD (IY-2h),A");
    assert_eq!(mnemonic(&[0xcb, 0x47]), "BIT 0,A");
    assert_eq!(mnemonic(&[0xed, 0xb0]), "LDIR");
    assert_eq!(mnemonic(&[0xff]), "RST 38h");
}

#[test]
fn disassembles_byte_stream() {
    let mut d = disassembler(0x100, 4);
    assert!(d.resume(0x3e).is_none());
    let line = d.resume(0x05).unwrap();
    assert_eq!(line.address, 0x100);
    assert_eq!(line.bytes, vec![0x3e, 0x05]);
    assert_eq!(line.instruction.unwrap().format_mnemonic(), "LD A,5h");
    let line = d.resume(0x76).unwrap();
    assert_eq!(line.address, 0x102);
    assert_eq!(line.instruction.unwrap().format_mnemonic(), "HALT");
}

#[test]
fn alu_computes_results_and_flags() {
    let (r, f) = alu8(AluOp::ADD, 0x7f, 0x01, 0);
    assert_eq!(r, 0x80);
    assert_eq!(f, 0x94); // S, H, P/V
    let (r, f) = alu8(AluOp::SUB, 0x00, 0x01, 0);
    assert_eq!(r, 0xff);
    assert_eq!(f & 0x03, 0x03); // C, N
    let (r, f) = alu8(AluOp::XOR, 0x0f, 0x0f, 0x01);
    assert_eq!(r, 0);
    assert_eq!(f, 0x44); // Z, P (even parity); C cleared
    let (r, f) = alu8(AluOp::AND, 0xf0, 0x3c, 0x01);
    assert_eq!(r, 0x30);
    assert_eq!(f, 0x34); // H, P, bit 5 of the result; C cleared
    let (r, f) = alu8(AluOp::OR, 0x01, 0x02, 0x00);
    assert_eq!(r, 0x03);
    assert_eq!(f, 0x04); // P
    let (r, _) = inc8(0xff, 0);
    assert_eq!(r, 0);
    let (r, _) = daa(0x15, 0); // 0x0f + 0x06 = 0x15 is already BCD
    assert_eq!(r, 0x15);
    let (r, _) = daa(0x1a, 0);
    assert_eq!(r, 0x20);
}

#[test]
fn arithmetic_shift_keeps_the_sign() {
    assert_eq!(shift_op(ShiftOp::SRA, 0x02, 0), (0x01, 0x00));
    assert_eq!(shift_op(ShiftOp::SRA, 0x81, 0), (0xc0, 0x85)); // S, P, C
    assert_eq!(shift_op(ShiftOp::SRL, 0x81, 0), (0x40, 0x01)); // C
}

#[test]
fn flags_satisfy_conditions() {
    let f = Flags::from_bits(0x41);
    assert!(f.satisfy(Condition::Z));
    assert!(f.satisfy(Condition::C));
    assert!(!f.satisfy(Condition::NZ));
    assert!(f.satisfy(Condition::Always));
}

#[test]
fn executes_push_then_pop() {
    let mut s = CpuState::new();
    s.sp = 0x8000;
    s.bc = 0x1234;
    let push = Instruction { opcode: Token::PUSH(RegPair::BC), displacement: None, data: None };
    assert!(is_executable(&push));
    let e = execute(&mut s, &push, 0x10, &vec![]);
    assert_eq!(s.sp, 0x7ffe);
    assert_eq!(e.post, vec![BusOp::MemWrite(0x7fff, 0x12), BusOp::MemWrite(0x7ffe, 0x34)]);
    let pop = Instruction { opcode: Token::POP(RegPair::DE), displacement: None, data: None };
    assert_eq!(instr_pre_ops(&s, &pop), vec![BusOp::MemRead(0x7ffe), BusOp::MemRead(0x7fff)]);
    execute(&mut s, &pop, 0x11, &vec![0x34, 0x12]);
    assert_eq!(s.de, 0x1234);
    assert_eq!(s.sp, 0x8000);
}

#[test]
fn executes_jumps_and_loads() {
    let mut s = CpuState::new();
    s.af = 0x0040; // Z set
    let jr = Instruction { opcode: Token::JR(Condition::Z), displacement: Some(-4), data: None };
    assert_eq!(instr_pre_ops(&s, &jr), vec![BusOp::Delay(5)]);
    assert_eq!(execute(&mut s, &jr, 0x102, &vec![]).pc, 0x0fe);
    let ld = Instruction { opcode: Token::LD_RG_N(Reg::B), displacement: None, data: Some(DataValue::Byte(0x42)) };
    execute(&mut s, &ld, 0, &vec![]);
    assert_eq!(s.rg(Reg::B), 0x42);
    let halt = Instruction { opcode: Token::HALT, displacement: None, data: None };
    let e = execute(&mut s, &halt, 0x201, &vec![]);
    assert!(e.halt);
    assert_eq!(e.pc, 0x200);
    let ld_idx_n = Instruction { opcode: Token::LD_RG_N(Reg::AtIX), displacement: Some(-2), data: Some(DataValue::Byte(0x77)) };
    assert!(is_executable(&ld_idx_n));
    s.ix = 0x8000;
    let e = execute(&mut s, &ld_idx_n, 0x300, &vec![]);
    assert_eq!(e.post, vec![BusOp::MemWrite(0x7ffe, 0x77)]);
    assert_eq!(e.pc, 0x300);
}

#[test]
fn machine_runs_a_program() {
    let mut devices = DeviceManager::new();
    let mut m = Machine::new(&mut devices);
    // LD A,5; ADD A,3; LD (8000h),A; HALT
    m.load(0, &vec![0x3e, 0x05, 0xc6, 0x03, 0x32, 0x00, 0x80, 0x76]);
    let mut scheduler = Scheduler::new(0, N_TASKS);
    for _ in 0..8 {
        scheduler.run(&mut m, 1000);
    }
    assert_eq!(m.cpu_state().af >> 8, 8);
    assert_eq!(m.read_memory(0x8000), 8);
    assert_eq!(m.read_memory(0x0000), 0x3e);
    assert_eq!(m.cpu_state().pc, 7);
    assert!(m.bus_readings().len() > 0);
}

fn plain(opcode: Token) -> Instruction {
    Instruction { opcode, displacement: None, data: None }
}

#[test]
fn call_then_ret_comes_back() {
    let mut s = CpuState::new();
    s.sp = 0x9000;
    let call = Instruction { opcode: Token::CALL(Condition::Always), displacement: None, data: Some(DataValue::Word(0x4000)) };
    assert!(is_executable(&call));
    let e = execute(&mut s, &call, 0x1003, &vec![]);
    assert_eq!(e.pc, 0x4000);
    assert_eq!(s.sp, 0x8ffe);
    assert_eq!(e.post[1..].to_vec(), vec![BusOp::MemWrite(0x8fff, 0x10), BusOp::MemWrite(0x8ffe, 0x03)]);
    let ret = plain(Token::RET(Condition::Always));
    assert_eq!(instr_pre_ops(&s, &ret), vec![BusOp::MemRead(0x8ffe), BusOp::MemRead(0x8fff)]);
    let e = execute(&mut s, &ret, 0x4001, &vec![0x03, 0x10]);
    assert_eq!(e.pc, 0x1003);
    assert_eq!(s.sp, 0x9000);
}

#[test]
fn exchanges_undo_themselves() {
    for op in [Token::EX_DE_HL, Token::EX_AF, Token::EXX] {
        let mut s = CpuState::new();
        s.af = 0x1122;
        s.bc = 0x3344;
        s.de = 0x5566;
        s.hl = 0x7788;
        s.alt_af = 0x99aa;
        let before = s;
        execute(&mut s, &plain(op), 1, &vec![]);
        assert!(s != before);
        let e = execute(&mut s, &plain(op), 2, &vec![]);
        assert!(s == before);
        assert_eq!(e.post, vec![]);
    }
}

#[test]
fn cpl_twice_restores_the_accumulator() {
    let mut s = CpuState::new();
    s.af = 0x5a00;
    execute(&mut s, &plain(Token::CPL), 1, &vec![]);
    assert_eq!(s.af >> 8, 0xa5);
    execute(&mut s, &plain(Token::CPL), 2, &vec![]);
    assert_eq!(s.af >> 8, 0x5a);
}

#[test]
fn ldir_counts_down_and_repeats() {
    let mut s = CpuState::new();
    s.bc = 2;
    s.hl = 0x4000;
    s.de = 0x5000;
    let ldir = plain(Token::BLOP(BlockOp::LDIR));
    assert_eq!(instr_pre_ops(&s, &ldir), vec![BusOp::MemRead(0x4000)]);
    let e = execute(&mut s, &ldir, 0x102, &vec![0x77]);
    assert_eq!((s.bc, s.hl, s.de), (1, 0x4001, 0x5001));
    assert_eq!(e.pc, 0x100);
    assert_eq!(e.post[0], BusOp::MemWrite(0x5000, 0x77));
    let e = execute(&mut s, &ldir, 0x102, &vec![0x78]);
    assert_eq!(s.bc, 0);
    assert_eq!(e.pc, 0x102);
}

#[test]
fn flags_can_be_set_between_bus_cycles() {
    let mut devices = DeviceManager::new();
    let mut m = Machine::new(&mut devices);
    m.load(0, &vec![0x00, 0x00, 0x00, 0x76]);
    let mut scheduler = Scheduler::new(0, N_TASKS);
    scheduler.run(&mut m, 3);
    assert!(!m.cpu_reading_operands());
    let mut s = m.cpu_state();
    s.af = 0x12d7;
    m.set_cpu_state(s);
    assert_eq!(m.cpu_state().af, 0x12d7);
}

#[test]
fn restarts_jump_to_their_page_zero_address() {
    let mut s = CpuState::new();
    s.sp = 0x8000;
    let rst = decode(&[0xff]);
    let e = execute(&mut s, &rst, 0x1235, &vec![]);
    assert_eq!(e.pc, 0x38);
    assert_eq!(s.sp, 0x7ffe);
    let e = execute(&mut s, &decode(&[0xcf]), 0x39, &vec![]);
    assert_eq!(e.pc, 0x08);
}

#[test]
fn sixteen_bit_and_nibble_and_bit_flags() {
    let mut s = CpuState::new();
    s.hl = 0x1000;
    s.de = 0x1000;
    s.af = 0x0001;
    // SBC HL,DE: 0x1000 - 0x1000 - 1 = 0xffff: S, H, N, C; X, Y from 0xff
    execute(&mut s, &decode(&[0xed, 0x52]), 2, &vec![]);
    assert_eq!(s.hl, 0xffff);
    assert_eq!(s.af & 0xff, 0x80 | 0x28 | 0x10 | 0x02 | 0x01);
    // RLD with A = 0x12 and (HL) = 0x34: A = 0x13, (HL) = 0x42; P from A (odd: clear)
    s.af = 0x1200;
    let e = execute(&mut s, &decode(&[0xed, 0x6f]), 2, &vec![0x34]);
    assert_eq!(s.af >> 8, 0x13);
    assert_eq!(e.post, vec![BusOp::MemWrite(s.hl, 0x42)]);
    assert_eq!(s.af & 0xff, 0x00);
    // BIT 7,A with A = 0x80: S set, Z and P clear, H set, N cleared
    s.af = 0x8002;
    execute(&mut s, &decode(&[0xcb, 0x7f]), 2, &vec![]);
    assert_eq!(s.af & 0xd6, 0x90);
}

#[test]
fn searches_stop_on_a_match_and_input_sets_flags() {
    let mut s = CpuState::new();
    s.af = 0x4200;
    s.hl = 0x4000;
    s.bc = 5;
    let cpir = plain(Token::BLOP(BlockOp::CPIR));
    let e = execute(&mut s, &cpir, 0x102, &vec![0x41]);
    assert_eq!((e.pc, s.bc, s.hl), (0x100, 4, 0x4001));
    let e = execute(&mut s, &cpir, 0x102, &vec![0x42]);
    assert_eq!((e.pc, s.bc, s.hl), (0x102, 3, 0x4002));
    assert_eq!(s.af & 0x40, 0x40);
    // IN B,(C) reading 0: Z and P set, C kept
    s.af = 0x0001;
    execute(&mut s, &decode(&[0xed, 0x40]), 2, &vec![0x00]);
    assert_eq!(s.rg(Reg::B), 0);
    assert_eq!(s.af & 0xff, 0x45);
    // DAA takes X and Y from the result
    let (r, f) = daa(0x2a, 0);
    assert_eq!(r, 0x30);
    assert_eq!(f & 0x28, 0x20);
}

#[test]
fn nmi_pushes_pc_and_jumps_to_its_handler() {
    let mut devices = DeviceManager::new();
    let mut m = Machine::new(&mut devices);
    m.load(0, &vec![0x00; 0x80]);
    let mut scheduler = Scheduler::new(0, N_TASKS);
    scheduler.run(&mut m, 40);
    let mut s = m.cpu_state();
    s.nmi = true;
    s.iff1 = true;
    m.set_cpu_state(s);
    for _ in 0..4 {
        scheduler.run(&mut m, 100);
    }
    let s = m.cpu_state();
    assert!(!s.nmi);
    assert!(!s.iff1);
    assert_eq!(s.sp, 0xfffe);
    assert!(s.pc >= 0x66 && s.pc < 0x80);
    let pushed = (m.read_memory(0xffff) as u16) << 8 | m.read_memory(0xfffe) as u16;
    assert!(pushed > 0 && pushed < 0x20);
}

#[test]
fn machine_stores_an_immediate_byte_at_an_indexed_address() {
    let mut devices = DeviceManager::new();
    let mut m = Machine::new(&mut devices);
    // LD IX,8000h; LD (IX+2),55h; HALT
    m.load(0, &vec![0xdd, 0x21, 0x00, 0x80, 0xdd, 0x36, 0x02, 0x55, 0x76]);
    let mut scheduler = Scheduler::new(0, N_TASKS);
    for _ in 0..10 {
        scheduler.run(&mut m, 1000);
    }
    assert_eq!(m.cpu_state().ix, 0x8000);
    assert_eq!(m.read_memory(0x8002), 0x55);
    assert_eq!(m.cpu_state().pc, 8);
}
