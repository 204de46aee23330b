use librespectrum::devs::memory::Static48k;
use librespectrum::devs::memory_view::Keys;
use librespectrum::devs::navigation::{cursor_addr, disasm_keys, follow_pc, next_instr, next_page, page_lines, prev_instr, prev_page};

fn program() -> Static48k {
    let mut mem = Static48k::new(0);
    // LD A,5; ADD A,3; LD (8000h),A; HALT
    mem.load(0, &vec![0x3e, 0x05, 0xc6, 0x03, 0x32, 0x00, 0x80, 0x76]);
    mem
}

#[test]
fn steps_forward_by_instructions() {
    let mem = program();
    assert_eq!(next_instr(&mem, 0), 2);
    assert_eq!(next_instr(&mem, 2), 4);
    assert_eq!(next_instr(&mem, 4), 7);
    assert_eq!(next_instr(&mem, 7), 8);
    assert_eq!(cursor_addr(&mem, 0, 3), 7);
    assert_eq!(next_page(&mem, 0, 2), 4);
}

#[test]
fn steps_back_by_instructions() {
    let mem = program();
    assert_eq!(prev_instr(&mem, 7), 4);
    assert_eq!(prev_instr(&mem, 4), 2);
    assert_eq!(prev_page(&mem, 7, 2), 2);
}

#[test]
fn follows_the_program_counter() {
    let mem = program();
    assert_eq!(follow_pc(&mem, 0, 1, 2, 2), (0, 1));
    assert_eq!(follow_pc(&mem, 0, 1, 2, 4), (4, 0));
}

fn keys() -> Keys {
    Keys {
        up: false,
        down: false,
        left: false,
        right: false,
        page_up: false,
        page_down: false,
        home: false,
        end: false,
        alt: false,
    }
}

#[test]
fn disassembly_keys_move_the_cursor_and_scroll() {
    let mem = program();
    assert_eq!(disasm_keys(&mem, 2, 0, 3, Keys { up: true, ..keys() }), (0, 0));
    assert_eq!(disasm_keys(&mem, 2, 1, 3, Keys { up: true, ..keys() }), (2, 0));
    assert_eq!(disasm_keys(&mem, 0, 2, 3, Keys { down: true, ..keys() }), (2, 2));
    assert_eq!(disasm_keys(&mem, 0, 0, 3, Keys { down: true, ..keys() }), (0, 1));
    assert_eq!(disasm_keys(&mem, 0, 0, 3, Keys { down: true, alt: true, ..keys() }), (0, 2));
    assert_eq!(disasm_keys(&mem, 4, 2, 3, Keys { up: true, alt: true, ..keys() }), (4, 0));
    assert_eq!(disasm_keys(&mem, 0, 1, 2, Keys { page_down: true, ..keys() }), (4, 1));
    assert_eq!(disasm_keys(&mem, 7, 1, 2, Keys { page_up: true, ..keys() }), (2, 1));
}

#[test]
fn a_page_lists_one_address_per_line() {
    let mem = program();
    assert_eq!(page_lines(&mem, 0, 5), vec![0, 2, 4, 7, 8]);
    assert_eq!(page_lines(&mem, 4, 0), Vec::<u16>::new());
}
