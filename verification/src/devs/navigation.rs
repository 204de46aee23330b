use vstd::prelude::*;

use crate::cpu::decoder::{DecodeState, InstructionDecoder};
use crate::cpu::disassembler::{advance, disassembler, Disassembler};
use super::memory::{Memory, MEMORY_SIZE};
use super::memory_view::Keys;

verus! {

/// Maximum bytes to process for each disassembled line
pub const LINE_BYTES: usize = 4;

/// Signed distance from `b` to `a` on the 16-bit address ring
pub open spec fn offset(a: u16, b: u16) -> int {
    let d = (a - b) % 0x10000;
    if d < 0x8000 { d } else { d - 0x10000 }
}

/// Length of the disassembly line that starts at `start` with the decoder in state `d`, once
/// `k` of its bytes are consumed: a line ends with an instruction or after `LINE_BYTES` bytes
pub open spec fn line_len(mem: Seq<u8>, start: u16, d: InstructionDecoder, k: nat) -> nat
    decreases LINE_BYTES - k,
{
    if k >= LINE_BYTES {
        LINE_BYTES as nat
    } else {
        let (d2, st) = d.next(mem[advance(start, k) as int]);
        if st is Complete || k + 1 >= LINE_BYTES { k + 1 } else { line_len(mem, start, d2, k + 1) }
    }
}

/// Decoder state that the line leaves for the next one: fresh after a whole instruction, the
/// instruction's decoding so far after a full line
#[verifier::opaque]
pub open spec fn line_state(mem: Seq<u8>, start: u16, d: InstructionDecoder, k: nat) -> InstructionDecoder
    decreases LINE_BYTES - k,
{
    if k >= LINE_BYTES {
        d
    } else {
        let (d2, st) = d.next(mem[advance(start, k) as int]);
        if st is Complete { InstructionDecoder::initial() }
        else if k + 1 >= LINE_BYTES { d2 }
        else { line_state(mem, start, d2, k + 1) }
    }
}

/// The line address that the disassembly from `a`, with the decoder in state `d`, reaches first
/// at or after `addr`, is preceded by the line whose address is returned; `prev` is the line
/// before `a`, and `fuel` bounds the lines looked at
#[verifier::opaque]
pub open spec fn scan_back(mem: Seq<u8>, addr: u16, a: u16, d: InstructionDecoder, prev: u16, fuel: nat) -> u16
    decreases fuel,
{
    if fuel == 0 || (a - addr) % 0x10000 < 0x8000 {
        prev
    } else {
        scan_back(mem, addr, advance(a, line_len(mem, a, d, 0)), line_state(mem, a, d, 0), a, (fuel - 1) as nat)
    }
}

/// Address of the instruction before the one at `addr`: the last line before `addr` in the
/// disassembly begun `2 * LINE_BYTES` bytes earlier
pub open spec fn spec_prev_instr(mem: Seq<u8>, addr: u16) -> u16 {
    scan_back(mem, addr, advance(addr, 0xfff8nat), InstructionDecoder::initial(), addr, 9)
}

proof fn lemma_scan_step(mem: Seq<u8>, addr: u16, a: u16, d: InstructionDecoder, prev: u16, fuel: nat)
    ensures
        (a - addr) % 0x10000 < 0x8000 ==> scan_back(mem, addr, a, d, prev, fuel) == prev,
        fuel > 0 && (a - addr) % 0x10000 >= 0x8000 ==> scan_back(mem, addr, a, d, prev, fuel)
            == scan_back(mem, addr, advance(a, line_len(mem, a, d, 0)), line_state(mem, a, d, 0), a, (fuel - 1) as nat),
{
    reveal(scan_back);
}

/// Address `n` instructions before `addr`
pub open spec fn nth_prev_instr(mem: Seq<u8>, addr: u16, n: nat) -> u16
    decreases n,
{
    if n == 0 { addr } else { spec_prev_instr(mem, nth_prev_instr(mem, addr, (n - 1) as nat)) }
}

/// Address of the instruction after the one at `addr`
pub open spec fn spec_next_instr(mem: Seq<u8>, addr: u16) -> u16 {
    advance(addr, line_len(mem, addr, InstructionDecoder::initial(), 0))
}

/// Address `n` instructions after `addr`
pub open spec fn nth_next_instr(mem: Seq<u8>, addr: u16, n: nat) -> u16
    decreases n,
{
    if n == 0 { addr } else { spec_next_instr(mem, nth_next_instr(mem, addr, (n - 1) as nat)) }
}

/// A line of disassembly ends with the byte: the decoder completes an instruction, or the
/// line is full
pub open spec fn line_ends(d: InstructionDecoder, byte: u8, k: nat) -> bool {
    d.next(byte).1 is Complete || k + 1 >= LINE_BYTES
}

/// Feed a byte to the disassembler; the address of the line it completes, if any
fn feed(disasm: &mut Disassembler, byte: u8) -> (r: Option<u16>)
    requires
        old(disasm).wf(),
        old(disasm).line_bytes == LINE_BYTES,
    ensures
        final(disasm).wf(),
        final(disasm).line_bytes == LINE_BYTES,
        line_ends(old(disasm).decoder, byte, old(disasm).bytes@.len()) ==> {
            &&& r == Some(old(disasm).address)
            &&& final(disasm).address == advance(old(disasm).address, old(disasm).bytes@.len() + 1)
            &&& final(disasm).bytes@.len() == 0
            &&& final(disasm).decoder == if old(disasm).decoder.next(byte).1 is Complete {
                InstructionDecoder::initial()
            } else {
                old(disasm).decoder.next(byte).0
            }
        },
        !line_ends(old(disasm).decoder, byte, old(disasm).bytes@.len()) ==> {
            &&& r is None
            &&& final(disasm).address == old(disasm).address
            &&& final(disasm).bytes@.len() == old(disasm).bytes@.len() + 1
            &&& final(disasm).decoder == old(disasm).decoder.next(byte).0
        },
{
    match disasm.resume(byte) {
        Some(line) => Some(line.address),
        None => None,
    }
}

/// One byte of a line: the line ends with it, or goes on from the decoder state it leaves
proof fn lemma_line_step(mem: Seq<u8>, start: u16, d: InstructionDecoder, k: nat)
    requires
        k < LINE_BYTES,
    ensures
        line_ends(d, mem[advance(start, k) as int], k) ==> line_len(mem, start, d, k) == k + 1,
        !line_ends(d, mem[advance(start, k) as int], k)
            ==> line_len(mem, start, d, k) == line_len(mem, start, d.next(mem[advance(start, k) as int]).0, k + 1),
        line_ends(d, mem[advance(start, k) as int], k) ==> line_state(mem, start, d, k) == if d.next(
            mem[advance(start, k) as int],
        ).1 is Complete {
            InstructionDecoder::initial()
        } else {
            d.next(mem[advance(start, k) as int]).0
        },
        !line_ends(d, mem[advance(start, k) as int], k)
            ==> line_state(mem, start, d, k) == line_state(mem, start, d.next(mem[advance(start, k) as int]).0, k + 1),
{
    reveal(line_state);
}

proof fn lemma_advance(a: u16, n: nat, m: nat)
    requires
        n + m < 0x10000,
    ensures
        advance(advance(a, n), m) == advance(a, n + m),
        1 <= n <= LINE_BYTES ==> offset(advance(a, n), a) == n,
{
}

/// Address of the instruction after the one at `addr`, as the disassembly starting at `addr` shows it
#[verifier::rlimit(60)]
pub fn next_instr<M: Memory>(memory: &M, addr: u16) -> (r: u16)
    requires
        memory.contents().len() == MEMORY_SIZE,
    ensures
        r == spec_next_instr(memory.contents(), addr),
        1 <= offset(r, addr) <= LINE_BYTES,
{
    let ghost mem = memory.contents();
    let mut ptr = addr;
    let mut disasm = disassembler(ptr, LINE_BYTES);
    let mut first_done = false;
    let ghost mut first_len: nat = 0;
    loop
        invariant
            memory.contents() == mem,
            mem.len() == MEMORY_SIZE,
            disasm.wf(),
            disasm.line_bytes == LINE_BYTES,
            !first_done ==> {
                &&& disasm.address == addr
                &&& ptr == advance(addr, disasm.bytes@.len())
                &&& line_len(mem, addr, InstructionDecoder::initial(), 0)
                    == line_len(mem, addr, disasm.decoder, disasm.bytes@.len())
            },
            first_done ==> {
                &&& first_len == line_len(mem, addr, InstructionDecoder::initial(), 0)
                &&& 1 <= first_len <= LINE_BYTES
                &&& disasm.address == advance(addr, first_len)
                &&& ptr == advance(disasm.address, disasm.bytes@.len())
            },
        decreases (if first_done { 0int } else { LINE_BYTES as int }) + LINE_BYTES - disasm.bytes@.len(),
    {
        let byte = memory.read(ptr);
        let ghost k = disasm.bytes@.len();
        let ghost d0 = disasm.decoder;
        let ghost a0 = disasm.address;
        proof {
            lemma_advance(a0, k, 1);
            if !first_done {
                lemma_line_step(mem, addr, d0, k);
            }
        }
        ptr = ptr.wrapping_add(1);
        let out = feed(&mut disasm, byte);
        if let Some(line_addr) = out {
            if first_done {
                proof { lemma_advance(addr, first_len, 0); }
                return line_addr;
            }
            proof {
                first_len = (k + 1) as nat;
            }
            first_done = true;
        }
    }
}

proof fn lemma_offset_from_start(addr: u16, start: u16, dist: nat)
    requires
        start == advance(addr, 0xfff8nat),
        dist < 12,
    ensures
        ((advance(start, dist) - addr) % 0x10000 < 0x8000) == (dist >= 8),
        dist < 8 ==> offset(advance(start, dist), addr) == dist - 8,
{
}

/// Address of the instruction before the one at `addr`, as the disassembly begun `2 * LINE_BYTES`
/// bytes earlier shows it
#[verifier::rlimit(100)]
pub fn prev_instr<M: Memory>(memory: &M, addr: u16) -> (r: u16)
    requires
        memory.contents().len() == MEMORY_SIZE,
    ensures
        r == spec_prev_instr(memory.contents(), addr),
        -8 <= offset(r, addr) <= -1,
{
    let ghost mem = memory.contents();
    let start = addr.wrapping_sub((LINE_BYTES * 2) as u16);
    let mut ptr = start;
    let mut disasm = disassembler(ptr, LINE_BYTES);
    let mut prev = addr;
    let ghost mut dist: nat = 0;
    let ghost mut lines: nat = 0;
    let ghost mut dline = InstructionDecoder::initial();
    loop
        invariant
            memory.contents() == mem,
            mem.len() == MEMORY_SIZE,
            disasm.wf(),
            disasm.line_bytes == LINE_BYTES,
            start == advance(addr, 0xfff8nat),
            dist < 12,
            lines <= dist,
            lines == 0 <==> dist == 0,
            disasm.address == advance(start, dist),
            ptr == advance(disasm.address, disasm.bytes@.len()),
            dist > 0 ==> -8 <= offset(prev, addr) <= -1,
            spec_prev_instr(mem, addr) == scan_back(mem, addr, disasm.address, dline, prev, (9 - lines) as nat),
            line_len(mem, disasm.address, dline, 0) == line_len(mem, disasm.address, disasm.decoder, disasm.bytes@.len()),
            line_state(mem, disasm.address, dline, 0) == line_state(mem, disasm.address, disasm.decoder, disasm.bytes@.len()),
        decreases (12 - dist) * 5 + LINE_BYTES - disasm.bytes@.len(),
    {
        let byte = memory.read(ptr);
        let ghost k = disasm.bytes@.len();
        let ghost a0 = disasm.address;
        let ghost d0 = disasm.decoder;
        proof {
            lemma_advance(a0, k, 1);
            lemma_line_step(mem, a0, d0, k);
        }
        ptr = ptr.wrapping_add(1);
        let out = feed(&mut disasm, byte);
        if let Some(line_addr) = out {
            proof {
                lemma_offset_from_start(addr, start, dist);
                lemma_advance(start, dist, k + 1);
                lemma_scan_step(mem, addr, a0, dline, prev, (9 - lines) as nat);
                assert(line_len(mem, a0, dline, 0) == k + 1);
            }
            if line_addr.wrapping_sub(addr) < 0x8000 {
                return prev;
            }
            prev = line_addr;
            proof {
                dist = dist + k + 1;
                lines = lines + 1;
                dline = disasm.decoder;
            }
        }
    }
}

/// Address `n` instructions after `addr`
pub fn nth_next<M: Memory>(memory: &M, addr: u16, n: usize) -> (r: u16)
    requires
        memory.contents().len() == MEMORY_SIZE,
    ensures
        r == nth_next_instr(memory.contents(), addr, n as nat),
{
    let mut next = addr;
    let mut i: usize = 0;
    while i < n
        invariant
            memory.contents().len() == MEMORY_SIZE,
            i <= n,
            next == nth_next_instr(memory.contents(), addr, i as nat),
        decreases n - i,
    {
        next = next_instr(memory, next);
        i = i + 1;
    }
    next
}

/// Addresses of the `rows` lines of the page that starts at `addr`, one instruction each
pub fn page_lines<M: Memory>(memory: &M, addr: u16, rows: usize) -> (r: Vec<u16>)
    requires
        memory.contents().len() == MEMORY_SIZE,
    ensures
        r@.len() == rows,
        forall|k: int| 0 <= k < rows ==> #[trigger] r@[k] == nth_next_instr(memory.contents(), addr, k as nat),
{
    let mut r: Vec<u16> = Vec::new();
    let mut line = addr;
    let mut k: usize = 0;
    while k < rows
        invariant
            memory.contents().len() == MEMORY_SIZE,
            k <= rows,
            r@.len() == k,
            line == nth_next_instr(memory.contents(), addr, k as nat),
            forall|j: int| 0 <= j < k ==> #[trigger] r@[j] == nth_next_instr(memory.contents(), addr, j as nat),
        decreases rows - k,
    {
        r.push(line);
        line = next_instr(memory, line);
        k = k + 1;
    }
    r
}

/// Address of the first instruction of the next page of `rows` lines
pub fn next_page<M: Memory>(memory: &M, addr: u16, rows: usize) -> (r: u16)
    requires
        memory.contents().len() == MEMORY_SIZE,
    ensures
        r == nth_next_instr(memory.contents(), addr, rows as nat),
{
    nth_next(memory, addr, rows)
}

/// Address of the instruction under the cursor, `cursor` lines below the page start
pub fn cursor_addr<M: Memory>(memory: &M, addr: u16, cursor: usize) -> (r: u16)
    requires
        memory.contents().len() == MEMORY_SIZE,
    ensures
        r == nth_next_instr(memory.contents(), addr, cursor as nat),
{
    nth_next(memory, addr, cursor)
}

/// Bytes from `r` forward to `addr` on the address ring
pub open spec fn back(r: u16, addr: u16) -> int {
    (addr - r) % 0x10000
}

proof fn lemma_back_step(addr: u16, prev: u16, prev2: u16)
    requires
        -8 <= offset(prev2, prev) <= -1,
        back(prev, addr) + 8 < 0x10000,
    ensures
        1 <= back(prev2, prev) <= 8,
        back(prev2, addr) == back(prev, addr) + back(prev2, prev),
{
}

/// Address of the first instruction of the previous page of `rows` lines: `rows` steps back,
/// each of one to eight bytes
pub fn prev_page<M: Memory>(memory: &M, addr: u16, rows: usize) -> (r: u16)
    requires
        memory.contents().len() == MEMORY_SIZE,
    ensures
        r == nth_prev_instr(memory.contents(), addr, rows as nat),
        rows * 8 < 0x10000 ==> rows <= back(r, addr) <= 8 * rows,
{
    let mut prev = addr;
    let mut i: usize = 0;
    while i < rows
        invariant
            memory.contents().len() == MEMORY_SIZE,
            i <= rows,
            prev == nth_prev_instr(memory.contents(), addr, i as nat),
            rows * 8 < 0x10000 ==> i <= back(prev, addr) <= 8 * i,
        decreases rows - i,
    {
        let p2 = prev_instr(memory, prev);
        proof {
            if rows * 8 < 0x10000 {
                lemma_back_step(addr, prev, p2);
            }
        }
        prev = p2;
        i = i + 1;
    }
    prev
}

/// Page start and cursor that keep the program counter in sight: a page of `rows` lines
/// starting at `pc` when `pc` lies outside the page at `addr`, else the page as it is
pub fn follow_pc<M: Memory>(memory: &M, addr: u16, cursor: usize, rows: usize, pc: u16) -> (r: (u16, usize))
    requires
        memory.contents().len() == MEMORY_SIZE,
    ensures
        r == if pc < addr || pc >= nth_next_instr(memory.contents(), addr, rows as nat) { (pc, 0usize) } else { (addr, cursor) },
{
    if pc < addr || pc >= next_page(memory, addr, rows) {
        (pc, 0)
    } else {
        (addr, cursor)
    }
}

/// Page start and cursor row of a disassembly view of `rows` lines after the keys pressed at
/// once: an arrow moves the cursor a row, scrolling a line at the edge (with alt, to the top or
/// bottom row); Page Up, then Page Down, turn a page
pub open spec fn spec_disasm_keys(mem: Seq<u8>, addr: u16, cursor: usize, rows: usize, keys: Keys) -> (u16, usize) {
    let last = (rows - 1) as usize;
    let (a1, c1) = if !keys.up {
        (addr, cursor)
    } else if keys.alt {
        (addr, 0usize)
    } else if cursor == 0 {
        (spec_prev_instr(mem, addr), 0usize)
    } else {
        (addr, (cursor - 1) as usize)
    };
    let (a2, c2) = if !keys.down {
        (a1, c1)
    } else if keys.alt {
        (a1, last)
    } else if c1 == last {
        (spec_next_instr(mem, a1), last)
    } else {
        (a1, (c1 + 1) as usize)
    };
    let a3 = if keys.page_up { nth_prev_instr(mem, a2, rows as nat) } else { a2 };
    (if keys.page_down { nth_next_instr(mem, a3, rows as nat) } else { a3 }, c2)
}

/// Handle the keys pressed at once in a disassembly view of `rows` lines starting at `addr`,
/// with the cursor on row `cursor`; the new page start and cursor row
pub fn disasm_keys<M: Memory>(memory: &M, addr: u16, cursor: usize, rows: usize, keys: Keys) -> (r: (u16, usize))
    requires
        memory.contents().len() == MEMORY_SIZE,
        cursor < rows,
    ensures
        r == spec_disasm_keys(memory.contents(), addr, cursor, rows, keys),
        r.1 < rows,
{
    let last = rows - 1;
    let mut addr = addr;
    let mut cursor = cursor;
    if keys.up {
        if keys.alt {
            cursor = 0;
        } else if cursor == 0 {
            addr = prev_instr(memory, addr);
        } else {
            cursor = cursor - 1;
        }
    }
    if keys.down {
        if keys.alt {
            cursor = last;
        } else if cursor == last {
            addr = next_instr(memory, addr);
        } else {
            cursor = cursor + 1;
        }
    }
    if keys.page_up {
        addr = prev_page(memory, addr, rows);
    }
    if keys.page_down {
        addr = next_page(memory, addr, rows);
    }
    (addr, cursor)
}

} // verus!
