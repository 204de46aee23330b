use vstd::prelude::*;

use super::decoder::{instruction_decoder, DecodeState, InstructionDecoder, lemma_decoder_inv};
use super::instruction::Instruction;

verus! {

/// A line of disassembly: the bytes of one instruction (or of a part of one,
/// when it is longer than a line) and the decoded instruction
pub struct DisassembledLine {
    pub address: u16,
    pub bytes: Vec<u8>,
    pub instruction: Option<Instruction>,
}

/// Streaming disassembler: accepts bytes and produces a line once an instruction
/// is complete or the line is full
pub struct Disassembler {
    pub address: u16,
    pub bytes: Vec<u8>,
    pub decoder: InstructionDecoder,
    pub line_bytes: usize,
}

/// Create a disassembler starting at `base_address` with at most `line_bytes` bytes per line
pub fn disassembler(base_address: u16, line_bytes: usize) -> (d: Disassembler)
    ensures
        d.wf(),
        d.address == base_address,
        d.bytes@ == Seq::<u8>::empty(),
        d.decoder == InstructionDecoder::initial(),
        d.line_bytes == line_bytes,
{
    Disassembler { address: base_address, bytes: Vec::new(), decoder: instruction_decoder(), line_bytes }
}

/// Address after `len` bytes
pub open spec fn advance(address: u16, len: nat) -> u16 {
    ((address as int + len as int) % 0x10000) as u16
}

/// One byte fed to the disassembler `d`, which becomes `e` and gives `r`: once an instruction
/// is complete, or the line is full, the line of the bytes since the last one, at the address
/// where they begin, and the address moves past them
pub open spec fn feeds(d: Disassembler, byte: u8, e: Disassembler, r: Option<DisassembledLine>) -> bool {
    &&& e.wf()
    &&& e.line_bytes == d.line_bytes
    &&& {
        let (next, st) = d.decoder.next(byte);
        let bytes = d.bytes@.push(byte);
        match st {
            DecodeState::Complete(instr) => {
                &&& r matches Some(line) && line.address == d.address
                    && line.bytes@ == bytes && line.instruction == Some(instr)
                &&& e.address == advance(d.address, bytes.len())
                &&& e.bytes@ == Seq::<u8>::empty()
                &&& e.decoder == InstructionDecoder::initial()
            },
            DecodeState::Yielded(_) => if bytes.len() >= d.line_bytes {
                &&& r matches Some(line) && line.address == d.address
                    && line.bytes@ == bytes && line.instruction is None
                &&& e.address == advance(d.address, bytes.len())
                &&& e.bytes@ == Seq::<u8>::empty()
                &&& e.decoder == next
            } else {
                &&& r is None
                &&& e.address == d.address
                &&& e.bytes@ == bytes
                &&& e.decoder == next
            },
        }
    }
}

/// The bytes of the lines given, one after another
pub open spec fn line_bytes_of(outs: Seq<Option<DisassembledLine>>) -> Seq<u8>
    decreases outs.len(),
{
    if outs.len() == 0 {
        Seq::empty()
    } else {
        let before = line_bytes_of(outs.drop_last());
        match outs.last() {
            Some(line) => before + line.bytes@,
            None => before,
        }
    }
}

/// Law: fed a stream of bytes, the disassembler cuts it into lines: the bytes of the lines it
/// gives, followed by those it holds, are the bytes fed, in order; each line has between one
/// and `line_bytes` bytes and begins at the base address moved past the bytes of the lines
/// before it
pub proof fn lemma_stream(ds: Seq<Disassembler>, bytes: Seq<u8>, outs: Seq<Option<DisassembledLine>>)
    requires
        ds.len() == bytes.len() + 1,
        outs.len() == bytes.len(),
        ds[0].wf(),
        ds[0].bytes@ == Seq::<u8>::empty(),
        ds[0].line_bytes >= 1,
        forall|i: int| 0 <= i < bytes.len() ==> #[trigger] feeds(ds[i], bytes[i], ds[i + 1], outs[i]),
    ensures
        line_bytes_of(outs) + ds.last().bytes@ == bytes,
        ds.last().address == advance(ds[0].address, line_bytes_of(outs).len()),
        forall|i: int| 0 <= i < outs.len() && #[trigger] outs[i] is Some ==> {
            let line = outs[i].unwrap();
            &&& line.address == advance(ds[0].address, line_bytes_of(outs.take(i)).len())
            &&& 1 <= line.bytes@.len() <= ds[0].line_bytes
        },
    decreases bytes.len(),
{
    let n = bytes.len() as int;
    if n > 0 {
        let ds1 = ds.drop_last();
        let b1 = bytes.drop_last();
        let o1 = outs.drop_last();
        assert forall|i: int| 0 <= i < b1.len() implies #[trigger] feeds(ds1[i], b1[i], ds1[i + 1], o1[i]) by {
            assert(feeds(ds[i], bytes[i], ds[i + 1], outs[i]));
        }
        lemma_stream(ds1, b1, o1);
        assert forall|i: int| 0 <= i < ds.len() - 1 implies (#[trigger] ds[i + 1]).line_bytes == ds[i].line_bytes by {
            assert(feeds(ds[i], bytes[i], ds[i + 1], outs[i]));
        }
        lemma_line_bytes_kept(ds, n - 1);
        if n > 1 {
            let i = n - 2;
            assert(feeds(ds[i], bytes[i], ds[i + 1], outs[i]));
        }
        let last = n - 1;
        assert(feeds(ds[last], bytes[last], ds[last + 1], outs[last]));
        assert(o1 == outs.take(n - 1));
        let d = ds[n - 1];
        let e = ds[n];
        let before = line_bytes_of(o1);
        assert(b1.push(bytes[n - 1]) =~= bytes);
        match outs[n - 1] {
            Some(line) => {
                assert(before + line.bytes@ + e.bytes@ =~= bytes);
                lemma_advance_add(ds[0].address, before.len(), line.bytes@.len());
            },
            None => {
                assert(before + e.bytes@ =~= bytes);
            },
        }
        assert forall|i: int| 0 <= i < outs.len() && #[trigger] outs[i] is Some implies {
            let line = outs[i].unwrap();
            &&& line.address == advance(ds[0].address, line_bytes_of(outs.take(i)).len())
            &&& 1 <= line.bytes@.len() <= ds[0].line_bytes
        } by {
            if i < n - 1 {
                assert(outs[i] == o1[i]);
                assert(outs.take(i) == o1.take(i));
            } else {
                assert(outs.take(i) == o1);
            }
        }
    }
}

proof fn lemma_line_bytes_kept(ds: Seq<Disassembler>, k: int)
    requires
        0 <= k < ds.len(),
        ds[0].line_bytes >= 1,
        forall|i: int| 0 <= i < ds.len() - 1 ==> (#[trigger] ds[i + 1]).line_bytes == ds[i].line_bytes,
    ensures
        ds[k].line_bytes == ds[0].line_bytes,
    decreases k,
{
    if k > 0 {
        lemma_line_bytes_kept(ds, k - 1);
        assert(ds[(k - 1) + 1].line_bytes == ds[k - 1].line_bytes);
    }
}

proof fn lemma_advance_add(a: u16, m: nat, n: nat)
    ensures
        advance(advance(a, m), n) == advance(a, m + n),
{
    vstd::arithmetic::div_mod::lemma_add_mod_noop(a as int + m as int, n as int, 0x10000);
    vstd::arithmetic::div_mod::lemma_mod_twice(n as int, 0x10000);
}

impl Disassembler {

    pub open spec fn wf(self) -> bool {
        &&& self.decoder.inv()
        &&& !self.decoder.is_done()
        &&& self.bytes@.len() < self.line_bytes || self.bytes@.len() == 0
    }

    /// Feed the next byte
    pub fn resume(&mut self, byte: u8) -> (r: Option<DisassembledLine>)
        requires
            old(self).wf(),
        ensures
            final(self).wf(),
            final(self).line_bytes == old(self).line_bytes,
            feeds(*old(self), byte, *final(self), r),
    {
        proof { lemma_decoder_inv(self.decoder, byte); }
        self.bytes.push(byte);
        let bytes_len = self.bytes.len();
        let step = (bytes_len % 0x10000) as u16;
        let st = self.decoder.resume(byte);
        match st {
            DecodeState::Complete(instruction) => {
                let mut bytes = Vec::new();
                std::mem::swap(&mut bytes, &mut self.bytes);
                let line = DisassembledLine { address: self.address, bytes, instruction: Some(instruction) };
                self.address = self.address.wrapping_add(step);
                self.decoder = instruction_decoder();
                Some(line)
            },
            DecodeState::Yielded(_) => {
                if bytes_len >= self.line_bytes {
                    let mut bytes = Vec::new();
                std::mem::swap(&mut bytes, &mut self.bytes);
                    let line = DisassembledLine { address: self.address, bytes, instruction: None };
                    self.address = self.address.wrapping_add(step);
                    Some(line)
                } else {
                    None
                }
            },
        }
    }
}

} // verus!
