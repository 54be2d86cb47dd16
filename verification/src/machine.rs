//! The machine state: memory, the two registers, and the loader.

use vstd::prelude::*;

use crate::decode::decode;
use crate::decode::spec_decode;
use crate::decode::Instruction;
use crate::words::wrap_i16;
use crate::MAGIC_WORD;
use crate::MEM_WORDS;
use crate::VmError;

verus! {

/// The mathematical state of the machine: the memory words and the two
/// registers as unbounded integers.
pub struct MachineView {
    pub ram: Seq<u32>,
    pub sp: int,
    pub pc: int,
}

impl MachineView {
    /// Memory holds exactly [`MEM_WORDS`] words and both registers carry
    /// signed 16-bit values.
    pub open spec fn wf(self) -> bool {
        &&& self.ram.len() == MEM_WORDS
        &&& -0x8000 <= self.sp <= 0x7fff
        &&& -0x8000 <= self.pc <= 0x7fff
    }
}

/// A 32-bit word read little-endian from four bytes.
pub open spec fn le_word(b0: u8, b1: u8, b2: u8, b3: u8) -> u32 {
    (b0 + b1 * 0x100 + b2 * 0x1_0000 + b3 * 0x100_0000) as u32
}

/// A program image is loadable when it starts with the four magic bytes
/// and the rest splits into whole words that fit in memory.
pub open spec fn image_ok(bytes: Seq<u8>) -> bool {
    &&& bytes.len() >= 4
    &&& bytes[0] == 0xde
    &&& bytes[1] == 0xad
    &&& bytes[2] == 0xbe
    &&& bytes[3] == 0xef
    &&& (bytes.len() - 4) % 4 == 0
    &&& (bytes.len() - 4) / 4 <= MEM_WORDS
}

/// The state after loading a byte image: word `i` of memory holds the
/// little-endian reading of body bytes `4i..4i+4`, memory past the body
/// is untouched, PC is 0 and the stack is empty.
pub open spec fn spec_load_image(m: MachineView, bytes: Seq<u8>) -> MachineView {
    let n = (bytes.len() - 4) / 4;
    MachineView {
        ram: Seq::new(
            MEM_WORDS as nat,
            |i: int|
                if i < n {
                    le_word(bytes[4 + 4 * i], bytes[5 + 4 * i], bytes[6 + 4 * i], bytes[7 + 4 * i])
                } else {
                    m.ram[i]
                },
        ),
        sp: MEM_WORDS as int,
        pc: 0,
    }
}

/// The index just before the first line terminator (a newline or a NUL)
/// at or after `start`, or the end of the input.
pub open spec fn line_end(input: Seq<u8>, start: int) -> int
    recommends
        0 <= start <= input.len(),
    decreases input.len() - start,
{
    if !(0 <= start < input.len()) {
        start
    } else if input[start] == 10 || input[start] == 0 {
        start
    } else {
        line_end(input, start + 1)
    }
}

proof fn lemma_line_end_at(s: Seq<u8>, start: int, e: int)
    requires
        0 <= start <= e <= s.len(),
        forall|i: int| start <= i < e ==> s[i] != 10 && s[i] != 0,
        e < s.len() ==> s[e] == 10 || s[e] == 0,
    ensures
        line_end(s, start) == e,
    decreases e - start,
{
    if start < e {
        lemma_line_end_at(s, start + 1, e);
    }
}

/// Read one line from a byte stream: the bytes from `start` up to a
/// newline or NUL (or the end of the stream), and the position just past
/// the terminator. Bytes after the terminator are untouched.
pub fn read_line(input: &[u8], start: usize) -> (r: (Vec<u8>, usize))
    requires
        start <= input@.len(),
    ensures
        r.0@ == input@.subrange(start as int, line_end(input@, start as int)),
        r.1 == if line_end(input@, start as int) < input@.len() {
            line_end(input@, start as int) + 1
        } else {
            line_end(input@, start as int)
        },
{
    let n = input.len();
    let mut out: Vec<u8> = Vec::new();
    let mut i: usize = start;
    while i < n && input[i] != 10 && input[i] != 0
        invariant
            start <= i <= n,
            n == input@.len(),
            forall|j: int| start <= j < i ==> input@[j] != 10 && input@[j] != 0,
            out@ =~= input@.subrange(start as int, i as int),
        decreases n - i,
    {
        out.push(input[i]);
        proof {
            assert(out@ =~= input@.subrange(start as int, i + 1));
        }
        i = i + 1;
    }
    proof {
        lemma_line_end_at(input@, start as int, i as int);
    }
    if i < n {
        (out, i + 1)
    } else {
        (out, i)
    }
}

/// The state after the default end-of-step move: PC one word further on.
pub open spec fn advance(m: MachineView) -> MachineView {
    MachineView { ram: m.ram, sp: m.sp, pc: wrap_i16(m.pc + 1) }
}

/// A push is possible exactly when SP points into memory or at the
/// empty-stack mark.
pub open spec fn can_push(m: MachineView) -> bool {
    0 < m.sp <= MEM_WORDS
}

/// Store the word at `M[SP - 1]`, then decrement SP.
pub open spec fn spec_push(m: MachineView, w: u32) -> MachineView {
    MachineView { ram: m.ram.update(m.sp - 1, w), sp: m.sp - 1, pc: m.pc }
}

/// A program image is loadable when it starts with the magic word and its
/// body fits in memory.
pub open spec fn load_ok(p: Seq<u32>) -> bool {
    &&& p.len() >= 1
    &&& p[0] == MAGIC_WORD
    &&& p.len() - 1 <= MEM_WORDS
}

/// The state after loading: the body words fill memory from index 0, the
/// rest of memory is untouched, PC is 0 and the stack is empty.
pub open spec fn spec_load(m: MachineView, p: Seq<u32>) -> MachineView {
    MachineView {
        ram: Seq::new(
            MEM_WORDS as nat,
            |i: int| if i < p.len() - 1 { p[i + 1] } else { m.ram[i] },
        ),
        sp: MEM_WORDS as int,
        pc: 0,
    }
}

/// What a fetch at the current PC yields: the decoded instruction at
/// `M[PC]`, or a `DecoderError` when PC is outside memory or the word does
/// not decode.
pub open spec fn spec_fetch(m: MachineView) -> Result<Instruction, VmError> {
    if 0 <= m.pc < MEM_WORDS {
        match spec_decode(m.ram[m.pc]) {
            Some(i) => Ok(i),
            None => Err(VmError::DecoderError),
        }
    } else {
        Err(VmError::DecoderError)
    }
}

/// The virtual machine: one flat array of words shared by code and stack, a
/// stack pointer and a program counter. The stack grows toward lower
/// indices; `SP == 1024` means the stack is empty.
pub struct Machine {
    pub ram: Vec<u32>,
    pub sp: i16,
    pub pc: i16,
}

impl View for Machine {
    type V = MachineView;

    open spec fn view(&self) -> MachineView {
        MachineView { ram: self.ram@, sp: self.sp as int, pc: self.pc as int }
    }
}

impl Machine {
    /// A fresh machine: zeroed memory, empty stack, PC at word 0.
    pub fn new() -> (m: Machine)
        ensures
            m@.wf(),
            m@.sp == MEM_WORDS,
            m@.pc == 0,
            forall|i: int| 0 <= i < MEM_WORDS ==> m@.ram[i] == 0u32,
    {
        let mut ram: Vec<u32> = Vec::new();
        let mut i: usize = 0;
        while i < MEM_WORDS
            invariant
                i <= MEM_WORDS,
                ram@.len() == i,
                forall|j: int| 0 <= j < i ==> ram@[j] == 0u32,
            decreases MEM_WORDS - i,
        {
            ram.push(0);
            i = i + 1;
        }
        Machine { ram, sp: 1024, pc: 0 }
    }

    /// The current stack pointer.
    pub fn sp(&self) -> (r: i16)
        ensures
            r == self@.sp,
    {
        self.sp
    }

    /// The current program counter.
    pub fn pc(&self) -> (r: i16)
        ensures
            r == self@.pc,
    {
        self.pc
    }

    /// The memory word at the given index.
    pub fn word_at(&self, idx: usize) -> (r: u32)
        requires
            self@.wf(),
            idx < MEM_WORDS,
        ensures
            r == self@.ram[idx as int],
    {
        self.ram[idx]
    }

    /// Read and decode the instruction word at PC. The program counter does
    /// not move: branch targets are computed from the pre-advance PC, so
    /// advancing is a separate step.
    pub fn fetch(&self) -> (r: Result<Instruction, VmError>)
        requires
            self@.wf(),
        ensures
            r == spec_fetch(self@),
    {
        if self.pc < 0 || self.pc >= 1024 {
            return Err(VmError::DecoderError);
        }
        let w = self.ram[self.pc as usize];
        decode(w)
    }

    /// Advance the program counter by one word.
    pub fn step(&mut self)
        requires
            old(self)@.wf(),
        ensures
            final(self)@.wf(),
            final(self)@.ram == old(self)@.ram,
            final(self)@.sp == old(self)@.sp,
            final(self)@.pc == wrap_i16(old(self)@.pc + 1),
    {
        self.move_pc(1)
    }

    /// Move the program counter by a signed word count, wrapping as a
    /// 16-bit register does.
    pub fn move_pc(&mut self, step: i16)
        requires
            old(self)@.wf(),
        ensures
            final(self)@.wf(),
            final(self)@.ram == old(self)@.ram,
            final(self)@.sp == old(self)@.sp,
            final(self)@.pc == wrap_i16(old(self)@.pc + step),
    {
        self.pc = self.pc.wrapping_add(step);
    }

    /// Store one word on the stack: write at `M[SP - 1]`, then decrement
    /// SP. Fails with `StackOverflow` when the stack is full and with
    /// `OutOfBounds` when SP is above the empty-stack mark.
    pub fn push(&mut self, word: u32) -> (r: Result<(), VmError>)
        requires
            old(self)@.wf(),
        ensures
            final(self)@.wf(),
            r is Ok <==> can_push(old(self)@),
            can_push(old(self)@) ==> final(self)@ == spec_push(old(self)@, word),
            !can_push(old(self)@) ==> final(self)@ == old(self)@,
            old(self)@.sp <= 0 ==> r == Result::<(), VmError>::Err(VmError::StackOverflow),
            old(self)@.sp > MEM_WORDS ==> r == Result::<(), VmError>::Err(VmError::OutOfBounds),
    {
        if self.sp <= 0 {
            Err(VmError::StackOverflow)
        } else if self.sp > 1024 {
            Err(VmError::OutOfBounds)
        } else {
            let idx: usize = (self.sp - 1) as usize;
            self.ram.set(idx, word);
            self.sp = self.sp - 1;
            Ok(())
        }
    }

    /// Load a program given as words, the magic header word first. The body
    /// words fill memory from index 0; memory past the body keeps its old
    /// contents; PC becomes 0 and the stack empty. Fails with `BadMagic`
    /// when the first word is missing or wrong, and with `Truncated` when
    /// the body has more words than memory holds.
    pub fn load(&mut self, program: &[u32]) -> (r: Result<(), VmError>)
        requires
            old(self)@.wf(),
        ensures
            final(self)@.wf(),
            r is Ok <==> load_ok(program@),
            load_ok(program@) ==> final(self)@ == spec_load(old(self)@, program@),
            !load_ok(program@) ==> final(self)@ == old(self)@,
            program@.len() == 0 || (program@.len() >= 1 && program@[0] != MAGIC_WORD)
                ==> r == Result::<(), VmError>::Err(VmError::BadMagic),
            program@.len() >= 1 && program@[0] == MAGIC_WORD && program@.len() - 1 > MEM_WORDS
                ==> r == Result::<(), VmError>::Err(VmError::Truncated),
    {
        let n = program.len();
        if n == 0 {
            return Err(VmError::BadMagic);
        }
        if program[0] != MAGIC_WORD {
            return Err(VmError::BadMagic);
        }
        if n - 1 > MEM_WORDS {
            return Err(VmError::Truncated);
        }
        let mut i: usize = 0;
        while i < n - 1
            invariant
                old(self)@.wf(),
                self@.wf(),
                n == program@.len(),
                1 <= n,
                n - 1 <= MEM_WORDS,
                i <= n - 1,
                self@.sp == old(self)@.sp,
                self@.pc == old(self)@.pc,
                forall|j: int| 0 <= j < i ==> self@.ram[j] == program@[j + 1],
                forall|j: int| i <= j < MEM_WORDS ==> self@.ram[j] == old(self)@.ram[j],
            decreases n - 1 - i,
        {
            let w = program[i + 1];
            self.ram.set(i, w);
            i = i + 1;
        }
        self.sp = 1024;
        self.pc = 0;
        proof {
            assert(self@.ram =~= spec_load(old(self)@, program@).ram);
        }
        Ok(())
    }

    /// Load a program from its byte image: the four magic bytes `DE AD BE
    /// EF`, then the body, each four bytes one little-endian word. Word
    /// `i` of memory gets body bytes `4i..4i+4`; PC becomes 0 and the
    /// stack empty. Fails with `BadMagic` when the header is short or
    /// wrong, and with `Truncated` when the body is not whole words or
    /// holds more words than memory.
    pub fn load_image(&mut self, bytes: &[u8]) -> (r: Result<(), VmError>)
        requires
            old(self)@.wf(),
        ensures
            final(self)@.wf(),
            r is Ok <==> image_ok(bytes@),
            image_ok(bytes@) ==> final(self)@ == spec_load_image(old(self)@, bytes@),
            !image_ok(bytes@) ==> final(self)@ == old(self)@,
            bytes@.len() < 4 || !(bytes@[0] == 0xde && bytes@[1] == 0xad && bytes@[2] == 0xbe
                && bytes@[3] == 0xef) ==> r == Result::<(), VmError>::Err(VmError::BadMagic),
            bytes@.len() >= 4 && bytes@[0] == 0xde && bytes@[1] == 0xad && bytes@[2] == 0xbe
                && bytes@[3] == 0xef && ((bytes@.len() - 4) % 4 != 0 || (bytes@.len() - 4) / 4
                > MEM_WORDS) ==> r == Result::<(), VmError>::Err(VmError::Truncated),
    {
        let len = bytes.len();
        if len < 4 {
            return Err(VmError::BadMagic);
        }
        if !(bytes[0] == 0xde && bytes[1] == 0xad && bytes[2] == 0xbe && bytes[3] == 0xef) {
            return Err(VmError::BadMagic);
        }
        if (len - 4) % 4 != 0 {
            return Err(VmError::Truncated);
        }
        let n = (len - 4) / 4;
        if n > MEM_WORDS {
            return Err(VmError::Truncated);
        }
        proof {
            vstd::arithmetic::div_mod::lemma_fundamental_div_mod(len - 4, 4);
        }
        let mut i: usize = 0;
        while i < n
            invariant
                old(self)@.wf(),
                self@.wf(),
                len == bytes@.len(),
                n == (len - 4) / 4,
                len - 4 == 4 * n,
                n <= MEM_WORDS,
                i <= n,
                self@.sp == old(self)@.sp,
                self@.pc == old(self)@.pc,
                forall|j: int|
                    0 <= j < i ==> self@.ram[j] == le_word(
                        bytes@[4 + 4 * j],
                        bytes@[5 + 4 * j],
                        bytes@[6 + 4 * j],
                        bytes@[7 + 4 * j],
                    ),
                forall|j: int| i <= j < MEM_WORDS ==> self@.ram[j] == old(self)@.ram[j],
            decreases n - i,
        {
            let b0 = bytes[4 + 4 * i] as u32;
            let b1 = bytes[5 + 4 * i] as u32;
            let b2 = bytes[6 + 4 * i] as u32;
            let b3 = bytes[7 + 4 * i] as u32;
            let w: u32 = b0 + b1 * 0x100 + b2 * 0x1_0000 + b3 * 0x100_0000;
            self.ram.set(i, w);
            i = i + 1;
        }
        self.sp = 1024;
        self.pc = 0;
        proof {
            assert(self@.ram =~= spec_load_image(old(self)@, bytes@).ram);
        }
        Ok(())
    }
}

} // verus!
