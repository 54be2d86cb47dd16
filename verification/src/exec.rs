//! The executor: the semantics of each instruction variant as a spec-level
//! step function, and the verified implementation that the host drives.
//!
//! A step that needs the host — bytes to write, or a line to read — hands
//! back a [`StepEvent`]; the machine state itself never touches a stream.

use vstd::prelude::*;

use crate::decode::lemma_stinput_max_bound;
use crate::decode::Instruction;
use crate::machine::advance;
use crate::machine::can_push;
use crate::machine::spec_fetch;
use crate::machine::spec_push;
use crate::machine::Machine;
use crate::machine::MachineView;
use crate::numfmt::debug_line;
use crate::numfmt::dump_line;
use crate::numfmt::extend_bytes;
use crate::numfmt::print_line;
use crate::numfmt::spec_debug_line;
use crate::numfmt::spec_dump_line;
use crate::numfmt::spec_print_line;
use crate::numparse::parse_input;
use crate::numparse::spec_parse_input;
use crate::strings::pack_mem;
use crate::strings::pack_string;
use crate::strings::spec_trim;
use crate::strings::stprint_collect;
use crate::strings::stprint_ok;
use crate::strings::stprint_text;
use crate::strings::trim;
use crate::words::add32;
use crate::words::alu_add;
use crate::words::alu_asr;
use crate::words::alu_div;
use crate::words::alu_lsl;
use crate::words::alu_lsr;
use crate::words::alu_mul;
use crate::words::alu_neg;
use crate::words::alu_rem;
use crate::words::alu_sub;
use crate::words::as_signed;
use crate::words::asr32;
use crate::words::div32;
use crate::words::lsl32;
use crate::words::lsr32;
use crate::words::mul32;
use crate::words::neg32;
use crate::words::off_to_i16;
use crate::words::rem32;
use crate::words::signed_to_word;
use crate::words::sub32;
use crate::words::to_i16;
use crate::words::to_signed;
use crate::words::word_to_i16;
use crate::words::wrap_i16;
use crate::words::wrap_u32;
use crate::MEM_WORDS;
use crate::VmError;

verus! {

/// What one execution step asks of the host.
#[derive(Debug)]
pub enum StepEvent {
    /// The step completed; fetch the next instruction.
    Running,
    /// The program halted with this exit code.
    Halted(u8),
    /// Write these bytes to the output stream, then continue.
    Output(Vec<u8>),
    /// Write these bytes to the debug stream, then continue.
    DebugLine(Vec<u8>),
    /// Read one input line and hand it to `provide_line`, then continue.
    AwaitLine,
}

/// The outcome one step has according to the semantics: the next state,
/// together with what the host must do.
pub enum SpecStep {
    /// The machine keeps running in this state.
    Run(MachineView),
    /// The machine keeps running and these bytes go to the output stream.
    Emit(MachineView, Seq<u8>),
    /// The machine keeps running and these bytes go to the debug stream.
    EmitDebug(MachineView, Seq<u8>),
    /// The machine waits for one input line; nothing changes yet.
    Await,
    /// The program halted with this exit code; nothing changes.
    Halt(u8),
    /// The step faulted; nothing changes.
    Fail(VmError),
}

/// Whether an instruction is a two-operand ALU operation.
pub open spec fn is_binop(i: Instruction) -> bool {
    ||| i == Instruction::Add
    ||| i == Instruction::Sub
    ||| i == Instruction::Mul
    ||| i == Instruction::Div
    ||| i == Instruction::Rem
    ||| i == Instruction::And
    ||| i == Instruction::Or
    ||| i == Instruction::Xor
    ||| i == Instruction::Lsl
    ||| i == Instruction::Lsr
    ||| i == Instruction::Asr
}

/// The value a two-operand ALU operation pushes; `a` is the deeper
/// operand, `b` the top of the stack.
pub open spec fn binop_val(i: Instruction, a: u32, b: u32) -> u32 {
    match i {
        Instruction::Add => add32(a, b),
        Instruction::Sub => sub32(a, b),
        Instruction::Mul => mul32(a, b),
        Instruction::Div => div32(a, b),
        Instruction::Rem => rem32(a, b),
        Instruction::And => a & b,
        Instruction::Or => a | b,
        Instruction::Xor => a ^ b,
        Instruction::Lsl => lsl32(a, b),
        Instruction::Lsr => lsr32(a, b),
        Instruction::Asr => asr32(a, b),
        _ => 0,
    }
}

/// The value a one-operand ALU operation pushes.
pub open spec fn unop_val(i: Instruction, a: u32) -> u32 {
    match i {
        Instruction::Neg => neg32(a),
        Instruction::Not => !a,
        _ => 0,
    }
}

/// Whether an instruction is a two-operand conditional branch.
pub open spec fn is_binif(i: Instruction) -> bool {
    ||| i matches Instruction::IfEq(_)
    ||| i matches Instruction::IfNe(_)
    ||| i matches Instruction::IfLt(_)
    ||| i matches Instruction::IfGt(_)
    ||| i matches Instruction::IfLe(_)
    ||| i matches Instruction::IfGe(_)
}

/// The comparison a two-operand branch tests; inequalities read the
/// operands as signed.
pub open spec fn binif_cond(i: Instruction, a: u32, b: u32) -> bool {
    match i {
        Instruction::IfEq(_) => a == b,
        Instruction::IfNe(_) => a != b,
        Instruction::IfLt(_) => as_signed(a) < as_signed(b),
        Instruction::IfGt(_) => as_signed(a) > as_signed(b),
        Instruction::IfLe(_) => as_signed(a) <= as_signed(b),
        Instruction::IfGe(_) => as_signed(a) >= as_signed(b),
        _ => false,
    }
}

/// The byte offset a two-operand branch jumps by.
pub open spec fn binif_off(i: Instruction) -> i32 {
    match i {
        Instruction::IfEq(off) => off,
        Instruction::IfNe(off) => off,
        Instruction::IfLt(off) => off,
        Instruction::IfGt(off) => off,
        Instruction::IfLe(off) => off,
        Instruction::IfGe(off) => off,
        _ => 0,
    }
}

/// Whether an instruction is a one-operand conditional branch.
pub open spec fn is_unif(i: Instruction) -> bool {
    ||| i matches Instruction::EqZero(_)
    ||| i matches Instruction::NeZero(_)
    ||| i matches Instruction::LtZero(_)
    ||| i matches Instruction::GeZero(_)
}

/// The test a one-operand branch applies to the top of the stack.
pub open spec fn unif_cond(i: Instruction, v: u32) -> bool {
    match i {
        Instruction::EqZero(_) => v == 0,
        Instruction::NeZero(_) => v != 0,
        Instruction::LtZero(_) => as_signed(v) < 0,
        Instruction::GeZero(_) => as_signed(v) >= 0,
        _ => false,
    }
}

/// The byte offset a one-operand branch jumps by.
pub open spec fn unif_off(i: Instruction) -> i32 {
    match i {
        Instruction::EqZero(off) => off,
        Instruction::NeZero(off) => off,
        Instruction::LtZero(off) => off,
        Instruction::GeZero(off) => off,
        _ => 0,
    }
}

/// The branch target: the byte offset is shifted to words, truncated to
/// the 16-bit register width, and added to the pre-advance PC.
pub open spec fn pc_jump(pc: int, off: i32) -> int {
    wrap_i16(pc + to_i16((off >> 2) as int))
}

/// The error a failing push raises: the stack is either full or its
/// pointer is already past the empty mark.
pub open spec fn push_fail_err(m: MachineView) -> VmError {
    if m.sp <= 0 {
        VmError::StackOverflow
    } else {
        VmError::OutOfBounds
    }
}

/// The stack-dump text: one line per word from index `i` to the end of
/// memory.
pub open spec fn spec_dump(ram: Seq<u32>, i: int) -> Seq<u8>
    decreases MEM_WORDS - i,
{
    if i < 0 || i >= MEM_WORDS {
        Seq::empty()
    } else {
        spec_dump_line(i as u32, ram[i]) + spec_dump(ram, i + 1)
    }
}

/// The semantics of one decoded instruction against a machine state: the
/// next state and what the host must do, or the fault that aborts the
/// step with the state unchanged.
pub open spec fn spec_exec(m: MachineView, i: Instruction) -> SpecStep {
    if is_binop(i) {
        if 0 <= m.sp && m.sp + 1 < MEM_WORDS {
            let b = m.ram[m.sp];
            let a = m.ram[m.sp + 1];
            SpecStep::Run(
                advance(
                    MachineView {
                        ram: m.ram.update(m.sp + 1, binop_val(i, a, b)),
                        sp: m.sp + 1,
                        pc: m.pc,
                    },
                ),
            )
        } else {
            SpecStep::Fail(VmError::OutOfBounds)
        }
    } else if i == Instruction::Neg || i == Instruction::Not {
        if 0 <= m.sp < MEM_WORDS {
            let a = m.ram[m.sp];
            SpecStep::Run(
                advance(
                    MachineView { ram: m.ram.update(m.sp, unop_val(i, a)), sp: m.sp, pc: m.pc },
                ),
            )
        } else {
            SpecStep::Fail(VmError::OutOfBounds)
        }
    } else if is_binif(i) {
        if 0 <= m.sp && m.sp + 1 < MEM_WORDS {
            let b = m.ram[m.sp];
            let a = m.ram[m.sp + 1];
            if binif_cond(i, a, b) {
                SpecStep::Run(
                    MachineView { ram: m.ram, sp: m.sp, pc: pc_jump(m.pc, binif_off(i)) },
                )
            } else {
                SpecStep::Run(advance(m))
            }
        } else {
            SpecStep::Fail(VmError::OutOfBounds)
        }
    } else if is_unif(i) {
        if 0 <= m.sp < MEM_WORDS {
            let v = m.ram[m.sp];
            if unif_cond(i, v) {
                SpecStep::Run(
                    MachineView { ram: m.ram, sp: m.sp, pc: pc_jump(m.pc, unif_off(i)) },
                )
            } else {
                SpecStep::Run(advance(m))
            }
        } else {
            SpecStep::Fail(VmError::OutOfBounds)
        }
    } else {
        match i {
            Instruction::Exit(code) => SpecStep::Halt(code),
            Instruction::Swap(from, to) => {
                let fi = m.sp + (from >> 2);
                let ti = m.sp + (to >> 2);
                if 0 <= fi < MEM_WORDS && 0 <= ti < MEM_WORDS {
                    SpecStep::Run(
                        advance(
                            MachineView {
                                ram: m.ram.update(fi, m.ram[ti]).update(ti, m.ram[fi]),
                                sp: m.sp,
                                pc: m.pc,
                            },
                        ),
                    )
                } else {
                    SpecStep::Fail(VmError::OutOfBounds)
                }
            },
            Instruction::Nop => SpecStep::Run(advance(m)),
            Instruction::Input => SpecStep::Await,
            Instruction::Stinput(_) => SpecStep::Await,
            Instruction::DebugOut(v) => SpecStep::EmitDebug(advance(m), spec_debug_line(v)),
            Instruction::Pop(off) => {
                let t = m.sp + ((off >> 2) as int);
                let sp2: int = if t > MEM_WORDS {
                    MEM_WORDS as int
                } else if t < 0 {
                    0
                } else {
                    t
                };
                SpecStep::Run(MachineView { ram: m.ram, sp: sp2, pc: wrap_i16(m.pc + 1) })
            },
            Instruction::Stprint(off) => {
                let start = m.sp + ((off >> 2) as int);
                if stprint_ok(m.ram, start) {
                    SpecStep::Emit(advance(m), stprint_text(m.ram, start))
                } else {
                    SpecStep::Fail(VmError::OutOfBounds)
                }
            },
            Instruction::Call(off) => {
                if can_push(m) {
                    let m2 = spec_push(m, wrap_u32(m.pc + 1));
                    SpecStep::Run(
                        MachineView { ram: m2.ram, sp: m2.sp, pc: pc_jump(m.pc, off) },
                    )
                } else {
                    SpecStep::Fail(push_fail_err(m))
                }
            },
            Instruction::Return(off) => {
                if 0 <= m.sp < MEM_WORDS {
                    let ret = m.ram[m.sp];
                    SpecStep::Run(
                        MachineView {
                            ram: m.ram,
                            sp: wrap_i16(m.sp + wrap_i16(to_i16((off >> 2) as int) + 1)),
                            pc: to_i16(ret as int),
                        },
                    )
                } else {
                    SpecStep::Fail(VmError::OutOfBounds)
                }
            },
            Instruction::Goto(off) => SpecStep::Run(
                MachineView { ram: m.ram, sp: m.sp, pc: pc_jump(m.pc, off) },
            ),
            Instruction::Dup(off) => {
                let idx = m.sp + ((off >> 2) as int);
                if !(0 <= idx < MEM_WORDS) {
                    SpecStep::Fail(VmError::OutOfBounds)
                } else if can_push(m) {
                    SpecStep::Run(advance(spec_push(m, m.ram[idx])))
                } else {
                    SpecStep::Fail(push_fail_err(m))
                }
            },
            Instruction::Print(off, fmt) => {
                let idx = m.sp + off;
                if 0 <= idx < MEM_WORDS {
                    SpecStep::Emit(advance(m), spec_print_line(m.ram[idx], fmt))
                } else {
                    SpecStep::Fail(VmError::OutOfBounds)
                }
            },
            Instruction::Dump => {
                if m.sp >= 0 {
                    SpecStep::Emit(advance(m), spec_dump(m.ram, m.sp))
                } else {
                    SpecStep::Fail(VmError::OutOfBounds)
                }
            },
            Instruction::Push(v) => {
                if can_push(m) {
                    SpecStep::Run(advance(spec_push(m, v)))
                } else {
                    SpecStep::Fail(push_fail_err(m))
                }
            },
            _ => SpecStep::Fail(VmError::DecoderError),
        }
    }
}

/// Whether an executed step and the state it left behind agree with what
/// the semantics prescribe.
pub open spec fn event_matches(
    pre: MachineView,
    s: SpecStep,
    post: MachineView,
    r: Result<StepEvent, VmError>,
) -> bool {
    match s {
        SpecStep::Run(m2) => post == m2 && r == Result::<StepEvent, VmError>::Ok(
            StepEvent::Running,
        ),
        SpecStep::Emit(m2, bytes) => post == m2 && (r matches Ok(ev) && (ev matches
            StepEvent::Output(v) && v@ == bytes)),
        SpecStep::EmitDebug(m2, bytes) => post == m2 && (r matches Ok(ev) && (ev matches
            StepEvent::DebugLine(v) && v@ == bytes)),
        SpecStep::Await => post == pre && r == Result::<StepEvent, VmError>::Ok(
            StepEvent::AwaitLine,
        ),
        SpecStep::Halt(code) => post == pre && r == Result::<StepEvent, VmError>::Ok(
            StepEvent::Halted(code),
        ),
        SpecStep::Fail(e) => post == pre && r == Result::<StepEvent, VmError>::Err(e),
    }
}

/// The text an `Stinput` instruction stores: the line trimmed, then cut
/// to the character count.
pub open spec fn spec_stinput_text(line: Seq<u8>, max: u32) -> Seq<u8> {
    let t0 = spec_trim(line);
    if t0.len() > max {
        t0.subrange(0, max as int)
    } else {
        t0
    }
}

/// The state after a non-empty packed string is pushed: its words fill
/// the slots just below the old SP, word `j` of the packing at
/// `SP - len + j`.
pub open spec fn place_words(m: MachineView, ws: Seq<u32>) -> MachineView {
    MachineView {
        ram: Seq::new(
            MEM_WORDS as nat,
            |i: int|
                if m.sp - ws.len() <= i < m.sp {
                    ws[i - (m.sp - ws.len())]
                } else {
                    m.ram[i]
                },
        ),
        sp: m.sp - ws.len(),
        pc: m.pc,
    }
}

/// What handing one input line to the machine does. The instruction at PC
/// must be `Input` or `Stinput`; anything else is refused as a decoder
/// error. `Input` parses the trimmed line and pushes one word; `Stinput`
/// packs the trimmed, truncated line and pushes its words, or one zero
/// word for an empty line. PC advances past the instruction on success.
pub open spec fn spec_provide(m: MachineView, line: Seq<u8>) -> Result<MachineView, VmError> {
    match spec_fetch(m) {
        Err(e) => Err(e),
        Ok(i) => match i {
            Instruction::Input => {
                match spec_parse_input(spec_trim(line)) {
                    None => Err(VmError::ParseError),
                    Some(w) => if can_push(m) {
                        Ok(advance(spec_push(m, w)))
                    } else {
                        Err(push_fail_err(m))
                    },
                }
            },
            Instruction::Stinput(max) => {
                let t = spec_stinput_text(line, max);
                if t.len() == 0 {
                    if can_push(m) {
                        Ok(advance(spec_push(m, 0u32)))
                    } else {
                        Err(push_fail_err(m))
                    }
                } else {
                    let ws = pack_mem(t);
                    if m.sp > MEM_WORDS {
                        Err(VmError::OutOfBounds)
                    } else if m.sp < ws.len() {
                        Err(VmError::StackOverflow)
                    } else {
                        Ok(advance(place_words(m, ws)))
                    }
                }
            },
            _ => Err(VmError::DecoderError),
        },
    }
}

/// Apply a two-operand ALU operation.
fn binop_apply(i: Instruction, a: u32, b: u32) -> (r: u32)
    requires
        is_binop(i),
    ensures
        r == binop_val(i, a, b),
{
    match i {
        Instruction::Add => alu_add(a, b),
        Instruction::Sub => alu_sub(a, b),
        Instruction::Mul => alu_mul(a, b),
        Instruction::Div => alu_div(a, b),
        Instruction::Rem => alu_rem(a, b),
        Instruction::And => a & b,
        Instruction::Or => a | b,
        Instruction::Xor => a ^ b,
        Instruction::Lsl => alu_lsl(a, b),
        Instruction::Lsr => alu_lsr(a, b),
        Instruction::Asr => alu_asr(a, b),
        _ => 0,
    }
}

/// Evaluate the comparison of a two-operand branch.
fn binif_check(i: Instruction, a: u32, b: u32) -> (r: bool)
    requires
        is_binif(i),
    ensures
        r == binif_cond(i, a, b),
{
    let sa = to_signed(a);
    let sb = to_signed(b);
    match i {
        Instruction::IfEq(_) => a == b,
        Instruction::IfNe(_) => a != b,
        Instruction::IfLt(_) => sa < sb,
        Instruction::IfGt(_) => sa > sb,
        Instruction::IfLe(_) => sa <= sb,
        Instruction::IfGe(_) => sa >= sb,
        _ => false,
    }
}

/// Evaluate the test of a one-operand branch.
fn unif_check(i: Instruction, v: u32) -> (r: bool)
    requires
        is_unif(i),
    ensures
        r == unif_cond(i, v),
{
    match i {
        Instruction::EqZero(_) => v == 0,
        Instruction::NeZero(_) => v != 0,
        Instruction::LtZero(_) => to_signed(v) < 0,
        Instruction::GeZero(_) => to_signed(v) >= 0,
        _ => false,
    }
}

impl Machine {
    /// Execute one decoded instruction against the current state, moving
    /// PC as the variant prescribes. A fault leaves the state untouched.
    pub fn exec_instr(&mut self, instr: Instruction) -> (r: Result<StepEvent, VmError>)
        requires
            old(self)@.wf(),
        ensures
            final(self)@.wf(),
            event_matches(old(self)@, spec_exec(old(self)@, instr), final(self)@, r),
    {
        match instr {
            Instruction::Exit(code) => Ok(StepEvent::Halted(code)),
            Instruction::Swap(from, to) => {
                let fw: i16 = from >> 2;
                let tw: i16 = to >> 2;
                let fi: i32 = self.sp as i32 + fw as i32;
                let ti: i32 = self.sp as i32 + tw as i32;
                if fi < 0 || fi >= 1024 || ti < 0 || ti >= 1024 {
                    return Err(VmError::OutOfBounds);
                }
                let ghost pre = self@.ram;
                let tmp = self.ram[fi as usize];
                let other = self.ram[ti as usize];
                self.ram.set(fi as usize, other);
                self.ram.set(ti as usize, tmp);
                proof {
                    assert(self@.ram =~= pre.update(fi as int, pre[ti as int]).update(
                        ti as int,
                        pre[fi as int],
                    ));
                }
                self.step();
                Ok(StepEvent::Running)
            },
            Instruction::Nop => {
                self.step();
                Ok(StepEvent::Running)
            },
            Instruction::Input => Ok(StepEvent::AwaitLine),
            Instruction::Stinput(_) => Ok(StepEvent::AwaitLine),
            Instruction::DebugOut(v) => {
                let line = debug_line(v);
                self.step();
                Ok(StepEvent::DebugLine(line))
            },
            Instruction::Pop(off) => {
                let d: u32 = off >> 2;
                let t: i64 = self.sp as i64 + d as i64;
                let ns: i16 = if t > 1024 {
                    1024
                } else if t < 0 {
                    0
                } else {
                    t as i16
                };
                self.sp = ns;
                self.step();
                Ok(StepEvent::Running)
            },
            Instruction::Add
            | Instruction::Sub
            | Instruction::Mul
            | Instruction::Div
            | Instruction::Rem
            | Instruction::And
            | Instruction::Or
            | Instruction::Xor
            | Instruction::Lsl
            | Instruction::Lsr
            | Instruction::Asr => {
                if self.sp < 0 || self.sp >= 1023 {
                    return Err(VmError::OutOfBounds);
                }
                let b = self.ram[self.sp as usize];
                let a = self.ram[(self.sp + 1) as usize];
                let v = binop_apply(instr, a, b);
                self.ram.set((self.sp + 1) as usize, v);
                self.sp = self.sp + 1;
                self.step();
                Ok(StepEvent::Running)
            },
            Instruction::Neg | Instruction::Not => {
                if self.sp < 0 || self.sp >= 1024 {
                    return Err(VmError::OutOfBounds);
                }
                let a = self.ram[self.sp as usize];
                let v = if matches!(instr, Instruction::Neg) {
                    alu_neg(a)
                } else {
                    !a
                };
                self.ram.set(self.sp as usize, v);
                self.step();
                Ok(StepEvent::Running)
            },
            Instruction::Stprint(off) => {
                proof {
                    crate::words::lemma_asr2_bounds(off);
                }
                let d: i32 = off >> 2;
                let start: i32 = self.sp as i32 + d;
                match stprint_collect(&self.ram, start) {
                    Ok(text) => {
                        self.step();
                        Ok(StepEvent::Output(text))
                    },
                    Err(e) => Err(e),
                }
            },
            Instruction::Call(off) => {
                let ret: u32 = signed_to_word(self.pc as i32 + 1);
                self.push(ret)?;
                let dlt = off_to_i16(off >> 2);
                self.move_pc(dlt);
                Ok(StepEvent::Running)
            },
            Instruction::Return(off) => {
                if self.sp < 0 || self.sp >= 1024 {
                    return Err(VmError::OutOfBounds);
                }
                let ret = self.ram[self.sp as usize];
                let rpc: i16 = word_to_i16(ret);
                let dlt: i16 = off_to_i16(off >> 2);
                self.sp = self.sp.wrapping_add(dlt.wrapping_add(1));
                self.pc = rpc;
                Ok(StepEvent::Running)
            },
            Instruction::Goto(off) => {
                let dlt = off_to_i16(off >> 2);
                self.move_pc(dlt);
                Ok(StepEvent::Running)
            },
            Instruction::IfEq(off)
            | Instruction::IfNe(off)
            | Instruction::IfLt(off)
            | Instruction::IfGt(off)
            | Instruction::IfLe(off)
            | Instruction::IfGe(off) => {
                if self.sp < 0 || self.sp >= 1023 {
                    return Err(VmError::OutOfBounds);
                }
                let b = self.ram[self.sp as usize];
                let a = self.ram[(self.sp + 1) as usize];
                if binif_check(instr, a, b) {
                    let dlt = off_to_i16(off >> 2);
                    self.move_pc(dlt);
                } else {
                    self.step();
                }
                Ok(StepEvent::Running)
            },
            Instruction::EqZero(off)
            | Instruction::NeZero(off)
            | Instruction::LtZero(off)
            | Instruction::GeZero(off) => {
                if self.sp < 0 || self.sp >= 1024 {
                    return Err(VmError::OutOfBounds);
                }
                let v = self.ram[self.sp as usize];
                if unif_check(instr, v) {
                    let dlt = off_to_i16(off >> 2);
                    self.move_pc(dlt);
                } else {
                    self.step();
                }
                Ok(StepEvent::Running)
            },
            Instruction::Dup(off) => {
                let d: i32 = off >> 2;
                let idx: i64 = self.sp as i64 + d as i64;
                if idx < 0 || idx >= 1024 {
                    return Err(VmError::OutOfBounds);
                }
                let val = self.ram[idx as usize];
                self.push(val)?;
                self.step();
                Ok(StepEvent::Running)
            },
            Instruction::Print(off, fmt) => {
                let idx: i64 = self.sp as i64 + off as i64;
                if idx < 0 || idx >= 1024 {
                    return Err(VmError::OutOfBounds);
                }
                let w = self.ram[idx as usize];
                let line = print_line(w, fmt);
                self.step();
                Ok(StepEvent::Output(line))
            },
            Instruction::Dump => {
                if self.sp < 0 {
                    return Err(VmError::OutOfBounds);
                }
                let ghost sp0 = self@.sp;
                let mut out: Vec<u8> = Vec::new();
                let mut i: usize = self.sp as usize;
                while i < 1024
                    invariant
                        self@.wf(),
                        0 <= sp0 <= i,
                        self@.sp == sp0,
                        spec_dump(self@.ram, sp0) == out@ + spec_dump(self@.ram, i as int),
                    decreases 1024 - i,
                {
                    let ghost pre = out@;
                    let line = dump_line(i as u32, self.ram[i]);
                    extend_bytes(&mut out, &line);
                    proof {
                        assert(spec_dump(self@.ram, i as int) == spec_dump_line(
                            i as u32,
                            self@.ram[i as int],
                        ) + spec_dump(self@.ram, i + 1));
                        assert(spec_dump(self@.ram, sp0) =~= out@ + spec_dump(
                            self@.ram,
                            i + 1,
                        ));
                    }
                    i = i + 1;
                }
                proof {
                    assert(spec_dump(self@.ram, i as int) =~= Seq::<u8>::empty());
                    assert(out@ =~= spec_dump(self@.ram, sp0));
                }
                self.step();
                Ok(StepEvent::Output(out))
            },
            Instruction::Push(v) => {
                self.push(v)?;
                self.step();
                Ok(StepEvent::Running)
            },
        }
    }

    /// Take one step: fetch and decode the instruction at PC, then
    /// execute it. A fault of any kind leaves the state untouched.
    pub fn step_event(&mut self) -> (r: Result<StepEvent, VmError>)
        requires
            old(self)@.wf(),
        ensures
            final(self)@.wf(),
            spec_fetch(old(self)@) matches Err(e) ==> r == Result::<StepEvent, VmError>::Err(e)
                && final(self)@ == old(self)@,
            spec_fetch(old(self)@) matches Ok(i) ==> event_matches(
                old(self)@,
                spec_exec(old(self)@, i),
                final(self)@,
                r,
            ),
    {
        let instr = match self.fetch() {
            Ok(i) => i,
            Err(e) => {
                return Err(e);
            },
        };
        self.exec_instr(instr)
    }

    /// Hand the machine the input line a pending `Input` or `Stinput`
    /// asked for, completing that instruction.
    pub fn provide_line(&mut self, line: &[u8]) -> (r: Result<(), VmError>)
        requires
            old(self)@.wf(),
        ensures
            final(self)@.wf(),
            spec_provide(old(self)@, line@) matches Ok(m2) ==> r is Ok && final(self)@ == m2,
            spec_provide(old(self)@, line@) matches Err(e) ==> r == Result::<(), VmError>::Err(e)
                && final(self)@ == old(self)@,
    {
        let instr = match self.fetch() {
            Ok(i) => i,
            Err(e) => {
                return Err(e);
            },
        };
        match instr {
            Instruction::Input => {
                let t = trim(line);
                let w = match parse_input(t.as_slice()) {
                    Some(w) => w,
                    None => {
                        return Err(VmError::ParseError);
                    },
                };
                self.push(w)?;
                self.step();
                Ok(())
            },
            Instruction::Stinput(max) => {
                proof {
                    lemma_stinput_max_bound(old(self)@.ram[old(self)@.pc]);
                }
                let mut t = trim(line);
                if t.len() > max as usize {
                    t.truncate(max as usize);
                }
                proof {
                    assert(t@ == spec_stinput_text(line@, max));
                }
                if t.len() == 0 {
                    self.push(0)?;
                    self.step();
                    return Ok(());
                }
                let k = (t.len() + 2) / 3;
                proof {
                    assert(pack_mem(t@).len() == k);
                }
                if self.sp > 1024 {
                    return Err(VmError::OutOfBounds);
                }
                if (self.sp as i64) < (k as i64) {
                    return Err(VmError::StackOverflow);
                }
                let ws = pack_string(t.as_slice());
                let kk = ws.len();
                let ghost m0 = self@;
                let mut idx: usize = 0;
                while idx < kk
                    invariant
                        self@.wf(),
                        ws@ == pack_mem(t@),
                        kk == ws@.len(),
                        1 <= kk <= m0.sp <= 1024,
                        idx <= kk,
                        self@.sp == m0.sp - idx,
                        self@.pc == m0.pc,
                        forall|j: int|
                            m0.sp - idx <= j < m0.sp ==> self@.ram[j] == ws@[j - (m0.sp
                                - kk)],
                        forall|j: int|
                            (0 <= j < m0.sp - idx || m0.sp <= j < MEM_WORDS) ==> self@.ram[j]
                                == m0.ram[j],
                    decreases kk - idx,
                {
                    let wd = ws[kk - 1 - idx];
                    self.push(wd)?;
                    idx = idx + 1;
                }
                self.step();
                proof {
                    assert(self@.ram =~= place_words(m0, ws@).ram);
                }
                Ok(())
            },
            _ => Err(VmError::DecoderError),
        }
    }
}

} // verus!
