//! The decoder: a pure function from a 32-bit instruction word to a tagged
//! instruction variant.
//!
//! The primary opcode is the top four bits of the word. Sub-fields refine
//! it: a 4-bit `func4` for miscellaneous and arithmetic families, a 3-bit
//! or 2-bit selector for the conditional branches, and immediates of 12, 24
//! or 28 bits that are sign-extended where the encoding calls for it.

use vstd::prelude::*;

use crate::VmError;

verus! {

/// The fourteen primary opcode families. The values 0xA and 0xB between
/// `UnaryIf` and `Dup` are reserved; decoding them is a fatal error.
#[derive(Clone, Copy, Debug, PartialEq, Eq, Structural)]
pub enum Opcode {
    Miscellaneous,
    Pop,
    BinaryArithmetic,
    UnaryArithmetic,
    StringPrint,
    Call,
    Return,
    Goto,
    BinaryIf,
    UnaryIf,
    Dup,
    Print,
    Dump,
    Push,
}

/// Which family a 4-bit primary opcode value selects, if any.
pub open spec fn spec_opcode(val: u8) -> Option<Opcode> {
    if val == 0x0 {
        Some(Opcode::Miscellaneous)
    } else if val == 0x1 {
        Some(Opcode::Pop)
    } else if val == 0x2 {
        Some(Opcode::BinaryArithmetic)
    } else if val == 0x3 {
        Some(Opcode::UnaryArithmetic)
    } else if val == 0x4 {
        Some(Opcode::StringPrint)
    } else if val == 0x5 {
        Some(Opcode::Call)
    } else if val == 0x6 {
        Some(Opcode::Return)
    } else if val == 0x7 {
        Some(Opcode::Goto)
    } else if val == 0x8 {
        Some(Opcode::BinaryIf)
    } else if val == 0x9 {
        Some(Opcode::UnaryIf)
    } else if val == 0xc {
        Some(Opcode::Dup)
    } else if val == 0xd {
        Some(Opcode::Print)
    } else if val == 0xe {
        Some(Opcode::Dump)
    } else if val == 0xf {
        Some(Opcode::Push)
    } else {
        None
    }
}

impl Opcode {
    /// Map a 4-bit primary opcode value to its family; the reserved values
    /// 0xA and 0xB, and anything above 0xF, are a decoder error.
    pub fn from_integer(val: u8) -> (r: Result<Opcode, VmError>)
        ensures
            spec_opcode(val) matches Some(op) ==> r == Result::<Opcode, VmError>::Ok(op),
            spec_opcode(val) is None ==> r == Result::<Opcode, VmError>::Err(
                VmError::DecoderError,
            ),
    {
        match val {
            0x0 => Ok(Opcode::Miscellaneous),
            0x1 => Ok(Opcode::Pop),
            0x2 => Ok(Opcode::BinaryArithmetic),
            0x3 => Ok(Opcode::UnaryArithmetic),
            0x4 => Ok(Opcode::StringPrint),
            0x5 => Ok(Opcode::Call),
            0x6 => Ok(Opcode::Return),
            0x7 => Ok(Opcode::Goto),
            0x8 => Ok(Opcode::BinaryIf),
            0x9 => Ok(Opcode::UnaryIf),
            0xc => Ok(Opcode::Dup),
            0xd => Ok(Opcode::Print),
            0xe => Ok(Opcode::Dump),
            0xf => Ok(Opcode::Push),
            _ => Err(VmError::DecoderError),
        }
    }
}

/// One decoded instruction. Offsets named in bytes are byte-granular and
/// shifted right by two at execution; `Print` carries its offset already in
/// words together with a 2-bit format selector.
#[derive(Clone, Copy, Debug, PartialEq, Eq, Structural)]
pub enum Instruction {
    /// Halt with a 4-bit exit code.
    Exit(u8),
    /// Exchange two stack slots at signed 12-bit byte offsets from SP.
    Swap(i16, i16),
    /// No effect.
    Nop,
    /// Read an integer line from the input and push it.
    Input,
    /// Read a line, truncate it to the 24-bit count, pack it and push it.
    Stinput(u32),
    /// Emit the 24-bit payload on the debug stream.
    DebugOut(u32),
    /// Discard stack words: an unsigned 28-bit byte offset added to SP.
    Pop(u32),
    Add,
    Sub,
    Mul,
    Div,
    Rem,
    And,
    Or,
    Xor,
    Lsl,
    Lsr,
    Asr,
    Neg,
    Not,
    /// Print the packed string starting at a signed 28-bit byte offset.
    Stprint(i32),
    /// Push the return address and jump by a signed 28-bit byte offset.
    Call(i32),
    /// Jump to the address on the stack, then free words by the offset.
    Return(i32),
    /// Jump by a signed 28-bit byte offset.
    Goto(i32),
    IfEq(i32),
    IfNe(i32),
    IfLt(i32),
    IfGt(i32),
    IfLe(i32),
    IfGe(i32),
    EqZero(i32),
    NeZero(i32),
    LtZero(i32),
    GeZero(i32),
    /// Push a copy of the word at a signed 28-bit byte offset from SP.
    Dup(i32),
    /// Print the word at a signed word offset from SP in the given format.
    Print(i32, u8),
    /// Write every stack slot from SP to the end of memory.
    Dump,
    /// Push a sign-extended 28-bit immediate.
    Push(u32),
}

/// Sign-extend a 12-bit value.
pub open spec fn sext12(v: u32) -> i16 {
    if v >= 0x800 {
        (v - 0x1000) as i16
    } else {
        v as i16
    }
}

/// Sign-extend a 24-bit value.
pub open spec fn sext24(v: u32) -> i32 {
    if v >= 0x80_0000 {
        (v - 0x100_0000) as i32
    } else {
        v as i32
    }
}

/// Sign-extend a 28-bit value.
pub open spec fn sext28(v: u32) -> i32 {
    if v >= 0x800_0000 {
        (v - 0x1000_0000) as i32
    } else {
        v as i32
    }
}

/// Sign-extend a 28-bit value, keeping the 32-bit two's-complement bits.
pub open spec fn sext28_bits(v: u32) -> u32 {
    if v >= 0x800_0000 {
        (v + 0xf000_0000) as u32
    } else {
        v
    }
}

/// Sign-extend the 26-bit word offset of a Print instruction from its
/// highest bit.
pub open spec fn sext26(v: u32) -> i32 {
    if v >= 0x200_0000 {
        (v - 0x400_0000) as i32
    } else {
        v as i32
    }
}

/// What a 32-bit word decodes to: `None` is a decoder error.
pub open spec fn spec_decode(w: u32) -> Option<Instruction> {
    let op = w >> 28;
    if op == 0x0 {
        let func4 = (w >> 24) & 0xf;
        if func4 == 0x0 {
            Some(Instruction::Exit((w & 0xf) as u8))
        } else if func4 == 0x1 {
            Some(Instruction::Swap(sext12((w >> 12) & 0xfff), sext12(w & 0xfff)))
        } else if func4 == 0x2 {
            Some(Instruction::Nop)
        } else if func4 == 0x4 {
            Some(Instruction::Input)
        } else if func4 == 0x5 {
            Some(Instruction::Stinput(w & 0xff_ffff))
        } else if func4 == 0xf {
            Some(Instruction::DebugOut(w & 0xff_ffff))
        } else {
            None
        }
    } else if op == 0x1 {
        Some(Instruction::Pop(w & 0xfff_ffff))
    } else if op == 0x2 {
        let func4 = (w >> 24) & 0xf;
        if func4 == 0x0 {
            Some(Instruction::Add)
        } else if func4 == 0x1 {
            Some(Instruction::Sub)
        } else if func4 == 0x2 {
            Some(Instruction::Mul)
        } else if func4 == 0x3 {
            Some(Instruction::Div)
        } else if func4 == 0x4 {
            Some(Instruction::Rem)
        } else if func4 == 0x5 {
            Some(Instruction::And)
        } else if func4 == 0x6 {
            Some(Instruction::Or)
        } else if func4 == 0x7 {
            Some(Instruction::Xor)
        } else if func4 == 0x8 {
            Some(Instruction::Lsl)
        } else if func4 == 0x9 {
            Some(Instruction::Lsr)
        } else if func4 == 0xb {
            Some(Instruction::Asr)
        } else {
            None
        }
    } else if op == 0x3 {
        let func4 = (w >> 24) & 0xf;
        if func4 == 0x0 {
            Some(Instruction::Neg)
        } else if func4 == 0x1 {
            Some(Instruction::Not)
        } else {
            None
        }
    } else if op == 0x4 {
        Some(Instruction::Stprint(sext28(w & 0xfff_ffff)))
    } else if op == 0x5 {
        Some(Instruction::Call(sext28(w & 0xfff_ffff)))
    } else if op == 0x6 {
        Some(Instruction::Return(sext28(w & 0xfff_ffff)))
    } else if op == 0x7 {
        Some(Instruction::Goto(sext28(w & 0xfff_ffff)))
    } else if op == 0x8 {
        let func3 = (w >> 25) & 0x7;
        let off = sext24(w & 0xff_ffff);
        if func3 == 0x0 {
            Some(Instruction::IfEq(off))
        } else if func3 == 0x1 {
            Some(Instruction::IfNe(off))
        } else if func3 == 0x2 {
            Some(Instruction::IfLt(off))
        } else if func3 == 0x3 {
            Some(Instruction::IfGt(off))
        } else if func3 == 0x4 {
            Some(Instruction::IfLe(off))
        } else if func3 == 0x5 {
            Some(Instruction::IfGe(off))
        } else {
            None
        }
    } else if op == 0x9 {
        let func2 = (w >> 25) & 0x3;
        let off = sext24(w & 0xff_ffff);
        if func2 == 0x0 {
            Some(Instruction::EqZero(off))
        } else if func2 == 0x1 {
            Some(Instruction::NeZero(off))
        } else if func2 == 0x2 {
            Some(Instruction::LtZero(off))
        } else {
            Some(Instruction::GeZero(off))
        }
    } else if op == 0xc {
        Some(Instruction::Dup(sext28(w & 0xfff_ffff)))
    } else if op == 0xd {
        Some(Instruction::Print(sext26((w & 0xfff_ffff) >> 2), (w & 0x3) as u8))
    } else if op == 0xe {
        Some(Instruction::Dump)
    } else if op == 0xf {
        Some(Instruction::Push(sext28_bits(w & 0xfff_ffff)))
    } else {
        None
    }
}

/// Bounds of every bit field the decoder extracts.
proof fn lemma_field_bounds(w: u32)
    by (bit_vector)
    ensures
        w >> 28 < 16,
        w >> 28 == (w >> 28) & 0xf,
        (w >> 24) & 0xf < 16,
        w & 0xf < 16,
        (w >> 12) & 0xfff < 0x1000,
        w & 0xfff < 0x1000,
        w & 0xff_ffff < 0x100_0000,
        w & 0xfff_ffff < 0x1000_0000,
        (w >> 25) & 0x7 < 8,
        (w >> 25) & 0x3 < 4,
        w & 0x3 < 4,
        (w & 0xfff_ffff) >> 2 < 0x400_0000,
{
}

/// The character count of a decoded `Stinput` is a 24-bit field.
pub proof fn lemma_stinput_max_bound(w: u32)
    ensures
        spec_decode(w) matches Some(i) ==> (i matches Instruction::Stinput(max) ==> max
            < 0x100_0000),
{
    lemma_field_bounds(w);
}

/// Sign-extend a 12-bit value.
fn ext12(v: u32) -> (r: i16)
    requires
        v < 0x1000,
    ensures
        r == sext12(v),
{
    if v >= 0x800 {
        (v as i32 - 0x1000) as i16
    } else {
        v as i16
    }
}

/// Sign-extend a 24-bit value.
fn ext24(v: u32) -> (r: i32)
    requires
        v < 0x100_0000,
    ensures
        r == sext24(v),
{
    if v >= 0x80_0000 {
        (v as i64 - 0x100_0000) as i32
    } else {
        v as i32
    }
}

/// Sign-extend a 28-bit value.
fn ext28(v: u32) -> (r: i32)
    requires
        v < 0x1000_0000,
    ensures
        r == sext28(v),
{
    if v >= 0x800_0000 {
        (v as i64 - 0x1000_0000) as i32
    } else {
        v as i32
    }
}

/// Sign-extend a 28-bit value, keeping the 32-bit two's-complement bits.
fn ext28_bits(v: u32) -> (r: u32)
    requires
        v < 0x1000_0000,
    ensures
        r == sext28_bits(v),
{
    if v >= 0x800_0000 {
        v + 0xf000_0000
    } else {
        v
    }
}

/// Sign-extend a 26-bit value from its highest bit.
fn ext26(v: u32) -> (r: i32)
    requires
        v < 0x400_0000,
    ensures
        r == sext26(v),
{
    if v >= 0x200_0000 {
        (v as i64 - 0x400_0000) as i32
    } else {
        v as i32
    }
}

/// Decode one instruction word, applying the per-opcode bit-field
/// extraction and sign extension; reserved opcodes and unknown sub-fields
/// are a [`VmError::DecoderError`].
pub fn decode(w: u32) -> (r: Result<Instruction, VmError>)
    ensures
        spec_decode(w) matches Some(i) ==> r == Result::<Instruction, VmError>::Ok(i),
        spec_decode(w) is None ==> r == Result::<Instruction, VmError>::Err(
            VmError::DecoderError,
        ),
{
    proof {
        lemma_field_bounds(w);
    }
    let opcode = Opcode::from_integer(((w >> 28) & 0xf) as u8)?;
    match opcode {
        Opcode::Miscellaneous => {
            let func4 = (w >> 24) & 0xf;
            if func4 == 0x0 {
                Ok(Instruction::Exit((w & 0xf) as u8))
            } else if func4 == 0x1 {
                Ok(Instruction::Swap(ext12((w >> 12) & 0xfff), ext12(w & 0xfff)))
            } else if func4 == 0x2 {
                Ok(Instruction::Nop)
            } else if func4 == 0x4 {
                Ok(Instruction::Input)
            } else if func4 == 0x5 {
                Ok(Instruction::Stinput(w & 0xff_ffff))
            } else if func4 == 0xf {
                Ok(Instruction::DebugOut(w & 0xff_ffff))
            } else {
                Err(VmError::DecoderError)
            }
        },
        Opcode::Pop => Ok(Instruction::Pop(w & 0xfff_ffff)),
        Opcode::BinaryArithmetic => {
            let func4 = (w >> 24) & 0xf;
            if func4 == 0x0 {
                Ok(Instruction::Add)
            } else if func4 == 0x1 {
                Ok(Instruction::Sub)
            } else if func4 == 0x2 {
                Ok(Instruction::Mul)
            } else if func4 == 0x3 {
                Ok(Instruction::Div)
            } else if func4 == 0x4 {
                Ok(Instruction::Rem)
            } else if func4 == 0x5 {
                Ok(Instruction::And)
            } else if func4 == 0x6 {
                Ok(Instruction::Or)
            } else if func4 == 0x7 {
                Ok(Instruction::Xor)
            } else if func4 == 0x8 {
                Ok(Instruction::Lsl)
            } else if func4 == 0x9 {
                Ok(Instruction::Lsr)
            } else if func4 == 0xb {
                Ok(Instruction::Asr)
            } else {
                Err(VmError::DecoderError)
            }
        },
        Opcode::UnaryArithmetic => {
            let func4 = (w >> 24) & 0xf;
            if func4 == 0x0 {
                Ok(Instruction::Neg)
            } else if func4 == 0x1 {
                Ok(Instruction::Not)
            } else {
                Err(VmError::DecoderError)
            }
        },
        Opcode::StringPrint => Ok(Instruction::Stprint(ext28(w & 0xfff_ffff))),
        Opcode::Call => Ok(Instruction::Call(ext28(w & 0xfff_ffff))),
        Opcode::Return => Ok(Instruction::Return(ext28(w & 0xfff_ffff))),
        Opcode::Goto => Ok(Instruction::Goto(ext28(w & 0xfff_ffff))),
        Opcode::BinaryIf => {
            let func3 = (w >> 25) & 0x7;
            let off = ext24(w & 0xff_ffff);
            if func3 == 0x0 {
                Ok(Instruction::IfEq(off))
            } else if func3 == 0x1 {
                Ok(Instruction::IfNe(off))
            } else if func3 == 0x2 {
                Ok(Instruction::IfLt(off))
            } else if func3 == 0x3 {
                Ok(Instruction::IfGt(off))
            } else if func3 == 0x4 {
                Ok(Instruction::IfLe(off))
            } else if func3 == 0x5 {
                Ok(Instruction::IfGe(off))
            } else {
                Err(VmError::DecoderError)
            }
        },
        Opcode::UnaryIf => {
            let func2 = (w >> 25) & 0x3;
            let off = ext24(w & 0xff_ffff);
            if func2 == 0x0 {
                Ok(Instruction::EqZero(off))
            } else if func2 == 0x1 {
                Ok(Instruction::NeZero(off))
            } else if func2 == 0x2 {
                Ok(Instruction::LtZero(off))
            } else {
                Ok(Instruction::GeZero(off))
            }
        },
        Opcode::Dup => Ok(Instruction::Dup(ext28(w & 0xfff_ffff))),
        Opcode::Print => Ok(Instruction::Print(ext26((w & 0xfff_ffff) >> 2), (w & 0x3) as u8)),
        Opcode::Dump => Ok(Instruction::Dump),
        Opcode::Push => Ok(Instruction::Push(ext28_bits(w & 0xfff_ffff))),
    }
}

} // verus!
