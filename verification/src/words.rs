//! Word-level arithmetic: signed readings of 32-bit words, 16-bit register
//! wrapping, and the semantics of the binary and unary ALU operations.
//!
//! All VM arithmetic is modulo 2^32; comparisons read words as signed
//! two's-complement values; shifts use the bottom five bits of the count;
//! division and remainder by zero produce 0 rather than trapping.

use vstd::prelude::*;

verus! {

/// The signed two's-complement reading of a 32-bit word.
pub open spec fn as_signed(w: u32) -> int {
    if w >= 0x8000_0000 {
        w - 0x1_0000_0000
    } else {
        w as int
    }
}

/// An integer reduced modulo 2^32 into a 32-bit word.
pub open spec fn wrap_u32(x: int) -> u32 {
    (x % 0x1_0000_0000) as u32
}

/// Wrap an integer one step into the signed 16-bit range; exact for any
/// sum or difference of two 16-bit values.
pub open spec fn wrap_i16(x: int) -> int {
    if x > 0x7fff {
        x - 0x1_0000
    } else if x < -0x8000 {
        x + 0x1_0000
    } else {
        x
    }
}

/// The truncation of any integer to a signed 16-bit value.
pub open spec fn to_i16(x: int) -> int {
    let r = x % 0x1_0000;
    if r >= 0x8000 {
        r - 0x1_0000
    } else {
        r
    }
}

/// Read a 32-bit word as a signed value.
pub fn to_signed(w: u32) -> (r: i32)
    ensures
        r == as_signed(w),
{
    if w >= 0x8000_0000 {
        ((w as i64) - 0x1_0000_0000) as i32
    } else {
        w as i32
    }
}

/// Reinterpret a signed 16-bit quantity held in an `i32` as a 32-bit word.
pub fn signed_to_word(v: i32) -> (r: u32)
    requires
        -0x8000_0000 <= v,
    ensures
        r == wrap_u32(v as int),
{
    proof {
        if v >= 0 {
            vstd::arithmetic::div_mod::lemma_small_mod(v as nat, 0x1_0000_0000);
        } else {
            vstd::arithmetic::div_mod::lemma_mod_add_multiples_vanish(
                v as int,
                0x1_0000_0000,
            );
            vstd::arithmetic::div_mod::lemma_small_mod(
                (v + 0x1_0000_0000) as nat,
                0x1_0000_0000,
            );
        }
    }
    if v >= 0 {
        v as u32
    } else {
        ((v as i64) + 0x1_0000_0000) as u32
    }
}

/// Truncate a 32-bit word to a signed 16-bit register value.
pub fn word_to_i16(w: u32) -> (r: i16)
    ensures
        r == to_i16(w as int),
{
    let m: u32 = w % 0x1_0000;
    if m >= 0x8000 {
        ((m as i32) - 0x1_0000) as i16
    } else {
        m as i16
    }
}

/// The word shift of a byte offset: an arithmetic shift right by two,
/// keeping the sign.
pub proof fn lemma_asr2_bounds(off: i32)
    by (bit_vector)
    ensures
        -0x4000_0000 <= (off >> 2) < 0x4000_0000,
{
}

/// Truncate a byte-to-word shifted offset to a signed 16-bit register
/// delta, as 16-bit register arithmetic does.
pub fn off_to_i16(x: i32) -> (r: i16)
    ensures
        r == to_i16(x as int),
{
    proof {
        vstd::arithmetic::div_mod::lemma_mod_multiples_vanish(0x8000, x as int, 0x1_0000);
    }
    let y: i64 = (x as i64) + 0x8000_0000;
    let m: i64 = y % 0x1_0000;
    if m >= 0x8000 {
        (m - 0x1_0000) as i16
    } else {
        m as i16
    }
}

/// Addition modulo 2^32.
pub open spec fn add32(a: u32, b: u32) -> u32 {
    if a + b > 0xffff_ffff {
        (a + b - 0x1_0000_0000) as u32
    } else {
        (a + b) as u32
    }
}

/// Subtraction modulo 2^32.
pub open spec fn sub32(a: u32, b: u32) -> u32 {
    if a - b < 0 {
        (a - b + 0x1_0000_0000) as u32
    } else {
        (a - b) as u32
    }
}

/// Multiplication modulo 2^32.
pub open spec fn mul32(a: u32, b: u32) -> u32 {
    ((a as nat * b as nat) % 0x1_0000_0000) as u32
}

/// Unsigned division; a zero divisor produces 0.
pub open spec fn div32(a: u32, b: u32) -> u32 {
    if b == 0 {
        0
    } else {
        a / b
    }
}

/// Unsigned remainder; a zero divisor produces 0.
pub open spec fn rem32(a: u32, b: u32) -> u32 {
    if b == 0 {
        0
    } else {
        a % b
    }
}

/// Logical shift left by the bottom five bits of the count.
pub open spec fn lsl32(a: u32, b: u32) -> u32 {
    a << (b & 31)
}

/// Logical shift right by the bottom five bits of the count.
pub open spec fn lsr32(a: u32, b: u32) -> u32 {
    a >> (b & 31)
}

/// Arithmetic shift right by the bottom five bits of the count.
pub open spec fn asr32(a: u32, b: u32) -> u32 {
    ((a as i32) >> (b & 31)) as u32
}

/// Two's-complement negation modulo 2^32.
pub open spec fn neg32(a: u32) -> u32 {
    if a == 0 {
        0
    } else {
        (0x1_0000_0000 - a) as u32
    }
}

/// Addition modulo 2^32.
pub fn alu_add(a: u32, b: u32) -> (r: u32)
    ensures
        r == add32(a, b),
{
    a.wrapping_add(b)
}

/// Subtraction modulo 2^32.
pub fn alu_sub(a: u32, b: u32) -> (r: u32)
    ensures
        r == sub32(a, b),
{
    a.wrapping_sub(b)
}

/// Multiplication modulo 2^32.
pub fn alu_mul(a: u32, b: u32) -> (r: u32)
    ensures
        r == mul32(a, b),
{
    a.wrapping_mul(b)
}

/// Unsigned division; a zero divisor produces 0.
pub fn alu_div(a: u32, b: u32) -> (r: u32)
    ensures
        r == div32(a, b),
{
    if b == 0 {
        0
    } else {
        a / b
    }
}

/// Unsigned remainder; a zero divisor produces 0.
pub fn alu_rem(a: u32, b: u32) -> (r: u32)
    ensures
        r == rem32(a, b),
{
    if b == 0 {
        0
    } else {
        a % b
    }
}

/// Logical shift left by the bottom five bits of the count.
pub fn alu_lsl(a: u32, b: u32) -> (r: u32)
    ensures
        r == lsl32(a, b),
{
    proof {
        assert(b & 31 < 32) by (bit_vector);
    }
    a << (b & 31)
}

/// Logical shift right by the bottom five bits of the count.
pub fn alu_lsr(a: u32, b: u32) -> (r: u32)
    ensures
        r == lsr32(a, b),
{
    proof {
        assert(b & 31 < 32) by (bit_vector);
    }
    a >> (b & 31)
}

/// Arithmetic shift right by the bottom five bits of the count.
pub fn alu_asr(a: u32, b: u32) -> (r: u32)
    ensures
        r == asr32(a, b),
{
    proof {
        assert(b & 31 < 32) by (bit_vector);
        assert((((a as i32) >> (b & 31)) as u32) == asr32(a, b));
    }
    let sh: u32 = b & 31;
    let sa: i32 = #[verifier::truncate] (a as i32);
    #[verifier::truncate] ((sa >> sh) as u32)
}

/// Two's-complement negation modulo 2^32.
pub fn alu_neg(a: u32) -> (r: u32)
    ensures
        r == neg32(a),
{
    if a == 0 {
        0
    } else {
        (0xffff_ffff - a) + 1
    }
}

} // verus!
