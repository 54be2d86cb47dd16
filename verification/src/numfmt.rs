//! Verified text rendering of 32-bit words in the four print radices, plus
//! the fixed-width hexadecimal fields of the debug and dump lines.

use vstd::prelude::*;

use crate::words::as_signed;

verus! {

/// The character of one digit value below 16.
pub open spec fn spec_digit(d: nat, upper: bool) -> u8 {
    if d < 10 {
        (48 + d) as u8
    } else if upper {
        (55 + d) as u8
    } else {
        (87 + d) as u8
    }
}

/// The digits of `n` in the given base, most significant first; empty for
/// zero.
pub open spec fn spec_digits(n: nat, base: nat, upper: bool) -> Seq<u8>
    decreases n,
    when base >= 2
    via spec_digits_dec
{
    if n == 0 {
        Seq::empty()
    } else {
        spec_digits(n / base, base, upper).push(spec_digit(n % base, upper))
    }
}

#[via_fn]
proof fn spec_digits_dec(n: nat, base: nat, upper: bool) {
    if n != 0 && base >= 2 {
        vstd::arithmetic::div_mod::lemma_div_decreases(n as int, base as int);
    }
}

/// The numeral of `n` in the given base: its digits, or `"0"` for zero.
pub open spec fn spec_radix(n: nat, base: nat, upper: bool) -> Seq<u8> {
    if n == 0 {
        seq![48u8]
    } else {
        spec_digits(n, base, upper)
    }
}

/// A numeral left-padded with `'0'` to the given width.
pub open spec fn spec_zero_pad(s: Seq<u8>, width: nat) -> Seq<u8> {
    if s.len() >= width {
        s
    } else {
        Seq::new((width - s.len()) as nat, |i: int| 48u8) + s
    }
}

/// The signed decimal numeral of a 32-bit word: a minus sign and the
/// magnitude when its signed reading is negative.
pub open spec fn spec_signed_dec(w: u32) -> Seq<u8> {
    if as_signed(w) < 0 {
        seq![45u8] + spec_radix((-as_signed(w)) as nat, 10, false)
    } else {
        spec_radix(w as nat, 10, false)
    }
}

/// The character of one digit value below 16.
fn digit_char(d: u32, upper: bool) -> (r: u8)
    requires
        d < 16,
    ensures
        r == spec_digit(d as nat, upper),
{
    if d < 10 {
        (48 + d) as u8
    } else if upper {
        (55 + d) as u8
    } else {
        (87 + d) as u8
    }
}

/// Render `n` in the given base, most significant digit first.
pub fn fmt_radix(n: u32, base: u32, upper: bool) -> (r: Vec<u8>)
    requires
        2 <= base <= 16,
    ensures
        r@ == spec_radix(n as nat, base as nat, upper),
{
    let mut out: Vec<u8> = Vec::new();
    if n == 0 {
        out.push(48u8);
        proof {
            assert(out@ =~= spec_radix(n as nat, base as nat, upper));
        }
        return out;
    }
    let mut x: u32 = n;
    while x > 0
        invariant
            2 <= base <= 16,
            spec_digits(n as nat, base as nat, upper) == spec_digits(
                x as nat,
                base as nat,
                upper,
            ) + out@,
        decreases x,
    {
        let ghost pre_out = out@;
        let ghost pre_x = x as nat;
        let d = x % base;
        let c = digit_char(d, upper);
        out.insert(0, c);
        proof {
            vstd::arithmetic::div_mod::lemma_div_decreases(x as int, base as int);
            assert(spec_digits(pre_x, base as nat, upper) == spec_digits(
                pre_x / (base as nat),
                base as nat,
                upper,
            ).push(spec_digit(pre_x % (base as nat), upper)));
            assert(spec_digits(pre_x / (base as nat), base as nat, upper).push(
                spec_digit(pre_x % (base as nat), upper),
            ) + pre_out =~= spec_digits(pre_x / (base as nat), base as nat, upper) + out@);
        }
        x = x / base;
    }
    proof {
        assert(spec_digits(0nat, base as nat, upper) =~= Seq::<u8>::empty());
        assert(out@ =~= spec_radix(n as nat, base as nat, upper));
    }
    out
}

/// Left-pad a rendered numeral with `'0'` to the given width.
pub fn zero_pad(v: Vec<u8>, width: usize) -> (r: Vec<u8>)
    ensures
        r@ == spec_zero_pad(v@, width as nat),
{
    let mut out = v;
    while out.len() < width
        invariant
            spec_zero_pad(out@, width as nat) == spec_zero_pad(v@, width as nat),
            out@.len() >= v@.len(),
        decreases width - out@.len(),
    {
        let ghost pre = out@;
        out.insert(0, 48u8);
        proof {
            assert(spec_zero_pad(out@, width as nat) =~= spec_zero_pad(pre, width as nat));
        }
    }
    out
}

/// Append the bytes of `src` to `dst`.
pub fn extend_bytes(dst: &mut Vec<u8>, src: &Vec<u8>)
    ensures
        final(dst)@ == old(dst)@ + src@,
{
    let n = src.len();
    let mut i: usize = 0;
    while i < n
        invariant
            i <= n,
            n == src@.len(),
            dst@ =~= old(dst)@ + src@.subrange(0, i as int),
        decreases n - i,
    {
        dst.push(src[i]);
        proof {
            assert(dst@ =~= old(dst)@ + src@.subrange(0, i + 1));
        }
        i = i + 1;
    }
    proof {
        assert(src@.subrange(0, n as int) =~= src@);
    }
}

/// The line a `Print` instruction emits for a word: the numeral in the
/// selected format, a prefix for the non-decimal radices, and a newline.
pub open spec fn spec_print_line(w: u32, fmt: u8) -> Seq<u8> {
    if fmt == 0 {
        spec_signed_dec(w) + seq![10u8]
    } else if fmt == 1 {
        seq![48u8, 120u8] + spec_radix(w as nat, 16, true) + seq![10u8]
    } else if fmt == 2 {
        seq![48u8, 98u8] + spec_radix(w as nat, 2, false) + seq![10u8]
    } else if fmt == 3 {
        seq![48u8, 111u8] + spec_radix(w as nat, 8, false) + seq![10u8]
    } else {
        spec_radix(w as nat, 10, false) + seq![10u8]
    }
}

/// The line a `Debug` instruction emits: `Debug: 0x`, the 24-bit payload
/// as six upper-case hexadecimal digits, and a newline.
pub open spec fn spec_debug_line(v: u32) -> Seq<u8> {
    seq![68u8, 101u8, 98u8, 117u8, 103u8, 58u8, 32u8, 48u8, 120u8] + spec_zero_pad(
        spec_radix(v as nat, 16, true),
        6,
    ) + seq![10u8]
}

/// One line of a stack dump: the word index as four and the word as eight
/// lower-case hexadecimal digits, joined by a colon and a blank.
pub open spec fn spec_dump_line(idx: u32, w: u32) -> Seq<u8> {
    spec_zero_pad(spec_radix(idx as nat, 16, false), 4) + seq![58u8, 32u8] + spec_zero_pad(
        spec_radix(w as nat, 16, false),
        8,
    ) + seq![10u8]
}

/// Render the line a `Print` instruction emits for a word.
pub fn print_line(w: u32, fmt: u8) -> (r: Vec<u8>)
    ensures
        r@ == spec_print_line(w, fmt),
{
    let mut out: Vec<u8> = Vec::new();
    if fmt == 0 {
        let digits = fmt_signed_dec(w);
        extend_bytes(&mut out, &digits);
    } else if fmt == 1 {
        out.push(48u8);
        out.push(120u8);
        let digits = fmt_radix(w, 16, true);
        extend_bytes(&mut out, &digits);
    } else if fmt == 2 {
        out.push(48u8);
        out.push(98u8);
        let digits = fmt_radix(w, 2, false);
        extend_bytes(&mut out, &digits);
    } else if fmt == 3 {
        out.push(48u8);
        out.push(111u8);
        let digits = fmt_radix(w, 8, false);
        extend_bytes(&mut out, &digits);
    } else {
        let digits = fmt_radix(w, 10, false);
        extend_bytes(&mut out, &digits);
    }
    out.push(10u8);
    proof {
        assert(out@ =~= spec_print_line(w, fmt));
    }
    out
}

/// Render the line a `Debug` instruction emits.
pub fn debug_line(v: u32) -> (r: Vec<u8>)
    ensures
        r@ == spec_debug_line(v),
{
    let mut out: Vec<u8> = Vec::new();
    out.push(68u8);
    out.push(101u8);
    out.push(98u8);
    out.push(117u8);
    out.push(103u8);
    out.push(58u8);
    out.push(32u8);
    out.push(48u8);
    out.push(120u8);
    let digits = zero_pad(fmt_radix(v, 16, true), 6);
    extend_bytes(&mut out, &digits);
    out.push(10u8);
    proof {
        assert(out@ =~= spec_debug_line(v));
    }
    out
}

/// Render one line of a stack dump.
pub fn dump_line(idx: u32, w: u32) -> (r: Vec<u8>)
    ensures
        r@ == spec_dump_line(idx, w),
{
    let mut out: Vec<u8> = Vec::new();
    let ihex = zero_pad(fmt_radix(idx, 16, false), 4);
    extend_bytes(&mut out, &ihex);
    out.push(58u8);
    out.push(32u8);
    let whex = zero_pad(fmt_radix(w, 16, false), 8);
    extend_bytes(&mut out, &whex);
    out.push(10u8);
    proof {
        assert(out@ =~= spec_dump_line(idx, w));
    }
    out
}

/// Render the signed decimal numeral of a 32-bit word.
pub fn fmt_signed_dec(w: u32) -> (r: Vec<u8>)
    ensures
        r@ == spec_signed_dec(w),
{
    if w >= 0x8000_0000 {
        let mag: u32 = (0xffff_ffff - w) + 1;
        let digits = fmt_radix(mag, 10, false);
        let mut out: Vec<u8> = Vec::new();
        out.push(45u8);
        let mut i: usize = 0;
        while i < digits.len()
            invariant
                i <= digits@.len(),
                out@ =~= seq![45u8] + digits@.subrange(0, i as int),
            decreases digits@.len() - i,
        {
            out.push(digits[i]);
            proof {
                assert(out@ =~= seq![45u8] + digits@.subrange(0, i + 1));
            }
            i = i + 1;
        }
        proof {
            assert(digits@.subrange(0, digits@.len() as int) =~= digits@);
            assert(out@ =~= spec_signed_dec(w));
        }
        out
    } else {
        fmt_radix(w, 10, false)
    }
}

} // verus!
