//! Parsing the integer line an `Input` instruction reads: a `0x`/`0X`
//! prefix selects base 16, a `0b`/`0B` prefix base 2, anything else is a
//! signed decimal whose 32-bit two's-complement bits are pushed.

use vstd::prelude::*;

use crate::words::wrap_u32;

verus! {

/// The value of one numeral byte: 0-9, a-f or A-F; -1 for any other byte.
pub open spec fn digit_of(b: u8) -> int {
    if 0x30 <= b <= 0x39 {
        b - 0x30
    } else if 0x61 <= b <= 0x66 {
        b - 0x57
    } else if 0x41 <= b <= 0x46 {
        b - 0x37
    } else {
        -1
    }
}

/// Whether a byte is a digit of the given base.
pub open spec fn is_digit(b: u8, base: int) -> bool {
    0 <= digit_of(b) < base
}

/// Whether a numeral is non-empty and made of digits of the base alone.
pub open spec fn all_digits(s: Seq<u8>, base: int) -> bool {
    s.len() > 0 && forall|i: int| 0 <= i < s.len() ==> is_digit(s[i], base)
}

/// The unbounded value of an all-digit numeral, most significant first.
pub open spec fn digits_val(s: Seq<u8>, base: int) -> int
    decreases s.len(),
{
    if s.len() == 0 {
        0
    } else {
        digits_val(s.drop_last(), base) * base + digit_of(s.last())
    }
}

/// What an unsigned radix numeral (an optional `+`, then digits) parses
/// to, if anything: `None` for an empty or malformed numeral and for a
/// value past 32 bits.
pub open spec fn spec_parse_u32(s: Seq<u8>, base: int) -> Option<u32> {
    let d = if s.len() > 0 && s[0] == 0x2b {
        s.drop_first()
    } else {
        s
    };
    if all_digits(d, base) && digits_val(d, base) < 0x1_0000_0000 {
        Some(digits_val(d, base) as u32)
    } else {
        None
    }
}

/// What a signed decimal numeral (an optional sign, then digits) parses
/// to, if anything: `None` for a malformed numeral and for a value
/// outside the signed 32-bit range.
pub open spec fn spec_parse_i32(s: Seq<u8>) -> Option<i32> {
    let neg = s.len() > 0 && s[0] == 0x2d;
    let d = if s.len() > 0 && (s[0] == 0x2b || s[0] == 0x2d) {
        s.drop_first()
    } else {
        s
    };
    if all_digits(d, 10) {
        let v = digits_val(d, 10);
        if neg && v <= 0x8000_0000 {
            Some((-v) as i32)
        } else if !neg && v <= 0x7fff_ffff {
            Some(v as i32)
        } else {
            None
        }
    } else {
        None
    }
}

/// The word an `Input` instruction pushes for a trimmed line, if the line
/// parses in its detected base.
pub open spec fn spec_parse_input(t: Seq<u8>) -> Option<u32> {
    if t.len() >= 2 && t[0] == 0x30 && (t[1] == 0x78 || t[1] == 0x58) {
        spec_parse_u32(t.subrange(2, t.len() as int), 16)
    } else if t.len() >= 2 && t[0] == 0x30 && (t[1] == 0x62 || t[1] == 0x42) {
        spec_parse_u32(t.subrange(2, t.len() as int), 2)
    } else {
        match spec_parse_i32(t) {
            Some(v) => Some(wrap_u32(v as int)),
            None => None,
        }
    }
}

proof fn lemma_digits_val_nonneg(s: Seq<u8>, base: int)
    requires
        base >= 2,
        forall|i: int| 0 <= i < s.len() ==> is_digit(s[i], base),
    ensures
        digits_val(s, base) >= 0,
    decreases s.len(),
{
    if s.len() > 0 {
        lemma_digits_val_nonneg(s.drop_last(), base);
        let v = digits_val(s.drop_last(), base);
        assert(v * base >= v) by (nonlinear_arith)
            requires
                v >= 0,
                base >= 2,
        ;
    }
}

proof fn lemma_digits_val_prefix_le(s: Seq<u8>, base: int, k: int)
    requires
        base >= 2,
        forall|i: int| 0 <= i < s.len() ==> is_digit(s[i], base),
        0 <= k <= s.len(),
    ensures
        digits_val(s.subrange(0, k), base) <= digits_val(s, base),
    decreases s.len() - k,
{
    if k == s.len() {
        assert(s.subrange(0, k) =~= s);
    } else {
        lemma_digits_val_prefix_le(s, base, k + 1);
        let t = s.subrange(0, k + 1);
        assert(t.drop_last() =~= s.subrange(0, k));
        lemma_digits_val_nonneg(t.drop_last(), base);
        let v = digits_val(t.drop_last(), base);
        assert(v * base >= v) by (nonlinear_arith)
            requires
                v >= 0,
                base >= 2,
        ;
    }
}

/// The digit value of a byte, or -1 when it is no digit.
fn digit_of_byte(b: u8) -> (r: i32)
    ensures
        r == digit_of(b),
{
    if 0x30 <= b && b <= 0x39 {
        (b - 0x30) as i32
    } else if 0x61 <= b && b <= 0x66 {
        (b - 0x57) as i32
    } else if 0x41 <= b && b <= 0x46 {
        (b - 0x37) as i32
    } else {
        -1
    }
}

/// Accumulate the digits of `s` from index `from` on in the given base;
/// `None` when the digits are empty or malformed or their value passes
/// 32 bits.
fn parse_digits(s: &[u8], from: usize, base: u32) -> (r: Option<u32>)
    requires
        base == 2 || base == 10 || base == 16,
        from <= s@.len(),
    ensures
        ({
            let d = s@.subrange(from as int, s@.len() as int);
            if all_digits(d, base as int) && digits_val(d, base as int) < 0x1_0000_0000 {
                r == Some(digits_val(d, base as int) as u32)
            } else {
                r is None
            }
        }),
{
    let ghost d = s@.subrange(from as int, s@.len() as int);
    let n = s.len();
    if from == n {
        return None;
    }
    let mut acc: u32 = 0;
    let mut i: usize = from;
    while i < n
        invariant
            from <= i <= n,
            n == s@.len(),
            base == 2 || base == 10 || base == 16,
            d == s@.subrange(from as int, n as int),
            forall|j: int| from <= j < i ==> is_digit(s@[j], base as int),
            acc == digits_val(s@.subrange(from as int, i as int), base as int),
        decreases n - i,
    {
        let b = s[i];
        let dv = digit_of_byte(b);
        if dv < 0 || dv >= base as i32 {
            proof {
                assert(!is_digit(d[i - from], base as int));
            }
            return None;
        }
        proof {
            assert(acc as int * base as int <= 0xffff_ffff * 16) by (nonlinear_arith)
                requires
                    acc <= 0xffff_ffffu32,
                    base <= 16u32,
            ;
        }
        let wide: u64 = (acc as u64) * (base as u64) + (dv as u64);
        proof {
            let p = s@.subrange(from as int, i + 1);
            assert(p.drop_last() =~= s@.subrange(from as int, i as int));
            assert(digits_val(p, base as int) == acc * base + dv);
        }
        if wide > 0xffff_ffff {
            proof {
                let p = s@.subrange(from as int, i + 1);
                if all_digits(d, base as int) {
                    assert forall|j: int| from <= j < n implies is_digit(
                        s@[j],
                        base as int,
                    ) by {
                        assert(is_digit(d[j - from], base as int));
                    }
                    lemma_digits_val_prefix_le(d, base as int, i + 1 - from);
                    assert(d.subrange(0, i + 1 - from) =~= p);
                    assert(digits_val(d, base as int) >= wide);
                }
            }
            return None;
        }
        acc = wide as u32;
        i = i + 1;
        proof {
            assert(s@.subrange(from as int, i as int) =~= s@.subrange(from as int, i - 1
                + 1));
        }
    }
    proof {
        assert(s@.subrange(from as int, i as int) =~= d);
        assert(all_digits(d, base as int));
        lemma_digits_val_nonneg(d, base as int);
    }
    Some(acc)
}

/// Parse an unsigned radix numeral: an optional `+`, then digits.
fn parse_u32_radix(s: &[u8], base: u32) -> (r: Option<u32>)
    requires
        base == 2 || base == 16,
    ensures
        r == spec_parse_u32(s@, base as int),
{
    if s.len() > 0 && s[0] == 0x2b {
        let r = parse_digits(s, 1, base);
        proof {
            assert(s@.subrange(1, s@.len() as int) =~= s@.drop_first());
        }
        r
    } else {
        let r = parse_digits(s, 0, base);
        proof {
            assert(s@.subrange(0, s@.len() as int) =~= s@);
        }
        r
    }
}

/// Parse a signed decimal numeral: an optional sign, then digits.
fn parse_i32_dec(s: &[u8]) -> (r: Option<i32>)
    ensures
        r == spec_parse_i32(s@),
{
    let has_sign = s.len() > 0 && (s[0] == 0x2b || s[0] == 0x2d);
    let neg = s.len() > 0 && s[0] == 0x2d;
    let from: usize = if has_sign {
        1
    } else {
        0
    };
    let v = match parse_digits(s, from, 10) {
        Some(v) => v,
        None => {
            proof {
                if has_sign {
                    assert(s@.subrange(1, s@.len() as int) =~= s@.drop_first());
                } else {
                    assert(s@.subrange(0, s@.len() as int) =~= s@);
                }
            }
            return None;
        },
    };
    proof {
        if has_sign {
            assert(s@.subrange(1, s@.len() as int) =~= s@.drop_first());
        } else {
            assert(s@.subrange(0, s@.len() as int) =~= s@);
        }
    }
    proof {
        let d = if s@.len() > 0 && (s@[0] == 0x2b || s@[0] == 0x2d) {
            s@.drop_first()
        } else {
            s@
        };
        assert(all_digits(d, 10));
        lemma_digits_val_nonneg(d, 10);
        assert(v == digits_val(d, 10));
    }
    if neg {
        if v <= 0x8000_0000 {
            let r: i32 = (-(v as i64)) as i32;
            proof {
                assert(r == -(v as int));
            }
            Some(r)
        } else {
            None
        }
    } else {
        if v <= 0x7fff_ffff {
            Some(v as i32)
        } else {
            None
        }
    }
}

/// Parse a trimmed input line in its detected base, yielding the 32-bit
/// word an `Input` instruction pushes.
pub fn parse_input(t: &[u8]) -> (r: Option<u32>)
    ensures
        r == spec_parse_input(t@),
{
    if t.len() >= 2 && t[0] == 0x30 && (t[1] == 0x78 || t[1] == 0x58) {
        let tail = slice_from(t, 2);
        parse_u32_radix(tail.as_slice(), 16)
    } else if t.len() >= 2 && t[0] == 0x30 && (t[1] == 0x62 || t[1] == 0x42) {
        let tail = slice_from(t, 2);
        parse_u32_radix(tail.as_slice(), 2)
    } else {
        match parse_i32_dec(t) {
            Some(v) => Some(crate::words::signed_to_word(v)),
            None => None,
        }
    }
}

/// Copy the bytes of a slice from the given index on.
fn slice_from(s: &[u8], from: usize) -> (r: Vec<u8>)
    requires
        from <= s@.len(),
    ensures
        r@ == s@.subrange(from as int, s@.len() as int),
{
    let n = s.len();
    let mut out: Vec<u8> = Vec::new();
    let mut i: usize = from;
    while i < n
        invariant
            from <= i <= n,
            n == s@.len(),
            out@ =~= s@.subrange(from as int, i as int),
        decreases n - i,
    {
        out.push(s[i]);
        proof {
            assert(out@ =~= s@.subrange(from as int, i + 1));
        }
        i = i + 1;
    }
    out
}

} // verus!
