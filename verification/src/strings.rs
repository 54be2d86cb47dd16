//! The packed-string format and line trimming.
//!
//! A string lies on the stack as words of three content bytes each: the
//! low three bytes of a word hold three characters, read low byte first,
//! and the highest byte is 0 on the deepest word and 1 on every other
//! word. Unused positions are filled with the byte 0x01, which the printer
//! suppresses. Strings are pushed with the last characters deepest, so a
//! walk from a stack offset toward higher indices reads the text in order
//! and stops at the word whose highest byte is 0.

use vstd::prelude::*;

use crate::MEM_WORDS;
use crate::VmError;

verus! {

/// The whitespace bytes the line reader trims: the ASCII blanks, and the
/// two Latin-1 blanks that a byte-for-byte read of a line can carry.
pub open spec fn is_space(b: u8) -> bool {
    b == 0x09 || b == 0x0a || b == 0x0b || b == 0x0c || b == 0x0d || b == 0x20 || b == 0x85
        || b == 0xa0
}

/// A byte sequence with its leading whitespace removed.
pub open spec fn trim_start(s: Seq<u8>) -> Seq<u8>
    decreases s.len(),
{
    if s.len() > 0 && is_space(s[0]) {
        trim_start(s.drop_first())
    } else {
        s
    }
}

/// A byte sequence with its trailing whitespace removed.
pub open spec fn trim_end(s: Seq<u8>) -> Seq<u8>
    decreases s.len(),
{
    if s.len() > 0 && is_space(s[s.len() - 1]) {
        trim_end(s.drop_last())
    } else {
        s
    }
}

/// A byte sequence with surrounding whitespace removed.
pub open spec fn spec_trim(s: Seq<u8>) -> Seq<u8> {
    trim_end(trim_start(s))
}

proof fn lemma_trim_start_at(s: Seq<u8>, lo: int)
    requires
        0 <= lo <= s.len(),
        forall|i: int| 0 <= i < lo ==> is_space(s[i]),
        lo < s.len() ==> !is_space(s[lo]),
    ensures
        trim_start(s) == s.subrange(lo, s.len() as int),
    decreases lo,
{
    if lo == 0 {
        assert(s.subrange(0, s.len() as int) =~= s);
    } else {
        let t = s.drop_first();
        assert(forall|i: int| 0 <= i < lo - 1 ==> is_space(t[i]));
        lemma_trim_start_at(t, lo - 1);
        assert(t.subrange(lo - 1, t.len() as int) =~= s.subrange(lo, s.len() as int));
    }
}

proof fn lemma_trim_end_at(s: Seq<u8>, hi: int)
    requires
        0 <= hi <= s.len(),
        forall|i: int| hi <= i < s.len() ==> is_space(s[i]),
        hi > 0 ==> !is_space(s[hi - 1]),
    ensures
        trim_end(s) == s.subrange(0, hi),
    decreases s.len(),
{
    if s.len() > hi {
        let t = s.drop_last();
        assert(is_space(s[s.len() - 1]));
        lemma_trim_end_at(t, hi);
        assert(trim_end(s) == trim_end(t));
    } else {
        assert(s.subrange(0, hi) =~= s);
    }
}

/// Whether a byte is trimmed whitespace.
fn is_space_byte(b: u8) -> (r: bool)
    ensures
        r == is_space(b),
{
    b == 0x09 || b == 0x0a || b == 0x0b || b == 0x0c || b == 0x0d || b == 0x20 || b == 0x85
        || b == 0xa0
}

/// Remove surrounding whitespace from a line of bytes.
pub fn trim(line: &[u8]) -> (r: Vec<u8>)
    ensures
        r@ == spec_trim(line@),
{
    let n = line.len();
    let mut lo: usize = 0;
    while lo < n && is_space_byte(line[lo])
        invariant
            lo <= n,
            n == line@.len(),
            forall|i: int| 0 <= i < lo ==> is_space(line@[i]),
        decreases n - lo,
    {
        lo = lo + 1;
    }
    let mut hi: usize = n;
    while hi > lo && is_space_byte(line[hi - 1])
        invariant
            lo <= hi <= n,
            n == line@.len(),
            forall|i: int| hi <= i < n ==> is_space(line@[i]),
        decreases hi,
    {
        hi = hi - 1;
    }
    let mut out: Vec<u8> = Vec::new();
    let mut i: usize = lo;
    while i < hi
        invariant
            lo <= i <= hi <= n,
            n == line@.len(),
            out@ =~= line@.subrange(lo as int, i as int),
        decreases hi - i,
    {
        out.push(line[i]);
        proof {
            assert(out@ =~= line@.subrange(lo as int, i + 1));
        }
        i = i + 1;
    }
    proof {
        lemma_trim_start_at(line@, lo as int);
        let t = trim_start(line@);
        if hi == lo {
            lemma_trim_end_at(t, 0);
        } else {
            assert(forall|i: int| hi - lo <= i < t.len() ==> is_space(t[i]));
            lemma_trim_end_at(t, hi - lo);
        }
        assert(t.subrange(0, hi - lo) =~= line@.subrange(lo as int, hi as int));
    }
    out
}

/// A string padded with 0x01 bytes up to a whole number of words.
pub open spec fn pad3(s: Seq<u8>) -> Seq<u8> {
    if s.len() % 3 == 0 {
        s
    } else if s.len() % 3 == 1 {
        s + seq![1u8, 1u8]
    } else {
        s + seq![1u8]
    }
}

/// The packed word holding characters `3j`, `3j + 1` and `3j + 2` of the
/// padded string, as it lies at index `SP + j`: content bytes low-first,
/// and the marker byte 1 on every word but the last.
pub open spec fn mem_word(p: Seq<u8>, j: int) -> u32
    recommends
        p.len() % 3 == 0,
        0 <= j < p.len() / 3,
{
    let c0 = p[3 * j] as int;
    let c1 = p[3 * j + 1] as int;
    let c2 = p[3 * j + 2] as int;
    let mk: int = if j < p.len() / 3 - 1 {
        1
    } else {
        0
    };
    (mk * 0x100_0000 + c2 * 0x1_0000 + c1 * 0x100 + c0) as u32
}

/// The packed words of a non-empty string in memory order: index `j` of
/// the result lies at `SP + j` once the words are pushed.
pub open spec fn pack_mem(s: Seq<u8>) -> Seq<u32> {
    Seq::new((pad3(s).len() / 3) as nat, |j: int| mem_word(pad3(s), j))
}

/// The low content byte of a packed word.
pub open spec fn w_b0(w: u32) -> u8 {
    (w % 0x100) as u8
}

/// The middle content byte of a packed word.
pub open spec fn w_b1(w: u32) -> u8 {
    ((w / 0x100) % 0x100) as u8
}

/// The high content byte of a packed word.
pub open spec fn w_b2(w: u32) -> u8 {
    ((w / 0x1_0000) % 0x100) as u8
}

/// The marker byte of a packed word: 0 only on the final word of a string.
pub open spec fn w_marker(w: u32) -> u32 {
    w / 0x100_0000
}

/// The text one packed word contributes: its three content bytes in order,
/// with the padding byte 0x01 suppressed.
pub open spec fn word_text(w: u32) -> Seq<u8> {
    let p0: Seq<u8> = if w_b0(w) != 1 {
        seq![w_b0(w)]
    } else {
        Seq::empty()
    };
    let p1: Seq<u8> = if w_b1(w) != 1 {
        seq![w_b1(w)]
    } else {
        Seq::empty()
    };
    let p2: Seq<u8> = if w_b2(w) != 1 {
        seq![w_b2(w)]
    } else {
        Seq::empty()
    };
    p0 + p1 + p2
}

/// Whether a string-print walk starting at word index `i` terminates
/// inside memory: it must reach a word with marker 0, or index 0, before
/// running off the end.
pub open spec fn stprint_ok(ram: Seq<u32>, i: int) -> bool
    decreases MEM_WORDS - i,
{
    if !(0 <= i < MEM_WORDS) {
        false
    } else if i == 0 || w_marker(ram[i]) == 0 {
        true
    } else {
        stprint_ok(ram, i + 1)
    }
}

/// The bytes a string-print walk emits: the text of each word from `i`
/// toward higher indices, up to and including the first word with marker
/// 0 (or the word at index 0).
pub open spec fn stprint_text(ram: Seq<u32>, i: int) -> Seq<u8>
    decreases MEM_WORDS - i,
{
    if !(0 <= i < MEM_WORDS) {
        Seq::empty()
    } else if i == 0 || w_marker(ram[i]) == 0 {
        word_text(ram[i])
    } else {
        word_text(ram[i]) + stprint_text(ram, i + 1)
    }
}

/// Split one packed word into its four byte fields.
pub proof fn lemma_word_fields(c0: int, c1: int, c2: int, mk: int)
    requires
        0 <= c0 < 0x100,
        0 <= c1 < 0x100,
        0 <= c2 < 0x100,
        0 <= mk < 0x100,
    ensures
        ({
            let w = (mk * 0x100_0000 + c2 * 0x1_0000 + c1 * 0x100 + c0) as u32;
            &&& w_b0(w) == c0
            &&& w_b1(w) == c1
            &&& w_b2(w) == c2
            &&& w_marker(w) == mk
        }),
{
    let x = mk * 0x100_0000 + c2 * 0x1_0000 + c1 * 0x100 + c0;
    let w = x as u32;
    assert(x < 0x1_0000_0000);
    assert(w == x);
    let q0 = mk * 0x1_0000 + c2 * 0x100 + c1;
    vstd::arithmetic::div_mod::lemma_fundamental_div_mod_converse(x, 0x100, q0, c0);
    let q1 = mk * 0x100 + c2;
    vstd::arithmetic::div_mod::lemma_fundamental_div_mod_converse(q0, 0x100, q1, c1);
    vstd::arithmetic::div_mod::lemma_fundamental_div_mod_converse(q1, 0x100, mk, c2);
    vstd::arithmetic::div_mod::lemma_fundamental_div_mod_converse(x, 0x1_0000, q1, c1 * 0x100 + c0);
    vstd::arithmetic::div_mod::lemma_fundamental_div_mod_converse(
        x,
        0x100_0000,
        mk,
        c2 * 0x1_0000 + c1 * 0x100 + c0,
    );
}

/// Build the packed words of a non-empty string, in memory order.
pub fn pack_string(t: &[u8]) -> (r: Vec<u32>)
    requires
        1 <= t@.len() <= 0x100_0000,
    ensures
        r@ == pack_mem(t@),
        1 <= r@.len() <= 0x600_0000,
{
    let mut p: Vec<u8> = Vec::new();
    let n = t.len();
    let mut i: usize = 0;
    while i < n
        invariant
            i <= n,
            n == t@.len(),
            p@ =~= t@.subrange(0, i as int),
        decreases n - i,
    {
        p.push(t[i]);
        proof {
            assert(p@ =~= t@.subrange(0, i + 1));
        }
        i = i + 1;
    }
    proof {
        assert(p@ =~= t@);
    }
    if p.len() % 3 == 1 {
        p.push(1u8);
        p.push(1u8);
    } else if p.len() % 3 == 2 {
        p.push(1u8);
    }
    proof {
        assert(p@ =~= pad3(t@));
        assert(p@.len() % 3 == 0);
    }
    let m = p.len() / 3;
    let mut out: Vec<u32> = Vec::new();
    let mut j: usize = 0;
    while j < m
        invariant
            j <= m,
            m == p@.len() / 3,
            p@.len() % 3 == 0,
            p@.len() <= 0x100_0002,
            p@ == pad3(t@),
            out@.len() == j,
            forall|k: int| 0 <= k < j ==> out@[k] == mem_word(p@, k),
        decreases m - j,
    {
        let c0 = p[3 * j] as u32;
        let c1 = p[3 * j + 1] as u32;
        let c2 = p[3 * j + 2] as u32;
        let mk: u32 = if j < m - 1 {
            1
        } else {
            0
        };
        let w: u32 = mk * 0x100_0000 + c2 * 0x1_0000 + c1 * 0x100 + c0;
        out.push(w);
        j = j + 1;
    }
    proof {
        assert(out@ =~= pack_mem(t@));
    }
    out
}

/// Walk the packed string at word index `start`, collecting the bytes it
/// prints; fails with `OutOfBounds` when the walk starts outside memory or
/// runs past its end.
pub fn stprint_collect(ram: &Vec<u32>, start: i32) -> (r: Result<Vec<u8>, VmError>)
    requires
        ram@.len() == MEM_WORDS,
    ensures
        stprint_ok(ram@, start as int) ==> (r matches Ok(v) && v@ == stprint_text(
            ram@,
            start as int,
        )),
        !stprint_ok(ram@, start as int) ==> r == Result::<Vec<u8>, VmError>::Err(
            VmError::OutOfBounds,
        ),
{
    if start < 0 || start >= 1024 {
        return Err(VmError::OutOfBounds);
    }
    let mut idx: usize = start as usize;
    let mut out: Vec<u8> = Vec::new();
    loop
        invariant
            0 <= idx < MEM_WORDS,
            ram@.len() == MEM_WORDS,
            stprint_ok(ram@, start as int) == stprint_ok(ram@, idx as int),
            stprint_ok(ram@, idx as int) ==> stprint_text(ram@, start as int) == out@
                + stprint_text(ram@, idx as int),
        decreases MEM_WORDS - idx,
    {
        let ghost pre_out = out@;
        let w = ram[idx];
        let b0 = (w % 0x100) as u8;
        let b1 = ((w / 0x100) % 0x100) as u8;
        let b2 = ((w / 0x1_0000) % 0x100) as u8;
        let marker = w / 0x100_0000;
        if b0 != 1 {
            out.push(b0);
        }
        if b1 != 1 {
            out.push(b1);
        }
        if b2 != 1 {
            out.push(b2);
        }
        proof {
            assert(out@ =~= pre_out + word_text(w));
        }
        if idx == 0 || marker == 0 {
            proof {
                assert(stprint_ok(ram@, idx as int));
                assert(stprint_text(ram@, idx as int) == word_text(w));
                assert(out@ =~= pre_out + stprint_text(ram@, idx as int));
            }
            return Ok(out);
        }
        if idx == 1023 {
            proof {
                assert(!stprint_ok(ram@, 1024));
                assert(!stprint_ok(ram@, 1023));
            }
            return Err(VmError::OutOfBounds);
        }
        proof {
            assert(stprint_ok(ram@, idx as int) == stprint_ok(ram@, idx + 1));
            assert(stprint_text(ram@, idx as int) == word_text(w) + stprint_text(
                ram@,
                idx + 1,
            ));
            if stprint_ok(ram@, idx + 1) {
                assert(stprint_text(ram@, start as int) =~= out@ + stprint_text(
                    ram@,
                    idx + 1,
                ));
            }
        }
        idx = idx + 1;
    }
}

} // verus!
