//! Laws of the machine, stated over the spec-level semantics that the
//! executable functions are proved against, and proved once for every
//! state they speak of.

use vstd::prelude::*;

use crate::decode::Instruction;
use crate::exec::is_binif;
use crate::exec::is_unif;
use crate::exec::spec_exec;
use crate::exec::SpecStep;
use crate::machine::can_push;
use crate::machine::spec_push;
use crate::machine::MachineView;
use crate::strings::lemma_word_fields;
use crate::strings::mem_word;
use crate::strings::pack_mem;
use crate::strings::pad3;
use crate::strings::stprint_ok;
use crate::strings::stprint_text;
use crate::strings::word_text;
use crate::words::add32;
use crate::words::div32;
use crate::words::mul32;
use crate::words::rem32;
use crate::MEM_WORDS;

verus! {

/// The state after pushing each word of a sequence in turn.
pub open spec fn push_all(m: MachineView, ws: Seq<u32>) -> MachineView
    decreases ws.len(),
{
    if ws.len() == 0 {
        m
    } else {
        push_all(spec_push(m, ws[0]), ws.drop_first())
    }
}

/// A run of pushes lowers SP by the word count and leaves every memory
/// word at or above the old SP, and below the new one, untouched.
pub proof fn lemma_push_all(m: MachineView, ws: Seq<u32>)
    requires
        m.wf(),
        ws.len() <= m.sp <= MEM_WORDS,
    ensures
        ({
            let m1 = push_all(m, ws);
            &&& m1.wf()
            &&& m1.sp == m.sp - ws.len()
            &&& m1.pc == m.pc
            &&& forall|j: int| m.sp <= j < MEM_WORDS ==> m1.ram[j] == m.ram[j]
            &&& forall|j: int| 0 <= j < m.sp - ws.len() ==> m1.ram[j] == m.ram[j]
        }),
    decreases ws.len(),
{
    if ws.len() > 0 {
        let m2 = spec_push(m, ws[0]);
        lemma_push_all(m2, ws.drop_first());
    }
}

/// Push/Pop inverse: after pushing any words and then popping the same
/// number with one `Pop` of four bytes per word, SP is back at its old
/// value and every memory word above that watermark is unchanged.
pub proof fn lemma_push_pop_inverse(m: MachineView, ws: Seq<u32>)
    requires
        m.wf(),
        ws.len() <= m.sp <= MEM_WORDS,
    ensures
        ({
            let m1 = push_all(m, ws);
            let s = spec_exec(m1, Instruction::Pop((4 * ws.len()) as u32));
            s matches SpecStep::Run(m2) && m2.sp == m.sp && (forall|j: int|
                m.sp <= j < MEM_WORDS ==> m2.ram[j] == m.ram[j])
        }),
{
    lemma_push_all(m, ws);
    let off: u32 = (4 * ws.len()) as u32;
    let k: u32 = ws.len() as u32;
    assert(off >> 2 == k) by (bit_vector)
        requires
            off == 4 * k,
            k <= 1024,
    ;
}

/// Arithmetic laws: addition and multiplication are commutative and wrap
/// at 2^32; division and remainder by zero produce 0 whatever the
/// dividend.
pub proof fn lemma_arith_laws(a: u32, b: u32)
    ensures
        add32(a, b) == add32(b, a),
        mul32(a, b) == mul32(b, a),
        add32(a, b) == ((a + b) % 0x1_0000_0000) as u32,
        mul32(a, b) == ((a * b) % 0x1_0000_0000) as u32,
        div32(a, 0) == 0,
        rem32(a, 0) == 0,
{
    vstd::arithmetic::mul::lemma_mul_is_commutative(a as int, b as int);
    if a + b <= 0xffff_ffff {
        vstd::arithmetic::div_mod::lemma_small_mod((a + b) as nat, 0x1_0000_0000);
    } else {
        vstd::arithmetic::div_mod::lemma_mod_sub_multiples_vanish(
            (a + b) as int,
            0x1_0000_0000,
        );
        vstd::arithmetic::div_mod::lemma_small_mod(
            (a + b - 0x1_0000_0000) as nat,
            0x1_0000_0000,
        );
    }
}

/// Branch non-popping: a conditional branch, whether taken or not,
/// leaves SP and every memory word unchanged.
pub proof fn lemma_branch_keeps_sp(m: MachineView, i: Instruction)
    requires
        is_binif(i) || is_unif(i),
    ensures
        spec_exec(m, i) matches SpecStep::Run(m2) ==> m2.sp == m.sp && m2.ram == m.ram,
{
}

/// Call/Return stack discipline: a `Call` followed at once by a
/// `Return` with offset 0 brings SP back to its value before the call
/// and PC to the instruction just after the call.
pub proof fn lemma_call_return(m: MachineView, off: i32)
    requires
        m.wf(),
        0 <= m.pc < MEM_WORDS,
        can_push(m),
    ensures
        spec_exec(m, Instruction::Call(off)) matches SpecStep::Run(m1) && spec_exec(
            m1,
            Instruction::Return(0),
        ) matches SpecStep::Run(m2) && m2.sp == m.sp && m2.pc == m.pc + 1,
{
    assert(0i32 >> 2 == 0) by (bit_vector);
    vstd::arithmetic::div_mod::lemma_small_mod((m.pc + 1) as nat, 0x1_0000_0000);
    vstd::arithmetic::div_mod::lemma_small_mod((m.pc + 1) as nat, 0x1_0000);
    vstd::arithmetic::div_mod::lemma_small_mod(0nat, 0x1_0000);
}

proof fn lemma_round_trip_from(ram: Seq<u32>, start: int, s: Seq<u8>, j: int)
    requires
        ram.len() == MEM_WORDS,
        1 <= s.len(),
        forall|i: int| 0 <= i < s.len() ==> 0x20 <= #[trigger] s[i] <= 0x7e,
        1 <= start,
        start + pack_mem(s).len() <= MEM_WORDS,
        forall|t: int| 0 <= t < pack_mem(s).len() ==> ram[start + t] == #[trigger] pack_mem(s)[t],
        0 <= j < pack_mem(s).len(),
    ensures
        stprint_ok(ram, start + j),
        stprint_text(ram, start + j) == s.subrange(3 * j, s.len() as int),
    decreases pack_mem(s).len() - j,
{
    let p = pad3(s);
    let k = pack_mem(s).len() as int;
    vstd::arithmetic::div_mod::lemma_fundamental_div_mod(s.len() as int, 3);
    vstd::arithmetic::div_mod::lemma_fundamental_div_mod(p.len() as int, 3);
    assert(p.len() == 3 * k);
    assert(3 * k - 2 <= s.len() <= 3 * k);
    let w = ram[start + j];
    assert(pack_mem(s)[j] == mem_word(p, j));
    assert(w == mem_word(p, j));
    let mk: int = if j < k - 1 {
        1
    } else {
        0
    };
    lemma_word_fields(p[3 * j] as int, p[3 * j + 1] as int, p[3 * j + 2] as int, mk);
    if j == k - 1 {
        assert(stprint_ok(ram, start + j));
        assert(word_text(w) =~= s.subrange(3 * j, s.len() as int));
    } else {
        assert(3 * j + 2 < s.len());
        lemma_round_trip_from(ram, start, s, j + 1);
        assert(word_text(w) =~= s.subrange(3 * j, 3 * j + 3));
        assert(stprint_text(ram, start + j) == word_text(w) + stprint_text(
            ram,
            start + j + 1,
        ));
        assert(word_text(w) + s.subrange(3 * (j + 1), s.len() as int) =~= s.subrange(
            3 * j,
            s.len() as int,
        ));
    }
}

/// String packing round-trip: for a line of up to 24 printable bytes
/// (0x20 through 0x7E), printing the packed words that an `Stinput` just
/// pushed emits the line itself, byte for byte.
pub proof fn lemma_string_round_trip(ram: Seq<u32>, start: int, s: Seq<u8>)
    requires
        ram.len() == MEM_WORDS,
        1 <= s.len() <= 24,
        forall|i: int| 0 <= i < s.len() ==> 0x20 <= #[trigger] s[i] <= 0x7e,
        1 <= start,
        start + pack_mem(s).len() <= MEM_WORDS,
        forall|t: int| 0 <= t < pack_mem(s).len() ==> ram[start + t] == #[trigger] pack_mem(s)[t],
    ensures
        stprint_ok(ram, start),
        stprint_text(ram, start) == s,
{
    lemma_round_trip_from(ram, start, s, 0);
    assert(s.subrange(0, s.len() as int) =~= s);
}

} // verus!
