use stackvm::exec::StepEvent;
use stackvm::machine::read_line;
use stackvm::machine::Machine;
use stackvm::VmError;

/// Run the machine to completion, feeding input lines from a byte buffer
/// and collecting the output and debug bytes.
fn drive(m: &mut Machine, input: &[u8]) -> (Result<u8, VmError>, Vec<u8>, Vec<u8>) {
    let mut pos: usize = 0;
    let mut out: Vec<u8> = Vec::new();
    let mut dbg: Vec<u8> = Vec::new();
    loop {
        match m.step_event() {
            Ok(StepEvent::Running) => {}
            Ok(StepEvent::Halted(code)) => return (Ok(code), out, dbg),
            Ok(StepEvent::Output(bytes)) => out.extend_from_slice(&bytes),
            Ok(StepEvent::DebugLine(bytes)) => dbg.extend_from_slice(&bytes),
            Ok(StepEvent::AwaitLine) => {
                let (line, next) = read_line(input, pos);
                pos = next;
                if let Err(e) = m.provide_line(&line) {
                    return (Err(e), out, dbg);
                }
            }
            Err(e) => return (Err(e), out, dbg),
        }
    }
}

fn loaded(words: &[u32]) -> Machine {
    let mut machine = Machine::new();
    let mut program = vec![0xefbe_adde];
    program.extend_from_slice(words);
    machine.load(&program).unwrap();
    machine
}

#[test]
fn exit_five() {
    let mut m = loaded(&[0x0000_0005]);
    let (result, out, dbg) = drive(&mut m, b"");
    assert_eq!(result.unwrap(), 5);
    assert_eq!(m.sp, 1024);
    assert!(out.is_empty());
    assert!(dbg.is_empty());
}

#[test]
fn push_then_exit() {
    let mut m = loaded(&[0xf000_0045, 0x0000_0000]);
    let (result, _out, _dbg) = drive(&mut m, b"");
    assert_eq!(result.unwrap(), 0);
    assert_eq!(m.word_at(1023), 0x45);
    assert_eq!(m.sp, 1023);
}

#[test]
fn push_minus_four() {
    let mut m = loaded(&[0xffff_fffc, 0x0000_0000]);
    let (result, _out, _dbg) = drive(&mut m, b"");
    result.unwrap();
    assert_eq!(m.word_at(1023) as i32, -4);
}

#[test]
fn push_then_pop() {
    let mut m = loaded(&[0xf000_0045, 0x1000_0004, 0x0000_0000]);
    let (result, _out, _dbg) = drive(&mut m, b"");
    result.unwrap();
    assert_eq!(m.sp, 1024);
}

#[test]
fn input_hex() {
    let mut m = loaded(&[0x0400_0000, 0x0000_0000]);
    let (result, _out, _dbg) = drive(&mut m, b"0x45\n");
    result.unwrap();
    assert_eq!(m.word_at(1023), 0x45);
    assert_eq!(m.sp, 1023);
}

#[test]
fn stinput_then_stprint() {
    let mut m = loaded(&[0x0500_00ff, 0x4000_0000, 0x0000_0000]);
    let (result, out, _dbg) = drive(&mut m, b"Hello World\n");
    result.unwrap();
    assert_eq!(out, b"Hello World");
    assert_eq!(m.word_at(1020), 0x016c_6548);
    assert_eq!(m.word_at(1021), 0x0120_6f6c);
    assert_eq!(m.word_at(1022), 0x0172_6f57);
    assert_eq!(m.word_at(1023), 0x0001_646c);
    assert_eq!(m.sp, 1020);
}

#[test]
fn input_decimal_negative() {
    let mut m = loaded(&[0x0400_0000, 0x0000_0000]);
    let (result, _out, _dbg) = drive(&mut m, b"-4\n");
    result.unwrap();
    assert_eq!(m.word_at(1023), 0xffff_fffc);
}

#[test]
fn input_binary_with_trim() {
    let mut m = loaded(&[0x0400_0000, 0x0000_0000]);
    let (result, _out, _dbg) = drive(&mut m, b"  0b101 \n");
    result.unwrap();
    assert_eq!(m.word_at(1023), 5);
}

#[test]
fn input_parse_error_is_fatal() {
    let mut m = loaded(&[0x0400_0000, 0x0000_0000]);
    let (result, _out, _dbg) = drive(&mut m, b"fortyfive\n");
    assert_eq!(result.unwrap_err(), VmError::ParseError);
}

#[test]
fn add_wraps() {
    // Push 1, push -1 (all ones), add: the sum wraps to zero.
    let mut m = loaded(&[0xf000_0001, 0xffff_ffff, 0x2000_0000, 0x0000_0000]);
    let (result, _out, _dbg) = drive(&mut m, b"");
    result.unwrap();
    assert_eq!(m.sp, 1023);
    assert_eq!(m.word_at(1023), 0);
}

#[test]
fn add_concrete() {
    let mut m = loaded(&[0xf000_0003, 0xf000_0004, 0x2000_0000, 0x0000_0000]);
    let (result, _out, _dbg) = drive(&mut m, b"");
    result.unwrap();
    assert_eq!(m.word_at(1023), 7);
    assert_eq!(m.sp, 1023);
}

#[test]
fn div_by_zero_yields_zero() {
    let mut m = loaded(&[0xf000_0005, 0xf000_0000, 0x2300_0000, 0x0000_0000]);
    let (result, _out, _dbg) = drive(&mut m, b"");
    result.unwrap();
    assert_eq!(m.word_at(1023), 0);
}

#[test]
fn rem_by_zero_yields_zero() {
    let mut m = loaded(&[0xf000_0005, 0xf000_0000, 0x2400_0000, 0x0000_0000]);
    let (result, _out, _dbg) = drive(&mut m, b"");
    result.unwrap();
    assert_eq!(m.word_at(1023), 0);
}

#[test]
fn swap_two_slots() {
    // Push 0x11, push 0x22, swap byte offsets 0 and 4.
    let mut m = loaded(&[0xf000_0011, 0xf000_0022, 0x0100_0004, 0x0000_0000]);
    let (result, _out, _dbg) = drive(&mut m, b"");
    result.unwrap();
    assert_eq!(m.word_at(1022), 0x11);
    assert_eq!(m.word_at(1023), 0x22);
}

#[test]
fn branch_taken_keeps_operands() {
    // Push 1, push 1; if-equal skips one word to Exit(0); the fall-through
    // word would exit 1. The operands stay on the stack either way.
    let mut m = loaded(&[0xf000_0001, 0xf000_0001, 0x8000_0008, 0x0000_0001, 0x0000_0000]);
    let (result, _out, _dbg) = drive(&mut m, b"");
    assert_eq!(result.unwrap(), 0);
    assert_eq!(m.sp, 1022);
}

#[test]
fn branch_not_taken_keeps_operands() {
    let mut m = loaded(&[0xf000_0001, 0xf000_0002, 0x8000_0008, 0x0000_0001, 0x0000_0000]);
    let (result, _out, _dbg) = drive(&mut m, b"");
    assert_eq!(result.unwrap(), 1);
    assert_eq!(m.sp, 1022);
}

#[test]
fn call_then_return() {
    // Call jumps two words ahead, pushing the return address; Return with
    // offset 0 lands on Exit(7) with the stack back at its old depth.
    let mut m = loaded(&[0x5000_0008, 0x0000_0007, 0x6000_0000]);
    let (result, _out, _dbg) = drive(&mut m, b"");
    assert_eq!(result.unwrap(), 7);
    assert_eq!(m.sp, 1024);
}

#[test]
fn print_hex_line() {
    // Push 0x45, print the top of the stack in hexadecimal.
    let mut m = loaded(&[0xf000_0045, 0xd000_0001, 0x0000_0000]);
    let (result, out, _dbg) = drive(&mut m, b"");
    result.unwrap();
    assert_eq!(out, b"0x45\n");
}

#[test]
fn print_signed_decimal_line() {
    let mut m = loaded(&[0xffff_fffc, 0xd000_0000, 0x0000_0000]);
    let (result, out, _dbg) = drive(&mut m, b"");
    result.unwrap();
    assert_eq!(out, b"-4\n");
}

#[test]
fn print_binary_and_octal_lines() {
    let mut m = loaded(&[0xf000_002a, 0xd000_0002, 0xd000_0003, 0x0000_0000]);
    let (result, out, _dbg) = drive(&mut m, b"");
    result.unwrap();
    assert_eq!(out, b"0b101010\n0o52\n");
}

#[test]
fn debug_line_on_stderr() {
    let mut m = loaded(&[0x0f00_0045, 0x0000_0000]);
    let (result, out, dbg) = drive(&mut m, b"");
    result.unwrap();
    assert!(out.is_empty());
    assert_eq!(dbg, b"Debug: 0x000045\n");
}

#[test]
fn dump_lines() {
    let mut m = loaded(&[0xf000_0045, 0xe000_0000, 0x0000_0000]);
    let (result, out, _dbg) = drive(&mut m, b"");
    result.unwrap();
    assert_eq!(out, b"03ff: 00000045\n");
}

#[test]
fn dup_below_top() {
    // Push 0x11, push 0x22, duplicate the word four bytes below SP.
    let mut m = loaded(&[0xf000_0011, 0xf000_0022, 0xc000_0004, 0x0000_0000]);
    let (result, _out, _dbg) = drive(&mut m, b"");
    result.unwrap();
    assert_eq!(m.sp, 1021);
    assert_eq!(m.word_at(1021), 0x11);
}

#[test]
fn stinput_empty_line_pushes_zero() {
    let mut m = loaded(&[0x0500_00ff, 0x0000_0000]);
    let (result, _out, _dbg) = drive(&mut m, b"\n");
    result.unwrap();
    assert_eq!(m.sp, 1023);
    assert_eq!(m.word_at(1023), 0);
}

#[test]
fn stinput_truncates_to_max() {
    // A three-character cap packs one word from a longer line.
    let mut m = loaded(&[0x0500_0003, 0x4000_0000, 0x0000_0000]);
    let (result, out, _dbg) = drive(&mut m, b"abcdef\n");
    result.unwrap();
    assert_eq!(m.sp, 1023);
    assert_eq!(out, b"abc");
}

#[test]
fn stinput_stprint_round_trip_short() {
    let mut m = loaded(&[0x0500_00ff, 0x4000_0000, 0x0000_0000]);
    let (result, out, _dbg) = drive(&mut m, b"ab\n");
    result.unwrap();
    assert_eq!(out, b"ab");
    assert_eq!(m.sp, 1023);
}

#[test]
fn push_pop_inverse_many() {
    // Three pushes, one Pop of twelve bytes: SP is back at the empty mark.
    let mut m = loaded(&[0xf000_0001, 0xf000_0002, 0xf000_0003, 0x1000_000c, 0x0000_0000]);
    let (result, _out, _dbg) = drive(&mut m, b"");
    result.unwrap();
    assert_eq!(m.sp, 1024);
}

#[test]
fn goto_skips_words() {
    let mut m = loaded(&[0x7000_0008, 0x0000_0001, 0x0000_0009]);
    let (result, _out, _dbg) = drive(&mut m, b"");
    assert_eq!(result.unwrap(), 9);
}

#[test]
fn return_frees_extra_words() {
    // A word pushed before the call is freed too when Return carries a
    // four-byte offset; the return address is still the top of the stack.
    let mut m = loaded(&[0xf000_0042, 0x5000_0008, 0x0000_0005, 0x6000_0004]);
    let (result, _out, _dbg) = drive(&mut m, b"");
    assert_eq!(result.unwrap(), 5);
    assert_eq!(m.sp, 1024);
}

#[test]
fn stprint_from_deeper_offset() {
    // A word pushed on top of the packed string; printing starts four
    // bytes below the top of the stack.
    let mut m = loaded(&[0x0500_00ff, 0xf000_0045, 0x4000_0004, 0x0000_0000]);
    let (result, out, _dbg) = drive(&mut m, b"abc\n");
    result.unwrap();
    assert_eq!(out, b"abc");
}

#[test]
fn unary_branch_on_zero() {
    // Push 0; if-zero skips one word to Exit(0), keeping the operand.
    let mut m = loaded(&[0xf000_0000, 0x9000_0008, 0x0000_0001, 0x0000_0000]);
    let (result, _out, _dbg) = drive(&mut m, b"");
    assert_eq!(result.unwrap(), 0);
    assert_eq!(m.sp, 1023);
}

#[test]
fn input_line_ends_at_nul() {
    let mut m = loaded(&[0x0400_0000, 0x0000_0000]);
    let (result, _out, _dbg) = drive(&mut m, b"7\0junk");
    result.unwrap();
    assert_eq!(m.word_at(1023), 7);
}

#[test]
fn pop_saturates_at_empty() {
    // Popping far more than the stack holds clamps SP at 1024.
    let mut m = loaded(&[0xf000_0001, 0x1fff_fffc, 0x0000_0000]);
    let (result, _out, _dbg) = drive(&mut m, b"");
    result.unwrap();
    assert_eq!(m.sp, 1024);
}
