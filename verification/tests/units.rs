use stackvm::decode::decode;
use stackvm::decode::Instruction;
use stackvm::decode::Opcode;
use stackvm::exec::StepEvent;
use stackvm::machine::read_line;
use stackvm::machine::Machine;
use stackvm::numfmt::debug_line;
use stackvm::numfmt::dump_line;
use stackvm::numfmt::print_line;
use stackvm::numparse::parse_input;
use stackvm::words::alu_asr;
use stackvm::words::alu_lsl;
use stackvm::words::alu_lsr;
use stackvm::words::alu_mul;
use stackvm::words::alu_neg;
use stackvm::words::alu_sub;
use stackvm::strings::pack_string;
use stackvm::strings::trim;
use stackvm::VmError;

#[test]
fn new_machine_is_empty() {
    let m = Machine::new();
    assert_eq!(m.sp(), 1024);
    assert_eq!(m.pc(), 0);
    assert_eq!(m.word_at(0), 0);
    assert_eq!(m.word_at(1023), 0);
}

#[test]
fn load_rejects_bad_magic() {
    let mut m = Machine::new();
    assert_eq!(m.load(&[0xdead_beef, 1]).unwrap_err(), VmError::BadMagic);
    assert_eq!(m.load(&[]).unwrap_err(), VmError::BadMagic);
}

#[test]
fn load_rejects_oversized_program() {
    let mut m = Machine::new();
    let program = vec![0xefbe_adde; 1026];
    assert_eq!(m.load(&program).unwrap_err(), VmError::Truncated);
}

#[test]
fn load_image_round_trip() {
    let mut m = Machine::new();
    let bytes = [0xde, 0xad, 0xbe, 0xef, 0x45, 0x00, 0x00, 0xf0, 0x00, 0x00, 0x00, 0x00];
    m.load_image(&bytes).unwrap();
    assert_eq!(m.word_at(0), 0xf000_0045);
    assert_eq!(m.word_at(1), 0);
    assert_eq!(m.sp(), 1024);
    assert_eq!(m.pc(), 0);
}

#[test]
fn load_image_rejects_torn_word() {
    let mut m = Machine::new();
    let bytes = [0xde, 0xad, 0xbe, 0xef, 0x45];
    assert_eq!(m.load_image(&bytes).unwrap_err(), VmError::Truncated);
}

#[test]
fn load_image_rejects_short_header() {
    let mut m = Machine::new();
    assert_eq!(m.load_image(&[0xde, 0xad]).unwrap_err(), VmError::BadMagic);
}

#[test]
fn push_on_full_stack_overflows() {
    let mut m = Machine { ram: vec![0; 1024], sp: 0, pc: 0 };
    assert_eq!(m.push(5).unwrap_err(), VmError::StackOverflow);
}

#[test]
fn arith_on_empty_stack_is_out_of_bounds() {
    let mut m = Machine::new();
    m.load(&[0xefbe_adde, 0x2000_0000]).unwrap();
    match m.step_event() {
        Err(VmError::OutOfBounds) => {}
        other => panic!("expected an out-of-bounds fault, got {:?}", other),
    }
}

#[test]
fn reserved_opcodes_are_decoder_errors() {
    assert_eq!(decode(0xa000_0000).unwrap_err(), VmError::DecoderError);
    assert_eq!(decode(0xb000_0000).unwrap_err(), VmError::DecoderError);
    assert_eq!(decode(0x0300_0000).unwrap_err(), VmError::DecoderError);
    assert_eq!(decode(0x2a00_0000).unwrap_err(), VmError::DecoderError);
}

#[test]
fn decode_classifies_families() {
    assert_eq!(Opcode::from_integer(0).unwrap(), Opcode::Miscellaneous);
    assert_eq!(Opcode::from_integer(12).unwrap(), Opcode::Dup);
    assert_eq!(Opcode::from_integer(10).unwrap_err(), VmError::DecoderError);
    assert_eq!(decode(0xf000_0045).unwrap(), Instruction::Push(0x45));
    assert_eq!(decode(0xffff_fffc).unwrap(), Instruction::Push(0xffff_fffc));
    assert_eq!(decode(0x0000_0005).unwrap(), Instruction::Exit(5));
    assert_eq!(decode(0x0200_0000).unwrap(), Instruction::Nop);
    assert_eq!(decode(0x2100_0000).unwrap(), Instruction::Sub);
    assert_eq!(decode(0x3100_0000).unwrap(), Instruction::Not);
    assert_eq!(decode(0x8400_0008).unwrap(), Instruction::IfLt(8));
    assert_eq!(decode(0x93ff_fffc).unwrap(), Instruction::NeZero(-4));
    assert_eq!(decode(0x5fff_fff8).unwrap(), Instruction::Call(-8));
    assert_eq!(decode(0x0100_0004).unwrap(), Instruction::Swap(0, 4));
    assert_eq!(decode(0x0500_0003).unwrap(), Instruction::Stinput(3));
    assert_eq!(decode(0xd000_0001).unwrap(), Instruction::Print(0, 1));
    assert_eq!(decode(0xdfff_fff1).unwrap(), Instruction::Print(-4, 1));
}

#[test]
fn fetch_outside_memory_is_decoder_error() {
    let mut m = Machine { ram: vec![0; 1024], sp: 1024, pc: -1 };
    assert_eq!(m.fetch().unwrap_err(), VmError::DecoderError);
    m.pc = 1024;
    assert_eq!(m.fetch().unwrap_err(), VmError::DecoderError);
}

#[test]
fn print_lines_exact() {
    assert_eq!(print_line(0x45, 1), b"0x45\n");
    assert_eq!(print_line(0xffff_fffc, 0), b"-4\n");
    assert_eq!(print_line(42, 2), b"0b101010\n");
    assert_eq!(print_line(42, 3), b"0o52\n");
    assert_eq!(print_line(0, 0), b"0\n");
    assert_eq!(print_line(0xdead_beef, 1), b"0xDEADBEEF\n");
}

#[test]
fn debug_and_dump_lines_exact() {
    assert_eq!(debug_line(0x45), b"Debug: 0x000045\n");
    assert_eq!(debug_line(0xabcdef), b"Debug: 0xABCDEF\n");
    assert_eq!(dump_line(0x3ff, 0x45), b"03ff: 00000045\n");
    assert_eq!(dump_line(0, 0xdeadbeef), b"0000: deadbeef\n");
}

#[test]
fn parse_input_bases() {
    assert_eq!(parse_input(b"0x45"), Some(0x45));
    assert_eq!(parse_input(b"0XFF"), Some(255));
    assert_eq!(parse_input(b"0b101"), Some(5));
    assert_eq!(parse_input(b"0B11"), Some(3));
    assert_eq!(parse_input(b"123"), Some(123));
    assert_eq!(parse_input(b"-4"), Some(0xffff_fffc));
    assert_eq!(parse_input(b"+7"), Some(7));
    assert_eq!(parse_input(b"-2147483648"), Some(0x8000_0000));
    assert_eq!(parse_input(b"2147483647"), Some(0x7fff_ffff));
    assert_eq!(parse_input(b"2147483648"), None);
    assert_eq!(parse_input(b"0x"), None);
    assert_eq!(parse_input(b"0xg1"), None);
    assert_eq!(parse_input(b"0b2"), None);
    assert_eq!(parse_input(b""), None);
    assert_eq!(parse_input(b"12a"), None);
    assert_eq!(parse_input(b"0x100000000"), None);
}

#[test]
fn alu_operations_exact() {
    assert_eq!(alu_sub(3, 5), 0xffff_fffe);
    assert_eq!(alu_mul(7, 6), 42);
    assert_eq!(alu_mul(0x1_0000, 0x1_0000), 0);
    assert_eq!(alu_lsl(1, 4), 16);
    assert_eq!(alu_lsl(1, 33), 2);
    assert_eq!(alu_lsr(0x8000_0000, 31), 1);
    assert_eq!(alu_asr(0x8000_0000, 31), 0xffff_ffff);
    assert_eq!(alu_asr(0x4000_0000, 30), 1);
    assert_eq!(alu_neg(1), 0xffff_ffff);
    assert_eq!(alu_neg(0), 0);
    assert_eq!(alu_neg(0x8000_0000), 0x8000_0000);
}

#[test]
fn trim_strips_surrounding_whitespace() {
    assert_eq!(trim(b"  hi\t"), b"hi");
    assert_eq!(trim(b"\r\nhey"), b"hey");
    assert_eq!(trim(b"   "), b"");
    assert_eq!(trim(b"a b"), b"a b");
}

#[test]
fn read_line_stops_at_terminators() {
    let input = b"one\ntwo\0three";
    let (l1, p1) = read_line(input, 0);
    assert_eq!(l1, b"one");
    let (l2, p2) = read_line(input, p1);
    assert_eq!(l2, b"two");
    let (l3, p3) = read_line(input, p2);
    assert_eq!(l3, b"three");
    assert_eq!(p3, input.len());
}

#[test]
fn pack_words_exact() {
    let words = pack_string(b"Hello World");
    assert_eq!(words, vec![0x016c_6548, 0x0120_6f6c, 0x0172_6f57, 0x0001_646c]);
    let one = pack_string(b"ab");
    assert_eq!(one, vec![0x0001_6261]);
}

#[test]
fn provide_line_without_pending_input_is_refused() {
    let mut m = Machine::new();
    m.load(&[0xefbe_adde, 0x0000_0000]).unwrap();
    assert_eq!(m.provide_line(b"1").unwrap_err(), VmError::DecoderError);
}

#[test]
fn step_events_report_await() {
    let mut m = Machine::new();
    m.load(&[0xefbe_adde, 0x0400_0000]).unwrap();
    match m.step_event() {
        Ok(StepEvent::AwaitLine) => {}
        other => panic!("expected a pending input line, got {:?}", other),
    }
    m.provide_line(b"9").unwrap();
    assert_eq!(m.word_at(1023), 9);
    assert_eq!(m.pc(), 1);
}
