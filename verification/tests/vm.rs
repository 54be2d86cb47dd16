use stackvm::exec::StepEvent;
use stackvm::machine::read_line;
use stackvm::machine::Machine;
use stackvm::VmError;

/// Run the machine to completion, feeding input lines from a byte buffer
/// and collecting the output and debug bytes.
fn drive(m: &mut Machine, input: &[u8]) -> (Result<u8, VmError>, Vec<u8>, Vec<u8>) {
    let mut pos: usize = 0;
    let mut out: Vec<u8> = Vec::new();
    let mut dbg: Vec<u8> = Vec::new();
    loop {
        match m.step_event() {
            Ok(StepEvent::Running) => {}
            Ok(StepEvent::Halted(code)) => return (Ok(code), out, dbg),
            Ok(StepEvent::Output(bytes)) => out.extend_from_slice(&bytes),
            Ok(StepEvent::DebugLine(bytes)) => dbg.extend_from_slice(&bytes),
            Ok(StepEvent::AwaitLine) => {
                let (line, next) = read_line(input, pos);
                pos = next;
                if let Err(e) = m.provide_line(&line) {
                    return (Err(e), out, dbg);
                }
            }
            Err(e) => return (Err(e), out, dbg),
        }
    }
}

#[test]
fn construct_machine() {
    let mut machine = Machine { ram: vec![0; 1024], sp: 1024, pc: 0 };

    let program = &[0xefbe_adde, 0x0005_0000, 0x0000_0000];

    machine.load(program).unwrap();

    assert_eq!(machine.ram[..program.len() - 1], program[1..]);
}

#[test]
fn test_input() {
    let mut machine = Machine { ram: vec![0; 1024], sp: 1024, pc: 0 };

    let program = &[0xefbe_adde, 0x0400_0000];

    let input: u32 = 0x45;
    let input_text = format!("{:#x}", input);

    machine.load(program).unwrap();
    let (result, _out, _dbg) = drive(&mut machine, input_text.as_bytes());
    result.unwrap();

    let word = machine.ram[machine.sp as usize];
    assert_eq!(word, input)
}

#[test]
fn test_stinput() {
    let mut machine = Machine { ram: vec![0; 1024], sp: 1024, pc: 0 };

    let program = &[0xefbe_adde, 0x0500_00ff];

    machine.load(program).unwrap();
    let (result, _out, _dbg) = drive(&mut machine, b"Hello World\n");
    result.unwrap();

    let words = &machine.ram[machine.sp as usize..machine.sp as usize + 4];

    // This weird array is the string in reverse order, grouped into triplets,
    // and padded with 0/1 depending on if we're at the end of the string
    assert_eq!(&[0x016c_6548, 0x0120_6f6c, 0x0172_6f57, 0x0001_646c], &words);
    assert_eq!(1024 - 4, machine.sp);
}

#[test]
fn test_stprint() {
    let mut machine = Machine { ram: vec![0; 1024], sp: 1024, pc: 0 };

    let program = &[0xefbe_adde, 0x0500_00ff, 0x4000_0000];

    machine.load(program).unwrap();
    let (result, out, _dbg) = drive(&mut machine, b"Hello World!");
    result.unwrap();

    let output_str = String::from_utf8(out).unwrap();

    assert_eq!("Hello World!", output_str);
}

#[test]
fn test_push() {
    let mut machine = Machine { ram: vec![0; 1024], sp: 1024, pc: 0 };

    let program = &[0xefbe_adde, 0xf000_0045];

    machine.load(program).unwrap();
    let (result, _out, _dbg) = drive(&mut machine, b"");
    result.unwrap();

    let word = machine.ram[machine.sp as usize];

    assert_eq!(0x45, word);
    assert_eq!(1023, machine.sp);
}

#[test]
fn test_push_negative() {
    let mut machine = Machine { ram: vec![0; 1024], sp: 1024, pc: 0 };

    // Push -4
    let program = &[0xefbe_adde, 0xffff_fffc];

    machine.load(program).unwrap();
    let (result, _out, _dbg) = drive(&mut machine, b"");
    result.unwrap();

    let word = i32::from_ne_bytes(machine.ram[machine.sp as usize].to_ne_bytes());

    assert_eq!(-4, word);
    assert_eq!(1023, machine.sp);
}

#[test]
fn test_pop() {
    let mut machine = Machine { ram: vec![0; 1024], sp: 1024, pc: 0 };

    let program = &[0xefbe_adde, 0xf000_0045, 0x1000_0004];

    machine.load(program).unwrap();
    let (result, _out, _dbg) = drive(&mut machine, b"");
    result.unwrap();

    assert_eq!(1024, machine.sp);
}
