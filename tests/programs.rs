use um::error::UmError;
use um::instruction::{decode, Instruction};
use um::loader::words_from_be_bytes;
use um::mch_state::{Event, MchState};

fn three(op: u32, a: u32, b: u32, c: u32) -> u32 {
    (op << 28) | (a << 6) | (b << 3) | c
}

fn load_val(a: u32, value: u32) -> u32 {
    (13 << 28) | (a << 25) | value
}

/// Runs `m` to the end, feeding it `input`; returns the bytes written and how
/// the run ended.
fn run(m: &mut MchState, input: &[u8]) -> (Vec<u8>, Result<(), UmError>) {
    let mut out = Vec::new();
    let mut next = 0;
    loop {
        let byte = if m.needs_input() {
            let b = input.get(next).copied();
            next += 1;
            b
        } else {
            None
        };
        match m.step(byte) {
            Ok(Event::Continue) => {},
            Ok(Event::Output(b)) => out.push(b),
            Ok(Event::Halted) => return (out, Ok(())),
            Err(e) => return (out, Err(e)),
        }
    }
}

#[test]
fn load_output_halt_writes_one_byte() {
    let program = vec![load_val(0, 72), three(10, 0, 0, 0), three(7, 0, 0, 0)];
    let mut m = MchState::new(program);
    let (out, end) = run(&mut m, &[]);
    assert_eq!(out, vec![72]);
    assert_eq!(end, Ok(()));
    assert!(m.halted);
}

#[test]
fn map_unmap_then_load_faults() {
    let program = vec![
        load_val(2, 10),
        three(8, 0, 1, 2),
        three(9, 0, 0, 1),
        three(1, 3, 1, 0),
    ];
    let mut m = MchState::new(program);
    assert_eq!(m.step(None), Ok(Event::Continue));
    assert_eq!(m.step(None), Ok(Event::Continue));
    let id = m.regs[1];
    assert_ne!(id, 0);
    assert_eq!(m.addr_space.get(id).unwrap(), &vec![0u32; 10]);
    assert_eq!(m.step(None), Ok(Event::Continue));
    assert_eq!(m.step(None), Err(UmError::UnmappedSegment(id)));
    assert_eq!(m.prog_cntr, 3);
}

#[test]
fn load_prog_from_segment_zero_keeps_program() {
    let program = vec![load_val(2, 3), three(12, 0, 1, 2), three(7, 0, 0, 0), load_val(4, 1)];
    let before = program.clone();
    let mut m = MchState::new(program);
    assert_eq!(m.step(None), Ok(Event::Continue));
    assert_eq!(m.step(None), Ok(Event::Continue));
    assert_eq!(m.prog_cntr, 3);
    assert_eq!(m.addr_space.get(0).unwrap(), &before);
    assert_eq!(m.regs, [0, 0, 3, 0, 0, 0, 0, 0]);
}

#[test]
fn running_past_the_end_halts() {
    let mut m = MchState::new(vec![load_val(1, 5)]);
    assert_eq!(m.step(None), Ok(Event::Continue));
    assert!(!m.halted);
    assert_eq!(m.step(None), Ok(Event::Halted));
    assert!(m.halted);
    assert_eq!(m.step(None), Ok(Event::Halted));
    assert_eq!(m.regs[1], 5);
}

#[test]
fn empty_program_halts_at_once() {
    let mut m = MchState::new(vec![]);
    assert_eq!(m.step(None), Ok(Event::Halted));
}

#[test]
fn halted_machine_stays_put() {
    let mut m = MchState::new(vec![three(7, 0, 0, 0), load_val(0, 1)]);
    assert_eq!(m.step(None), Ok(Event::Halted));
    assert_eq!(m.step(None), Ok(Event::Halted));
    assert_eq!(m.regs[0], 0);
}

#[test]
fn invalid_opcode_faults() {
    let mut m = MchState::new(vec![14 << 28]);
    assert_eq!(m.step(None), Err(UmError::InvalidOpcode(14)));
    let mut m = MchState::new(vec![0xF000_0000]);
    assert_eq!(m.step(None), Err(UmError::InvalidOpcode(15)));
    assert_eq!(m.prog_cntr, 0);
}

#[test]
fn echo_program_copies_input() {
    // in r1; out r1; in r1; out r1; in r1 (end of input); halt
    let program = vec![
        three(11, 0, 0, 1),
        three(10, 0, 0, 1),
        three(11, 0, 0, 1),
        three(10, 0, 0, 1),
        three(11, 0, 0, 1),
        three(7, 0, 0, 0),
    ];
    let mut m = MchState::new(program);
    let (out, end) = run(&mut m, b"hi");
    assert_eq!(out, b"hi".to_vec());
    assert_eq!(end, Ok(()));
    assert_eq!(m.regs[1], u32::MAX);
}

#[test]
fn output_of_large_value_faults() {
    let program = vec![load_val(0, 300), three(10, 0, 0, 0)];
    let mut m = MchState::new(program);
    let (out, end) = run(&mut m, &[]);
    assert!(out.is_empty());
    assert_eq!(end, Err(UmError::OutputByteRangeError(300)));
}

#[test]
fn arithmetic_through_steps() {
    // r1 = 0x1FFFFFF; r2 = 0x1FFFFFF; r3 = r1 * r2; r4 = r3 / r1; r5 = nand(r4, r4)
    let program = vec![
        load_val(1, 0x1FF_FFFF),
        load_val(2, 0x1FF_FFFF),
        three(4, 3, 1, 2),
        three(5, 4, 3, 1),
        three(6, 5, 4, 4),
        three(3, 6, 1, 2),
        three(0, 7, 1, 0),
    ];
    let mut m = MchState::new(program);
    let (_, end) = run(&mut m, &[]);
    assert_eq!(end, Ok(()));
    let product = (0x1FF_FFFFu64 * 0x1FF_FFFFu64 % 0x1_0000_0000) as u32;
    assert_eq!(m.regs[3], product);
    assert_eq!(m.regs[4], product / 0x1FF_FFFF);
    assert_eq!(m.regs[5], !(product / 0x1FF_FFFF));
    assert_eq!(m.regs[6], 0x3FF_FFFE);
    assert_eq!(m.regs[7], 0);
}

#[test]
fn self_modifying_program_via_store_and_jump() {
    // Map a 2-word segment, store a halt in it, load it as the program.
    let program = vec![
        load_val(2, 2),
        three(8, 0, 1, 2),
        load_val(3, 7),
        three(4, 3, 3, 4),
        three(2, 1, 0, 3),
        three(12, 0, 1, 0),
    ];
    let mut m = MchState::new(program);
    m.regs[4] = 1 << 28;
    let (_, end) = run(&mut m, &[]);
    assert_eq!(end, Ok(()));
    assert_eq!(m.addr_space.get(0).unwrap(), &vec![7 << 28, 0]);
    assert_eq!(m.prog_cntr, 1);
}

#[test]
fn decode_fields() {
    assert_eq!(decode(three(3, 1, 2, 7)), Instruction::Add(1, 2, 7));
    assert_eq!(decode(0x0000_01FF), Instruction::CondMove(7, 7, 7));
    assert_eq!(decode(load_val(5, 0x1FF_FFFF)), Instruction::LoadVal(5, 0x1FF_FFFF));
    assert_eq!(decode(0x7FFF_FFFF), Instruction::Halt);
    assert_eq!(decode(0xE000_0000), Instruction::Invalid(14));
    assert_eq!(decode(three(12, 0, 6, 5) | 0x0FFF_FE00), Instruction::LoadProg(0, 6, 5));
}

#[test]
fn needs_input_only_before_input() {
    let mut m = MchState::new(vec![three(11, 0, 0, 2), load_val(0, 1)]);
    assert!(m.needs_input());
    assert_eq!(m.step(Some(65)), Ok(Event::Continue));
    assert_eq!(m.regs[2], 65);
    assert!(!m.needs_input());
    assert_eq!(m.step(Some(66)), Ok(Event::Continue));
    assert_eq!(m.regs[0], 1);
    assert!(!m.needs_input());
}

#[test]
fn words_from_big_endian_bytes() {
    let bytes = vec![0x12, 0x34, 0x56, 0x78, 0xD0, 0x00, 0x00, 0x48];
    assert_eq!(words_from_be_bytes(&bytes), Some(vec![0x1234_5678, 0xD000_0048]));
    assert_eq!(words_from_be_bytes(&vec![]), Some(vec![]));
    assert_eq!(words_from_be_bytes(&vec![1, 2, 3]), None);
    assert_eq!(words_from_be_bytes(&vec![0xFF; 5]), None);
}
