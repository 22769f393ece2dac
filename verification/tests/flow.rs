//! Jumps, conditional skips, subroutine calls and returns, and the
//! stack-depth limits.

use chip8::machine::Chip8;
use chip8::semantics::FaultKind;

fn rom_from_words(words: &[u16]) -> Vec<u8> {
    let mut rom: Vec<u8> = Vec::new();
    for w in words {
        rom.push((w >> 8) as u8);
        rom.push((w & 0xFF) as u8);
    }
    rom
}

fn machine_with(words: &[u16]) -> Chip8 {
    let mut c = Chip8::new();
    c.load_rom(&rom_from_words(words)).unwrap();
    c
}

fn run(c: &mut Chip8, cycles: usize) {
    for _ in 0..cycles {
        c.cycle().unwrap();
    }
}

/// Writes one big-endian instruction word into a ROM image at the given
/// memory address (the image itself loads at 0x200).
fn set_word(rom: &mut Vec<u8>, addr: usize, w: u16) {
    rom[addr - 0x200] = (w >> 8) as u8;
    rom[addr - 0x200 + 1] = (w & 0xFF) as u8;
}

#[test]
fn jump_sets_pc() {
    let mut c = machine_with(&[0x1234]);
    run(&mut c, 1);
    assert_eq!(c.program_counter(), 0x234);
}

#[test]
fn jump_offset_adds_v0() {
    let mut c = machine_with(&[0x6005, 0xB300]);
    run(&mut c, 2);
    assert_eq!(c.program_counter(), 0x305);
}

#[test]
fn skip_equal_imm_taken() {
    let mut c = machine_with(&[0x6005, 0x3005]);
    run(&mut c, 2);
    assert_eq!(c.program_counter(), 0x206);
}

#[test]
fn skip_equal_imm_not_taken() {
    let mut c = machine_with(&[0x6005, 0x3006]);
    run(&mut c, 2);
    assert_eq!(c.program_counter(), 0x204);
}

#[test]
fn skip_not_equal_imm_taken() {
    let mut c = machine_with(&[0x6005, 0x4006]);
    run(&mut c, 2);
    assert_eq!(c.program_counter(), 0x206);
}

#[test]
fn skip_not_equal_imm_not_taken() {
    let mut c = machine_with(&[0x6005, 0x4005]);
    run(&mut c, 2);
    assert_eq!(c.program_counter(), 0x204);
}

#[test]
fn skip_equal_reg_taken() {
    let mut c = machine_with(&[0x6007, 0x6107, 0x5010]);
    run(&mut c, 3);
    assert_eq!(c.program_counter(), 0x208);
}

#[test]
fn skip_equal_reg_not_taken() {
    let mut c = machine_with(&[0x6007, 0x6108, 0x5010]);
    run(&mut c, 3);
    assert_eq!(c.program_counter(), 0x206);
}

#[test]
fn skip_not_equal_reg_taken() {
    let mut c = machine_with(&[0x6007, 0x6108, 0x9010]);
    run(&mut c, 3);
    assert_eq!(c.program_counter(), 0x208);
}

#[test]
fn skip_not_equal_reg_not_taken() {
    let mut c = machine_with(&[0x6007, 0x6107, 0x9010]);
    run(&mut c, 3);
    assert_eq!(c.program_counter(), 0x206);
}

#[test]
fn call_pushes_return_address() {
    let mut c = machine_with(&[0x2300]);
    run(&mut c, 1);
    assert_eq!(c.program_counter(), 0x300);
    assert_eq!(c.stack_pointer(), 1);
}

#[test]
fn call_and_return_at_depths_one_through_sixteen() {
    // Sixteen nested calls at 0x200, 0x210, ..., 0x2F0, the last landing
    // at 0x300; a return sits at 0x300 and after every call site.
    let mut rom = vec![0u8; 0x102];
    for i in 0..16 {
        let here = 0x200 + 0x10 * i;
        let target = if i == 15 { 0x300 } else { here + 0x10 };
        set_word(&mut rom, here, 0x2000 | (target as u16));
        set_word(&mut rom, here + 2, 0x00EE);
    }
    set_word(&mut rom, 0x300, 0x00EE);
    let mut c = Chip8::new();
    c.load_rom(&rom).unwrap();

    for depth in 1..=16 {
        c.cycle().unwrap();
        assert_eq!(c.stack_pointer(), depth as u8);
        let landed = if depth == 16 { 0x300 } else { 0x200 + 0x10 * depth };
        assert_eq!(c.program_counter(), landed as u16);
    }
    // Each return lands on the instruction immediately after its call.
    for depth in (0..16).rev() {
        c.cycle().unwrap();
        assert_eq!(c.stack_pointer(), depth as u8);
        assert_eq!(c.program_counter(), (0x200 + 0x10 * depth + 2) as u16);
    }
}

#[test]
fn return_with_empty_stack_faults() {
    let mut c = machine_with(&[0x00EE]);
    let fault = c.cycle().unwrap_err();
    assert_eq!(fault.kind, FaultKind::StackUnderflow);
    assert_eq!(fault.instr, 0x00EE);
    assert_eq!(fault.pc, 0x200);
}

#[test]
fn seventeenth_call_faults_without_corrupting_state() {
    // Seventeen nested calls; the seventeenth (at 0x300) must fault.
    let mut rom = vec![0u8; 0x102];
    for i in 0..17 {
        let here = 0x200 + 0x10 * i;
        let target = if i >= 15 { 0x300 + 0x10 * (i - 15) } else { here + 0x10 };
        set_word(&mut rom, here, 0x2000 | (target as u16));
    }
    let mut c = Chip8::new();
    c.load_rom(&rom).unwrap();
    run(&mut c, 16);
    assert_eq!(c.stack_pointer(), 16);
    assert_eq!(c.program_counter(), 0x300);

    let fault = c.cycle().unwrap_err();
    assert_eq!(fault.kind, FaultKind::StackOverflow);
    assert_eq!(fault.instr, 0x2310);
    assert_eq!(fault.pc, 0x300);
    // Nothing was silently corrupted: the stack pointer still shows 16
    // frames and unrelated memory keeps its contents.
    assert_eq!(c.stack_pointer(), 16);
    assert_eq!(c.memory_byte(0x200), 0x22);
    assert_eq!(c.memory_byte(0x201), 0x10);
}
