//! The keypad instructions: conditional skips on key state and the
//! cooperative block-on-key wait.

use chip8::machine::Chip8;
use chip8::semantics::FaultKind;

fn rom_from_words(words: &[u16]) -> Vec<u8> {
    let mut rom: Vec<u8> = Vec::new();
    for w in words {
        rom.push((w >> 8) as u8);
        rom.push((w & 0xFF) as u8);
    }
    rom
}

fn machine_with(words: &[u16]) -> Chip8 {
    let mut c = Chip8::new();
    c.load_rom(&rom_from_words(words)).unwrap();
    c
}

fn run(c: &mut Chip8, cycles: usize) {
    for _ in 0..cycles {
        c.cycle().unwrap();
    }
}

#[test]
fn skip_key_pressed_taken() {
    let mut c = machine_with(&[0x6004, 0xE09E]);
    c.set_key(4, true);
    run(&mut c, 2);
    assert_eq!(c.program_counter(), 0x206);
}

#[test]
fn skip_key_pressed_not_taken() {
    let mut c = machine_with(&[0x6004, 0xE09E]);
    run(&mut c, 2);
    assert_eq!(c.program_counter(), 0x204);
}

#[test]
fn skip_key_not_pressed_taken() {
    let mut c = machine_with(&[0x6004, 0xE0A1]);
    run(&mut c, 2);
    assert_eq!(c.program_counter(), 0x206);
}

#[test]
fn skip_key_not_pressed_not_taken() {
    let mut c = machine_with(&[0x6004, 0xE0A1]);
    c.set_key(4, true);
    run(&mut c, 2);
    assert_eq!(c.program_counter(), 0x204);
}

#[test]
fn released_key_counts_as_not_pressed() {
    let mut c = machine_with(&[0x6004, 0xE0A1]);
    c.set_key(4, true);
    c.set_key(4, false);
    run(&mut c, 2);
    assert_eq!(c.program_counter(), 0x206);
}

#[test]
fn key_number_above_fifteen_faults() {
    let mut c = machine_with(&[0x6010, 0xE09E]);
    c.cycle().unwrap();
    let fault = c.cycle().unwrap_err();
    assert_eq!(fault.kind, FaultKind::InvalidKey);
    assert_eq!(fault.instr, 0xE09E);
    assert_eq!(fault.pc, 0x202);

    let mut c = machine_with(&[0x6010, 0xE0A1]);
    c.cycle().unwrap();
    let fault = c.cycle().unwrap_err();
    assert_eq!(fault.kind, FaultKind::InvalidKey);
}

#[test]
fn await_key_with_nothing_pressed_repeats_the_instruction() {
    // The fetch advances the program counter and the handler rewinds it,
    // so a full cycle leaves it unchanged, ready to re-execute.
    let mut c = machine_with(&[0xF50A]);
    c.cycle().unwrap();
    assert_eq!(c.program_counter(), 0x200);
    assert_eq!(c.register(5), 0);
    // It keeps busy-waiting on later cycles too.
    c.cycle().unwrap();
    assert_eq!(c.program_counter(), 0x200);
}

#[test]
fn await_key_takes_a_pressed_key_and_proceeds() {
    let mut c = machine_with(&[0xF50A]);
    c.set_key(9, true);
    c.cycle().unwrap();
    assert_eq!(c.program_counter(), 0x202);
    assert_eq!(c.register(5), 9);
}

#[test]
fn await_key_scans_ascending_and_takes_the_lowest() {
    let mut c = machine_with(&[0xF50A]);
    c.set_key(7, true);
    c.set_key(3, true);
    c.cycle().unwrap();
    assert_eq!(c.register(5), 3);
    assert_eq!(c.program_counter(), 0x202);
}

#[test]
fn await_key_wakes_once_a_key_arrives() {
    let mut c = machine_with(&[0xF00A]);
    c.cycle().unwrap();
    c.cycle().unwrap();
    assert_eq!(c.program_counter(), 0x200);
    c.set_key(0xC, true);
    c.cycle().unwrap();
    assert_eq!(c.register(0), 0xC);
    assert_eq!(c.program_counter(), 0x202);
}

#[test]
fn key_family_with_unknown_low_byte_faults() {
    let mut c = machine_with(&[0xE0FF]);
    let fault = c.cycle().unwrap_err();
    assert_eq!(fault.kind, FaultKind::UnknownInstruction);
    assert_eq!(fault.instr, 0xE0FF);
    assert_eq!(fault.pc, 0x200);
}
