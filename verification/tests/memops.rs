//! The index register and the memory-transfer instructions: register
//! dumps and loads, binary-coded decimal, font addressing.

use chip8::machine::Chip8;
use chip8::semantics::FaultKind;

fn rom_from_words(words: &[u16]) -> Vec<u8> {
    let mut rom: Vec<u8> = Vec::new();
    for w in words {
        rom.push((w >> 8) as u8);
        rom.push((w & 0xFF) as u8);
    }
    rom
}

fn machine_with(words: &[u16]) -> Chip8 {
    let mut c = Chip8::new();
    c.load_rom(&rom_from_words(words)).unwrap();
    c
}

fn run(c: &mut Chip8, cycles: usize) {
    for _ in 0..cycles {
        c.cycle().unwrap();
    }
}

#[test]
fn load_addr_sets_index() {
    let mut c = machine_with(&[0xA123]);
    run(&mut c, 1);
    assert_eq!(c.index_register(), 0x123);
}

#[test]
fn store_regs_copies_v0_through_vx() {
    // V0..V2 = 1, 2, 3; I = 0x400; FX55 with X = 2 writes exactly three
    // bytes and, by default, leaves I unmodified.
    let mut c = machine_with(&[0x6001, 0x6102, 0x6203, 0x6399, 0xA400, 0xF255]);
    run(&mut c, 6);
    assert_eq!(c.memory_byte(0x400), 1);
    assert_eq!(c.memory_byte(0x401), 2);
    assert_eq!(c.memory_byte(0x402), 3);
    // V3 was not part of the transfer.
    assert_eq!(c.memory_byte(0x403), 0);
    assert_eq!(c.index_register(), 0x400);
}

#[test]
fn load_regs_is_the_inverse_of_store_regs() {
    // Store V0..V2, scramble them, reload: the original values return.
    let mut c = machine_with(&[
        0x6001, 0x6102, 0x6203, 0xA400, 0xF255, // store 1, 2, 3
        0x60AA, 0x61BB, 0x62CC, // scramble
        0xF265, // reload
    ]);
    run(&mut c, 9);
    assert_eq!(c.register(0), 1);
    assert_eq!(c.register(1), 2);
    assert_eq!(c.register(2), 3);
    assert_eq!(c.index_register(), 0x400);
}

#[test]
fn store_regs_advances_index_under_quirk() {
    let mut c = Chip8::with_quirks(true, true);
    c.load_rom(&rom_from_words(&[0x6001, 0xA400, 0xF155])).unwrap();
    run(&mut c, 3);
    assert_eq!(c.index_register(), 0x402);
}

#[test]
fn load_regs_advances_index_under_quirk() {
    let mut c = Chip8::with_quirks(true, true);
    c.load_rom(&rom_from_words(&[0xA400, 0xF365])).unwrap();
    run(&mut c, 2);
    assert_eq!(c.index_register(), 0x404);
}

#[test]
fn store_regs_past_end_of_memory_faults() {
    let mut c = machine_with(&[0xAFFE, 0xF255]);
    c.cycle().unwrap();
    let fault = c.cycle().unwrap_err();
    assert_eq!(fault.kind, FaultKind::MemoryOutOfBounds);
    assert_eq!(fault.instr, 0xF255);
    assert_eq!(fault.pc, 0x202);
}

#[test]
fn load_regs_past_end_of_memory_faults() {
    let mut c = machine_with(&[0xAFFF, 0xF165]);
    c.cycle().unwrap();
    let fault = c.cycle().unwrap_err();
    assert_eq!(fault.kind, FaultKind::MemoryOutOfBounds);
}

#[test]
fn bcd_of_123() {
    let mut c = machine_with(&[0x607B, 0xA300, 0xF033]);
    run(&mut c, 3);
    assert_eq!(c.memory_byte(0x300), 1);
    assert_eq!(c.memory_byte(0x301), 2);
    assert_eq!(c.memory_byte(0x302), 3);
}

#[test]
fn bcd_of_7() {
    let mut c = machine_with(&[0x6007, 0xA300, 0xF033]);
    run(&mut c, 3);
    assert_eq!(c.memory_byte(0x300), 0);
    assert_eq!(c.memory_byte(0x301), 0);
    assert_eq!(c.memory_byte(0x302), 7);
}

#[test]
fn bcd_of_255() {
    let mut c = machine_with(&[0x60FF, 0xA300, 0xF033]);
    run(&mut c, 3);
    assert_eq!(c.memory_byte(0x300), 2);
    assert_eq!(c.memory_byte(0x301), 5);
    assert_eq!(c.memory_byte(0x302), 5);
}

#[test]
fn bcd_past_end_of_memory_faults() {
    let mut c = machine_with(&[0x607B, 0xAFFE, 0xF033]);
    run(&mut c, 2);
    let fault = c.cycle().unwrap_err();
    assert_eq!(fault.kind, FaultKind::MemoryOutOfBounds);
    assert_eq!(fault.instr, 0xF033);
}

#[test]
fn add_addr_accumulates() {
    let mut c = machine_with(&[0xA123, 0x60FF, 0xF01E]);
    run(&mut c, 3);
    assert_eq!(c.index_register(), 0x222);
}

#[test]
fn add_addr_wraps_at_sixteen_bits() {
    // 0xFFF + 253 * 255 = 68610 = 0x10C02, which wraps to 0xC02.
    let mut words = vec![0xAFFF, 0x60FF];
    for _ in 0..253 {
        words.push(0xF01E);
    }
    let mut c = machine_with(&words);
    run(&mut c, 255);
    assert_eq!(c.index_register(), 0xC02);
}

#[test]
fn font_addresses_step_by_five() {
    let mut c = machine_with(&[0x6000, 0xF029]);
    run(&mut c, 2);
    assert_eq!(c.index_register(), 0x50);

    let mut c = machine_with(&[0x600A, 0xF029]);
    run(&mut c, 2);
    assert_eq!(c.index_register(), 0x50 + 50);
    // The glyph for the digit A.
    assert_eq!(c.memory_byte(0x82), 0xF0);
    assert_eq!(c.memory_byte(0x83), 0x90);
    assert_eq!(c.memory_byte(0x84), 0xF0);
    assert_eq!(c.memory_byte(0x85), 0x90);
    assert_eq!(c.memory_byte(0x86), 0x90);
}

#[test]
fn font_address_of_value_above_fifteen_faults() {
    let mut c = machine_with(&[0x6010, 0xF029]);
    c.cycle().unwrap();
    let fault = c.cycle().unwrap_err();
    assert_eq!(fault.kind, FaultKind::InvalidDigit);
    assert_eq!(fault.instr, 0xF029);
    assert_eq!(fault.pc, 0x202);
}
