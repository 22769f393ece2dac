//! The machine: all emulated hardware state and the fetch/execute cycle.
//!
//! Every operation is specified against the [`MachineView`] snapshot of the
//! state and the step functions of [`crate::semantics`]; the bodies here are
//! proved to implement those functions exactly. The one unverifiable point,
//! the random byte consumed by `CXNN`, is drawn behind a trusted wrapper and
//! the contracts promise only that some byte was used.

use vstd::prelude::*;
use crate::instruction::Instruction;
use crate::instruction::nib1_of;
use crate::semantics::{
    MachineView, Fault, FaultKind, LoadError, font, font_loaded, init_state, loaded_mem,
    spec_tick, spec_fetch, spec_execute, spec_cycle, fault_record, try_step,
    lemma_first_pressed_characterization, step_clear_screen, step_return_sub, step_jump,
    step_call_sub, step_skip_equal_imm, step_skip_not_equal_imm, step_skip_equal_reg,
    step_skip_not_equal_reg, step_load_imm, step_add_imm, step_load_reg, step_or, step_and,
    step_xor, step_add_reg, step_sub_reg, step_sub_reg_rev, step_shift_right, step_shift_left,
    step_load_addr, step_jump_offset, step_rand, step_draw_sprite, step_skip_key_pressed,
    step_skip_key_not_pressed, step_load_delay, step_await_key, step_set_delay, step_set_sound,
    step_add_addr, step_load_digit_addr, step_move_bcd, step_move_regs, step_load_regs,
    draw_covers, draw_covers_prefix, partial_display, partial_collision,
    lemma_draw_prefix_step, lemma_partial_collision_step, lemma_draw_prefix_full,
    MEMORY_SIZE, PC_START_ADDRESS, MAX_ROM_SIZE, DISPLAY_SIZE, FONT_SIZE, FONT_START_ADDRESS,
    SCREEN_WIDTH, SCREEN_HEIGHT,
};

verus! {

/// The underlying CHIP-8 system: registers, memory, stack, timers, keypad,
/// display buffer and the instruction currently being decoded.
pub struct Chip8 {
    /// General purpose registers `V0..VF`.
    reg_v: [u8; 16],
    /// 4K of RAM.
    memory: [u8; MEMORY_SIZE],
    /// The index register `I`, a memory address for later use.
    reg_i: u16,
    /// The program counter.
    pc: u16,
    /// The 16-frame call stack.
    stack: [u16; 16],
    /// The stack pointer: index of the next free stack frame.
    sp: u8,
    /// The 60 Hz delay timer register.
    reg_delay: u8,
    /// The 60 Hz sound timer register.
    reg_sound: u8,
    /// The state of the 16 input keys.
    keypad: [bool; 16],
    /// The state of the graphics buffer.
    graphics_buffer: [bool; DISPLAY_SIZE],
    /// The instruction currently being decoded.
    instr: Instruction,
    /// Quirk toggle: `8XY1/2/3` reset `VF` after the bitwise operation.
    vf_reset_quirk: bool,
    /// Quirk toggle: `FX55`/`FX65` add `X + 1` to `I` after the transfer.
    index_increment_quirk: bool,
}

impl View for Chip8 {
    type V = MachineView;

    closed spec fn view(&self) -> MachineView {
        MachineView {
            v: self.reg_v@,
            mem: self.memory@,
            i: self.reg_i,
            pc: self.pc,
            stack: self.stack@,
            sp: self.sp,
            delay: self.reg_delay,
            sound: self.reg_sound,
            keys: self.keypad@,
            display: self.graphics_buffer@,
            instr: self.instr.raw,
            vf_reset_quirk: self.vf_reset_quirk,
            index_increment_quirk: self.index_increment_quirk,
        }
    }
}

/// The system font data, equal to the [`font`] model sequence.
fn font_data() -> (r: [u8; FONT_SIZE])
    ensures
        r@ == font(),
{
    let r: [u8; FONT_SIZE] = [
        0xF0, 0x90, 0x90, 0x90, 0xF0, // 0
        0x20, 0x60, 0x20, 0x20, 0x70, // 1
        0xF0, 0x10, 0xF0, 0x80, 0xF0, // 2
        0xF0, 0x10, 0xF0, 0x10, 0xF0, // 3
        0x90, 0x90, 0xF0, 0x10, 0x10, // 4
        0xF0, 0x80, 0xF0, 0x10, 0xF0, // 5
        0xF0, 0x80, 0xF0, 0x90, 0xF0, // 6
        0xF0, 0x10, 0x20, 0x40, 0x40, // 7
        0xF0, 0x90, 0xF0, 0x90, 0xF0, // 8
        0xF0, 0x90, 0xF0, 0x10, 0xF0, // 9
        0xF0, 0x90, 0xF0, 0x90, 0x90, // A
        0xE0, 0x90, 0xE0, 0x90, 0xE0, // B
        0xF0, 0x80, 0x80, 0x80, 0xF0, // C
        0xE0, 0x90, 0x90, 0x90, 0xE0, // D
        0xF0, 0x80, 0xF0, 0x80, 0xF0, // E
        0xF0, 0x80, 0xF0, 0x80, 0x80, // F
    ];
    proof {
        assert(r@ =~= font());
    }
    r
}

/// Core Chip8 function implementations.
impl Chip8 {
    /// The machine's one internal invariant: the stack pointer stays
    /// within the 16-frame stack (it counts the frames in use).
    #[verifier::type_invariant]
    spec fn stack_pointer_in_range(self) -> bool {
        self.sp <= 16
    }

    /// Initializes a new machine with the default quirk configuration:
    /// the bitwise `VF` reset on, the `FX55`/`FX65` index increment off.
    pub fn new() -> (r: Chip8)
        ensures
            r@ == init_state(true, false),
    {
        Chip8::with_quirks(true, false)
    }

    /// Initializes a new machine with an explicit quirk configuration.
    pub fn with_quirks(vf_reset_quirk: bool, index_increment_quirk: bool) -> (r: Chip8)
        ensures
            r@ == init_state(vf_reset_quirk, index_increment_quirk),
    {
        let mut chip8: Chip8 = Chip8 {
            reg_v: [0; 16],
            memory: [0; MEMORY_SIZE],
            reg_i: 0,
            pc: PC_START_ADDRESS,
            stack: [0; 16],
            sp: 0,
            reg_delay: 0,
            reg_sound: 0,
            keypad: [false; 16],
            graphics_buffer: [false; DISPLAY_SIZE],
            instr: Instruction { raw: 0 },
            vf_reset_quirk: vf_reset_quirk,
            index_increment_quirk: index_increment_quirk,
        };
        chip8.load_font();
        proof {
            assert(chip8@ =~= init_state(vf_reset_quirk, index_increment_quirk));
        }
        chip8
    }

    /// Resets all state to its construction-time value, keeping the quirk
    /// configuration; the stack contents are left as they are, since the
    /// stack pointer alone makes them unreachable.
    pub fn reset(&mut self)
        ensures
            final(self)@ == (MachineView {
                stack: old(self)@.stack,
                ..init_state(old(self)@.vf_reset_quirk, old(self)@.index_increment_quirk)
            }),
    {
        proof {
            use_type_invariant(&*self);
        }
        self.reg_v = [0; 16];
        self.memory = [0; MEMORY_SIZE];
        self.reg_i = 0;
        self.pc = PC_START_ADDRESS;
        // The stack needs no clearing: sp = 0 makes it all free.
        self.sp = 0;
        self.reg_delay = 0;
        self.reg_sound = 0;
        self.keypad = [false; 16];
        self.clear_screen();
        self.instr = Instruction { raw: 0 };
        self.load_font();
        proof {
            assert(final(self)@ =~= (MachineView {
                stack: old(self)@.stack,
                ..init_state(old(self)@.vf_reset_quirk, old(self)@.index_increment_quirk)
            }));
        }
    }

    /// Copies a program image verbatim into memory at the load address.
    /// An image larger than the space above that address is rejected and
    /// nothing changes.
    pub fn load_rom(&mut self, rom: &[u8]) -> (r: Result<(), LoadError>)
        ensures
            rom@.len() > MAX_ROM_SIZE ==> r == Err::<(), LoadError>(LoadError::ImageTooLarge)
                && final(self)@ == old(self)@,
            rom@.len() <= MAX_ROM_SIZE ==> r == Ok::<(), LoadError>(())
                && final(self)@ == (MachineView {
                    mem: loaded_mem(old(self)@.mem, rom@),
                    ..old(self)@
                }),
    {
        proof {
            use_type_invariant(&*self);
        }
        if rom.len() > MAX_ROM_SIZE {
            return Err(LoadError::ImageTooLarge);
        }
        let mut mem = self.memory;
        let base: usize = PC_START_ADDRESS as usize;
        let mut k: usize = 0;
        #[verifier::loop_isolation(false)]
        while k < rom.len()
            invariant
                k <= rom.len(),
                forall|j: int| base <= j < base + k ==> mem@[j] == rom@[j - base],
                forall|j: int| (0 <= j < base || base + k <= j < MEMORY_SIZE) ==> mem@[j]
                    == self.memory@[j],
            decreases rom.len() - k,
        {
            mem[base + k] = rom[k];
            k += 1;
        }
        self.memory = mem;
        proof {
            assert(final(self)@.mem =~= loaded_mem(old(self)@.mem, rom@));
            assert(final(self)@ =~= (MachineView {
                mem: loaded_mem(old(self)@.mem, rom@),
                ..old(self)@
            }));
        }
        Ok(())
    }

    /// Loads the system font into RAM.
    fn load_font(&mut self)
        ensures
            final(self)@ == (MachineView { mem: font_loaded(old(self)@.mem), ..old(self)@ }),
    {
        proof {
            use_type_invariant(&*self);
        }
        let font_bytes = font_data();
        let mut mem = self.memory;
        let base: usize = FONT_START_ADDRESS as usize;
        let mut k: usize = 0;
        #[verifier::loop_isolation(false)]
        while k < FONT_SIZE
            invariant
                k <= FONT_SIZE,
                forall|j: int| base <= j < base + k ==> mem@[j] == font()[j - base],
                forall|j: int| (0 <= j < base || base + k <= j < MEMORY_SIZE) ==> mem@[j]
                    == self.memory@[j],
            decreases FONT_SIZE - k,
        {
            mem[base + k] = font_bytes[k];
            k += 1;
        }
        self.memory = mem;
        proof {
            assert(final(self)@.mem =~= font_loaded(old(self)@.mem));
            assert(final(self)@ =~= (MachineView {
                mem: font_loaded(old(self)@.mem),
                ..old(self)@
            }));
        }
    }

    /// `00E0`: clears the video buffer.
    fn clear_screen(&mut self)
        ensures
            final(self)@ == crate::semantics::step_clear_screen(old(self)@),
    {
        proof {
            use_type_invariant(&*self);
        }
        self.graphics_buffer = [false; DISPLAY_SIZE];
        proof {
            assert(final(self)@ =~= crate::semantics::step_clear_screen(old(self)@));
        }
    }

    /// Decrements the special registers: each countdown timer steps toward
    /// zero. Driven by the host at its own fixed rate, independently of
    /// instruction cycles.
    pub fn cycle_special_regs(&mut self)
        ensures
            final(self)@ == spec_tick(old(self)@),
    {
        proof {
            use_type_invariant(&*self);
        }
        if self.reg_delay > 0 {
            self.reg_delay = self.reg_delay - 1;
        }
        if self.reg_sound > 0 {
            self.reg_sound = self.reg_sound - 1;
        }
    }

    /// The value of a general-purpose register.
    pub fn register(&self, x: u8) -> (r: u8)
        requires
            x < 16,
        ensures
            r == self@.v[x as int],
    {
        self.reg_v[x as usize]
    }

    /// The index register `I`.
    pub fn index_register(&self) -> (r: u16)
        ensures
            r == self@.i,
    {
        self.reg_i
    }

    /// The program counter.
    pub fn program_counter(&self) -> (r: u16)
        ensures
            r == self@.pc,
    {
        self.pc
    }

    /// The stack pointer: the number of call frames in use.
    pub fn stack_pointer(&self) -> (r: u8)
        ensures
            r == self@.sp,
    {
        self.sp
    }

    /// The delay timer value.
    pub fn delay_timer(&self) -> (r: u8)
        ensures
            r == self@.delay,
    {
        self.reg_delay
    }

    /// The sound timer value; a tone should be emitted while it is nonzero.
    pub fn sound_timer(&self) -> (r: u8)
        ensures
            r == self@.sound,
    {
        self.reg_sound
    }

    /// One byte of memory.
    pub fn memory_byte(&self, addr: usize) -> (r: u8)
        requires
            addr < MEMORY_SIZE,
        ensures
            r == self@.mem[addr as int],
    {
        self.memory[addr]
    }

    /// One pixel of the display buffer, row-major: index `y * 64 + x`.
    pub fn pixel(&self, idx: usize) -> (r: bool)
        requires
            idx < DISPLAY_SIZE,
        ensures
            r == self@.display[idx as int],
    {
        self.graphics_buffer[idx]
    }

    /// A copy of the whole display buffer, for the host to render.
    pub fn display_buffer(&self) -> (r: Vec<bool>)
        ensures
            r@ == self@.display,
    {
        let mut r: Vec<bool> = Vec::new();
        let mut k: usize = 0;
        #[verifier::loop_isolation(false)]
        while k < DISPLAY_SIZE
            invariant
                k == r@.len() <= DISPLAY_SIZE,
                forall|j: int| 0 <= j < k ==> r@[j] == self.graphics_buffer@[j],
            decreases DISPLAY_SIZE - k,
        {
            r.push(self.graphics_buffer[k]);
            k += 1;
        }
        proof {
            assert(r@ =~= self@.display);
        }
        r
    }

    /// Whether a key is currently pressed.
    pub fn key(&self, key: u8) -> (r: bool)
        requires
            key < 16,
        ensures
            r == self@.keys[key as int],
    {
        self.keypad[key as usize]
    }

    /// Attempts to cycle the interpreter by one instruction: fetch, then
    /// decode and execute. A fault stops the cycle and reports the
    /// offending instruction; the machine promises only that some byte was
    /// drawn for a `CXNN`, so the outcome is one of the [`spec_cycle`]
    /// results over the bytes.
    pub fn cycle(&mut self) -> (r: Result<(), Fault>)
        ensures
            exists|b: u8| spec_cycle(old(self)@, b) == (final(self)@, r),
    {
        let ghost s0 = self@;
        let fetched = self.fetch();
        match fetched {
            Err(f) => {
                proof {
                    assert(spec_cycle(s0, 0u8) == (self@, Err::<(), Fault>(f)));
                }
                Err(f)
            },
            Ok(()) => {
                let ghost mid = self@;
                let res = self.execute();
                proof {
                    let b = choose|b: u8| spec_execute(mid, b) == (self@, res);
                    assert(spec_cycle(s0, b) == (self@, res));
                }
                res
            },
        }
    }

    /// Attempts to load the next opcode and increment the program counter.
    /// A fetch at or past the end of memory is detected before any read
    /// and changes nothing.
    fn fetch(&mut self) -> (r: Result<(), Fault>)
        ensures
            final(self)@ == spec_fetch(old(self)@).0,
            r == spec_fetch(old(self)@).1,
    {
        proof {
            use_type_invariant(&*self);
        }
        // Ensure the program counter will not overrun (both opcode bytes).
        if self.pc >= (MEMORY_SIZE - 1) as u16 {
            return Err(Fault {
                kind: FaultKind::ProgramCounterOverflow,
                instr: 0,
                pc: self.pc,
            });
        }
        let opcode_raw: u16 = (self.memory[self.pc as usize] as u16) * 256 + (self.memory[self.pc
            as usize + 1] as u16);
        self.instr = Instruction { raw: opcode_raw };
        self.pc = self.pc + 2;
        Ok(())
    }

    /// Attempts to decode and execute the current instruction: dispatch on
    /// the first nibble, then on the fourth nibble or low byte for the
    /// families with sub-opcodes.
    fn execute(&mut self) -> (r: Result<(), Fault>)
        requires
            2 <= old(self)@.pc <= MEMORY_SIZE,
        ensures
            exists|b: u8| spec_execute(old(self)@, b) == (final(self)@, r),
    {
        let res: Result<(), Fault> = match self.instr.nibble1() {
            0x0 => {
                if self.instr.raw == 0x00E0 {
                    self.clear_screen();
                    Ok(())
                } else if self.instr.raw == 0x00EE {
                    self.return_sub()
                } else {
                    // 0NNN: execute machine language subroutine
                    Err(self.unsupported())
                }
            },
            0x1 => {
                self.jump();
                Ok(())
            },
            0x2 => self.call_sub(),
            0x3 => {
                self.skip_equal_imm();
                Ok(())
            },
            0x4 => {
                self.skip_not_equal_imm();
                Ok(())
            },
            0x5 => {
                self.skip_equal_reg();
                Ok(())
            },
            0x6 => {
                self.load_imm();
                Ok(())
            },
            0x7 => {
                self.add_imm();
                Ok(())
            },
            0x8 => match self.instr.nibble4() {
                0x0 => {
                    self.load_reg();
                    Ok(())
                },
                0x1 => {
                    self.or();
                    Ok(())
                },
                0x2 => {
                    self.and();
                    Ok(())
                },
                0x3 => {
                    self.xor();
                    Ok(())
                },
                0x4 => {
                    self.add_reg();
                    Ok(())
                },
                0x5 => {
                    self.sub_reg();
                    Ok(())
                },
                0x6 => {
                    self.shift_right();
                    Ok(())
                },
                0x7 => {
                    self.sub_reg_rev();
                    Ok(())
                },
                0xE => {
                    self.shift_left();
                    Ok(())
                },
                _ => Err(self.unknown()),
            },
            0x9 => {
                self.skip_not_equal_reg();
                Ok(())
            },
            0xA => {
                self.load_addr();
                Ok(())
            },
            0xB => {
                self.jump_offset();
                Ok(())
            },
            0xC => {
                self.rand();
                Ok(())
            },
            0xD => self.draw_sprite(),
            0xE => match self.instr.nn() {
                0x9E => self.skip_key_pressed(),
                0xA1 => self.skip_key_not_pressed(),
                _ => Err(self.unknown()),
            },
            0xF => match self.instr.nn() {
                0x07 => {
                    self.load_delay();
                    Ok(())
                },
                0x0A => {
                    self.await_key();
                    Ok(())
                },
                0x15 => {
                    self.set_delay();
                    Ok(())
                },
                0x18 => {
                    self.set_sound();
                    Ok(())
                },
                0x1E => {
                    self.add_addr();
                    Ok(())
                },
                0x29 => self.load_digit_addr(),
                0x33 => self.move_bcd(),
                0x55 => self.move_regs(),
                0x65 => self.load_regs(),
                _ => Err(self.unknown()),
            },
            _ => Err(self.unknown()),
        };
        proof {
            if nib1_of(old(self)@.instr) == 0xC {
                let b = choose|b: u8| self@ == step_rand(old(self)@, b);
                assert(spec_execute(old(self)@, b) == (self@, res));
            } else {
                assert(spec_execute(old(self)@, 0u8) == (self@, res));
            }
        }
        res
    }

    /// Presses or releases one key; the host calls this between cycles.
    pub fn set_key(&mut self, key: u8, pressed: bool)
        requires
            key < 16,
        ensures
            final(self)@ == (MachineView {
                keys: old(self)@.keys.update(key as int, pressed),
                ..old(self)@
            }),
    {
        proof {
            use_type_invariant(&*self);
        }
        self.keypad[key as usize] = pressed;
    }
}

/// Relies on rand::random: draws one byte from the thread-local random
/// number generator. Nothing can be promised of the value, so there is no
/// contract; the callers state what holds of every byte.
#[verifier::external_body]
fn random_byte() -> u8 {
    rand::random::<u8>()
}

/// Opcode implementations for Chip8. Each runs on the post-fetch state:
/// the program counter has already advanced past the instruction (so it is
/// at least 2 and, memory being 4096 bytes, at most 4096).
impl Chip8 {
    /// The diagnostic for an opcode matching no known pattern.
    fn unknown(&self) -> (r: Fault)
        requires
            self@.pc >= 2,
        ensures
            r == fault_record(self@, FaultKind::UnknownInstruction),
    {
        Fault { kind: FaultKind::UnknownInstruction, instr: self.instr.raw, pc: self.pc - 2 }
    }

    /// The diagnostic for the recognized but unsupported `0NNN` pattern.
    fn unsupported(&self) -> (r: Fault)
        requires
            self@.pc >= 2,
        ensures
            r == fault_record(self@, FaultKind::UnsupportedInstruction),
    {
        Fault { kind: FaultKind::UnsupportedInstruction, instr: self.instr.raw, pc: self.pc - 2 }
    }

    /// `00EE`: return from subroutine.
    fn return_sub(&mut self) -> (r: Result<(), Fault>)
        requires
            old(self)@.pc >= 2,
        ensures
            final(self)@ == try_step(old(self)@, step_return_sub(old(self)@)).0,
            r == try_step(old(self)@, step_return_sub(old(self)@)).1,
    {
        proof {
            use_type_invariant(&*self);
        }
        if self.sp == 0 {
            return Err(Fault {
                kind: FaultKind::StackUnderflow,
                instr: self.instr.raw,
                pc: self.pc - 2,
            });
        }
        self.sp = self.sp - 1;
        self.pc = self.stack[self.sp as usize];
        Ok(())
    }

    /// `1NNN`: `PC = NNN`.
    fn jump(&mut self)
        ensures
            final(self)@ == step_jump(old(self)@),
    {
        proof {
            use_type_invariant(&*self);
        }
        self.pc = self.instr.nnn();
    }

    /// `2NNN`: push the program counter to the stack, `PC = NNN`.
    fn call_sub(&mut self) -> (r: Result<(), Fault>)
        requires
            old(self)@.pc >= 2,
        ensures
            final(self)@ == try_step(old(self)@, step_call_sub(old(self)@)).0,
            r == try_step(old(self)@, step_call_sub(old(self)@)).1,
    {
        proof {
            use_type_invariant(&*self);
        }
        if self.sp >= 16 {
            return Err(Fault {
                kind: FaultKind::StackOverflow,
                instr: self.instr.raw,
                pc: self.pc - 2,
            });
        }
        let mut stack = self.stack;
        stack[self.sp as usize] = self.pc;
        self.stack = stack;
        self.sp = self.sp + 1;
        self.pc = self.instr.nnn();
        Ok(())
    }

    /// `3XNN`: skip the next instruction if `Vx == NN`.
    fn skip_equal_imm(&mut self)
        requires
            old(self)@.pc <= MEMORY_SIZE,
        ensures
            final(self)@ == step_skip_equal_imm(old(self)@),
    {
        proof {
            use_type_invariant(&*self);
        }
        if self.reg_v[self.instr.x()] == self.instr.nn() {
            self.pc = self.pc + 2;
        }
    }

    /// `4XNN`: skip the next instruction if `Vx != NN`.
    fn skip_not_equal_imm(&mut self)
        requires
            old(self)@.pc <= MEMORY_SIZE,
        ensures
            final(self)@ == step_skip_not_equal_imm(old(self)@),
    {
        proof {
            use_type_invariant(&*self);
        }
        if self.reg_v[self.instr.x()] != self.instr.nn() {
            self.pc = self.pc + 2;
        }
    }

    /// `5XY0`: skip the next instruction if `Vx == Vy`.
    fn skip_equal_reg(&mut self)
        requires
            old(self)@.pc <= MEMORY_SIZE,
        ensures
            final(self)@ == step_skip_equal_reg(old(self)@),
    {
        proof {
            use_type_invariant(&*self);
        }
        if self.reg_v[self.instr.x()] == self.reg_v[self.instr.y()] {
            self.pc = self.pc + 2;
        }
    }

    /// `6XNN`: `Vx = NN`.
    fn load_imm(&mut self)
        ensures
            final(self)@ == step_load_imm(old(self)@),
    {
        proof {
            use_type_invariant(&*self);
        }
        let mut v = self.reg_v;
        v[self.instr.x()] = self.instr.nn();
        self.reg_v = v;
    }

    /// `7XNN`: `Vx += NN` with 8-bit wraparound; does not touch `VF`.
    fn add_imm(&mut self)
        ensures
            final(self)@ == step_add_imm(old(self)@),
    {
        proof {
            use_type_invariant(&*self);
        }
        let x = self.instr.x();
        let sum: u16 = self.reg_v[x] as u16 + self.instr.nn() as u16;
        let mut v = self.reg_v;
        v[x] = (sum % 256) as u8;
        self.reg_v = v;
    }

    /// `8XY0`: `Vx = Vy`.
    fn load_reg(&mut self)
        ensures
            final(self)@ == step_load_reg(old(self)@),
    {
        proof {
            use_type_invariant(&*self);
        }
        let mut v = self.reg_v;
        v[self.instr.x()] = self.reg_v[self.instr.y()];
        self.reg_v = v;
    }

    /// `8XY1`: `Vx |= Vy`; under the quirk, `VF` is then reset.
    fn or(&mut self)
        ensures
            final(self)@ == step_or(old(self)@),
    {
        proof {
            use_type_invariant(&*self);
        }
        let x = self.instr.x();
        let mut v = self.reg_v;
        v[x] = self.reg_v[x] | self.reg_v[self.instr.y()];
        if self.vf_reset_quirk {
            v[15] = 0;
        }
        self.reg_v = v;
    }

    /// `8XY2`: `Vx &= Vy`; under the quirk, `VF` is then reset.
    fn and(&mut self)
        ensures
            final(self)@ == step_and(old(self)@),
    {
        proof {
            use_type_invariant(&*self);
        }
        let x = self.instr.x();
        let mut v = self.reg_v;
        v[x] = self.reg_v[x] & self.reg_v[self.instr.y()];
        if self.vf_reset_quirk {
            v[15] = 0;
        }
        self.reg_v = v;
    }

    /// `8XY3`: `Vx ^= Vy`; under the quirk, `VF` is then reset.
    fn xor(&mut self)
        ensures
            final(self)@ == step_xor(old(self)@),
    {
        proof {
            use_type_invariant(&*self);
        }
        let x = self.instr.x();
        let mut v = self.reg_v;
        v[x] = self.reg_v[x] ^ self.reg_v[self.instr.y()];
        if self.vf_reset_quirk {
            v[15] = 0;
        }
        self.reg_v = v;
    }

    /// `8XY4`: `Vx += Vy`; `VF` becomes 1 exactly on 8-bit overflow.
    fn add_reg(&mut self)
        ensures
            final(self)@ == step_add_reg(old(self)@),
    {
        proof {
            use_type_invariant(&*self);
        }
        let x = self.instr.x();
        let sum: u16 = self.reg_v[x] as u16 + self.reg_v[self.instr.y()] as u16;
        let mut v = self.reg_v;
        v[x] = (sum % 256) as u8;
        v[15] = if sum > 255 { 1 } else { 0 };
        self.reg_v = v;
    }

    /// `8XY5`: `Vx -= Vy`; `VF` becomes 1 exactly when no borrow occurs.
    fn sub_reg(&mut self)
        ensures
            final(self)@ == step_sub_reg(old(self)@),
    {
        proof {
            use_type_invariant(&*self);
        }
        let x = self.instr.x();
        let a = self.reg_v[x];
        let b = self.reg_v[self.instr.y()];
        let mut v = self.reg_v;
        v[x] = if a >= b { a - b } else { ((a as u16 + 256) - b as u16) as u8 };
        v[15] = if a >= b { 1 } else { 0 };
        self.reg_v = v;
    }

    /// `8XY6`: `Vx = Vy >> 1`; `VF` receives the bit shifted out.
    fn shift_right(&mut self)
        ensures
            final(self)@ == step_shift_right(old(self)@),
    {
        proof {
            use_type_invariant(&*self);
        }
        let x = self.instr.x();
        let b = self.reg_v[self.instr.y()];
        let mut v = self.reg_v;
        v[x] = b / 2;
        v[15] = b % 2;
        self.reg_v = v;
    }

    /// `8XY7`: `Vx = Vy - Vx`; `VF` becomes 1 exactly when no borrow occurs.
    fn sub_reg_rev(&mut self)
        ensures
            final(self)@ == step_sub_reg_rev(old(self)@),
    {
        proof {
            use_type_invariant(&*self);
        }
        let x = self.instr.x();
        let a = self.reg_v[x];
        let b = self.reg_v[self.instr.y()];
        let mut v = self.reg_v;
        v[x] = if b >= a { b - a } else { ((b as u16 + 256) - a as u16) as u8 };
        v[15] = if b >= a { 1 } else { 0 };
        self.reg_v = v;
    }

    /// `8XYE`: `Vx = Vy << 1` with 8-bit wraparound; `VF` receives the bit
    /// shifted out.
    fn shift_left(&mut self)
        ensures
            final(self)@ == step_shift_left(old(self)@),
    {
        proof {
            use_type_invariant(&*self);
        }
        let x = self.instr.x();
        let b = self.reg_v[self.instr.y()];
        let mut v = self.reg_v;
        v[x] = ((b as u16 * 2) % 256) as u8;
        v[15] = b / 128;
        self.reg_v = v;
    }

    /// `9XY0`: skip the next instruction if `Vx != Vy`.
    fn skip_not_equal_reg(&mut self)
        requires
            old(self)@.pc <= MEMORY_SIZE,
        ensures
            final(self)@ == step_skip_not_equal_reg(old(self)@),
    {
        proof {
            use_type_invariant(&*self);
        }
        if self.reg_v[self.instr.x()] != self.reg_v[self.instr.y()] {
            self.pc = self.pc + 2;
        }
    }

    /// `ANNN`: `I = NNN`.
    fn load_addr(&mut self)
        ensures
            final(self)@ == step_load_addr(old(self)@),
    {
        proof {
            use_type_invariant(&*self);
        }
        self.reg_i = self.instr.nnn();
    }

    /// `BNNN`: `PC = NNN + V0`.
    fn jump_offset(&mut self)
        ensures
            final(self)@ == step_jump_offset(old(self)@),
    {
        proof {
            use_type_invariant(&*self);
        }
        self.pc = self.instr.nnn() + self.reg_v[0] as u16;
    }

    /// `CXNN`: `Vx = random byte & NN`.
    fn rand(&mut self)
        ensures
            exists|b: u8| final(self)@ == step_rand(old(self)@, b),
    {
        proof {
            use_type_invariant(&*self);
        }
        let b = random_byte();
        let mut v = self.reg_v;
        v[self.instr.x()] = b & self.instr.nn();
        self.reg_v = v;
        proof {
            assert(self@ == step_rand(old(self)@, b));
        }
    }

    /// `EX9E`: skip the next instruction if the key numbered by `Vx` is
    /// pressed; a `Vx` above 0xF names no key.
    fn skip_key_pressed(&mut self) -> (r: Result<(), Fault>)
        requires
            2 <= old(self)@.pc <= MEMORY_SIZE,
        ensures
            final(self)@ == try_step(old(self)@, step_skip_key_pressed(old(self)@)).0,
            r == try_step(old(self)@, step_skip_key_pressed(old(self)@)).1,
    {
        proof {
            use_type_invariant(&*self);
        }
        let k = self.reg_v[self.instr.x()];
        if k > 0xF {
            return Err(Fault {
                kind: FaultKind::InvalidKey,
                instr: self.instr.raw,
                pc: self.pc - 2,
            });
        }
        if self.keypad[k as usize] {
            self.pc = self.pc + 2;
        }
        Ok(())
    }

    /// `EXA1`: skip the next instruction if the key numbered by `Vx` is
    /// not pressed; a `Vx` above 0xF names no key.
    fn skip_key_not_pressed(&mut self) -> (r: Result<(), Fault>)
        requires
            2 <= old(self)@.pc <= MEMORY_SIZE,
        ensures
            final(self)@ == try_step(old(self)@, step_skip_key_not_pressed(old(self)@)).0,
            r == try_step(old(self)@, step_skip_key_not_pressed(old(self)@)).1,
    {
        proof {
            use_type_invariant(&*self);
        }
        let k = self.reg_v[self.instr.x()];
        if k > 0xF {
            return Err(Fault {
                kind: FaultKind::InvalidKey,
                instr: self.instr.raw,
                pc: self.pc - 2,
            });
        }
        if !self.keypad[k as usize] {
            self.pc = self.pc + 2;
        }
        Ok(())
    }

    /// `FX07`: `Vx = delay timer`.
    fn load_delay(&mut self)
        ensures
            final(self)@ == step_load_delay(old(self)@),
    {
        proof {
            use_type_invariant(&*self);
        }
        let mut v = self.reg_v;
        v[self.instr.x()] = self.reg_delay;
        self.reg_v = v;
    }

    /// `FX0A`: scan the keys in ascending order; write the first pressed
    /// key into `Vx`, or rewind the program counter so the same
    /// instruction re-executes next cycle. A cooperative busy-wait: the
    /// host keeps cycling and delivering key updates meanwhile.
    fn await_key(&mut self)
        requires
            old(self)@.pc >= 2,
        ensures
            final(self)@ == step_await_key(old(self)@),
    {
        proof {
            use_type_invariant(&*self);
        }
        let mut key: usize = 0;
        #[verifier::loop_isolation(false)]
        while key < 16 && !self.keypad[key]
            invariant
                key <= 16,
                forall|j: int| 0 <= j < key ==> !self@.keys[j],
            decreases 16 - key,
        {
            key += 1;
        }
        proof {
            lemma_first_pressed_characterization(self@.keys, key as int);
        }
        if key < 16 {
            let mut v = self.reg_v;
            v[self.instr.x()] = key as u8;
            self.reg_v = v;
        } else {
            self.pc = self.pc - 2;
        }
    }

    /// `FX15`: `delay timer = Vx`.
    fn set_delay(&mut self)
        ensures
            final(self)@ == step_set_delay(old(self)@),
    {
        proof {
            use_type_invariant(&*self);
        }
        self.reg_delay = self.reg_v[self.instr.x()];
    }

    /// `FX18`: `sound timer = Vx`.
    fn set_sound(&mut self)
        ensures
            final(self)@ == step_set_sound(old(self)@),
    {
        proof {
            use_type_invariant(&*self);
        }
        self.reg_sound = self.reg_v[self.instr.x()];
    }

    /// `FX1E`: `I += Vx` with 16-bit wraparound.
    fn add_addr(&mut self)
        ensures
            final(self)@ == step_add_addr(old(self)@),
    {
        proof {
            use_type_invariant(&*self);
        }
        self.reg_i = ((self.reg_i as u32 + self.reg_v[self.instr.x()] as u32) % 0x10000) as u16;
    }

    /// `FX29`: `I = address of the font glyph for the digit in Vx`; values
    /// above 0xF have no glyph.
    fn load_digit_addr(&mut self) -> (r: Result<(), Fault>)
        requires
            old(self)@.pc >= 2,
        ensures
            final(self)@ == try_step(old(self)@, step_load_digit_addr(old(self)@)).0,
            r == try_step(old(self)@, step_load_digit_addr(old(self)@)).1,
    {
        proof {
            use_type_invariant(&*self);
        }
        let d = self.reg_v[self.instr.x()];
        if d > 0xF {
            return Err(Fault {
                kind: FaultKind::InvalidDigit,
                instr: self.instr.raw,
                pc: self.pc - 2,
            });
        }
        self.reg_i = FONT_START_ADDRESS + d as u16 * 5;
        Ok(())
    }

    /// `FX33`: store the binary-coded decimal of `Vx` at `I, I+1, I+2`.
    fn move_bcd(&mut self) -> (r: Result<(), Fault>)
        requires
            old(self)@.pc >= 2,
        ensures
            final(self)@ == try_step(old(self)@, step_move_bcd(old(self)@)).0,
            r == try_step(old(self)@, step_move_bcd(old(self)@)).1,
    {
        proof {
            use_type_invariant(&*self);
        }
        let i = self.reg_i as usize;
        if i + 2 >= MEMORY_SIZE {
            return Err(Fault {
                kind: FaultKind::MemoryOutOfBounds,
                instr: self.instr.raw,
                pc: self.pc - 2,
            });
        }
        let value = self.reg_v[self.instr.x()];
        let mut mem = self.memory;
        mem[i] = value / 100;
        mem[i + 1] = (value / 10) % 10;
        mem[i + 2] = value % 10;
        self.memory = mem;
        Ok(())
    }

    /// `FX55`: copy `V0..Vx` inclusive into memory at `I`; under the index
    /// quirk, `I` then advances by `X + 1`.
    fn move_regs(&mut self) -> (r: Result<(), Fault>)
        requires
            old(self)@.pc >= 2,
        ensures
            final(self)@ == try_step(old(self)@, step_move_regs(old(self)@)).0,
            r == try_step(old(self)@, step_move_regs(old(self)@)).1,
    {
        proof {
            use_type_invariant(&*self);
        }
        let x = self.instr.x();
        let i = self.reg_i as usize;
        if i + x >= MEMORY_SIZE {
            return Err(Fault {
                kind: FaultKind::MemoryOutOfBounds,
                instr: self.instr.raw,
                pc: self.pc - 2,
            });
        }
        let mut mem = self.memory;
        let mut reg: usize = 0;
        #[verifier::loop_isolation(false)]
        while reg <= x
            invariant
                reg <= x + 1,
                forall|j: int| i <= j < i + reg ==> mem@[j] == self@.v[j - i],
                forall|j: int| (0 <= j < i || i + reg <= j < MEMORY_SIZE) ==> mem@[j]
                    == self@.mem[j],
            decreases x + 1 - reg,
        {
            mem[i + reg] = self.reg_v[reg];
            reg += 1;
        }
        self.memory = mem;
        if self.index_increment_quirk {
            self.reg_i = self.reg_i + x as u16 + 1;
        }
        proof {
            let ms = step_move_regs(old(self)@)->Ok_0;
            assert(self@.mem =~= ms.mem);
            assert(self@ =~= ms);
        }
        Ok(())
    }

    /// `FX65`: copy memory at `I` into `V0..Vx` inclusive; under the index
    /// quirk, `I` then advances by `X + 1`.
    fn load_regs(&mut self) -> (r: Result<(), Fault>)
        requires
            old(self)@.pc >= 2,
        ensures
            final(self)@ == try_step(old(self)@, step_load_regs(old(self)@)).0,
            r == try_step(old(self)@, step_load_regs(old(self)@)).1,
    {
        proof {
            use_type_invariant(&*self);
        }
        let x = self.instr.x();
        let i = self.reg_i as usize;
        if i + x >= MEMORY_SIZE {
            return Err(Fault {
                kind: FaultKind::MemoryOutOfBounds,
                instr: self.instr.raw,
                pc: self.pc - 2,
            });
        }
        let mut v = self.reg_v;
        let mut reg: usize = 0;
        #[verifier::loop_isolation(false)]
        while reg <= x
            invariant
                reg <= x + 1,
                forall|j: int| 0 <= j < reg ==> v@[j] == self@.mem[i + j],
                forall|j: int| reg <= j < 16 ==> v@[j] == self@.v[j],
            decreases x + 1 - reg,
        {
            v[reg] = self.memory[i + reg];
            reg += 1;
        }
        self.reg_v = v;
        if self.index_increment_quirk {
            self.reg_i = self.reg_i + x as u16 + 1;
        }
        proof {
            let ms = step_load_regs(old(self)@)->Ok_0;
            assert(self@.v =~= ms.v);
            assert(self@ =~= ms);
        }
        Ok(())
    }

    /// `DXYN`: draw the N-row sprite at `memory[I..]` at the coordinates
    /// in `(Vx, Vy)`, XORing pixels and clipping at the screen edge; `VF`
    /// reports whether any on pixel was toggled off.
    fn draw_sprite(&mut self) -> (r: Result<(), Fault>)
        requires
            old(self)@.pc >= 2,
        ensures
            final(self)@ == try_step(old(self)@, step_draw_sprite(old(self)@)).0,
            r == try_step(old(self)@, step_draw_sprite(old(self)@)).1,
    {
        proof {
            use_type_invariant(&*self);
        }
        let n = self.instr.n() as usize;
        let i = self.reg_i as usize;
        if i + n > MEMORY_SIZE {
            return Err(Fault {
                kind: FaultKind::MemoryOutOfBounds,
                instr: self.instr.raw,
                pc: self.pc - 2,
            });
        }
        // Extract start coordinates from the registers, wrapped onto the screen.
        let x0 = (self.reg_v[self.instr.x()] % 64) as usize;
        let y0 = (self.reg_v[self.instr.y()] % 32) as usize;
        let mut buf = self.graphics_buffer;
        let mut vf: u8 = 0;
        let mut row: usize = 0;
        #[verifier::loop_isolation(false)]
        while row < n
            invariant
                row <= n,
                buf@ == partial_display(self@, 8 * row),
                (vf == 1) == partial_collision(self@, 8 * row),
                vf <= 1,
            decreases n - row,
        {
            let blob = self.memory[i + row];
            let mut col: usize = 0;
            #[verifier::loop_isolation(false)]
            while col < 8
                invariant
                    col <= 8,
                    buf@ == partial_display(self@, 8 * row + col),
                    (vf == 1) == partial_collision(self@, 8 * row + col),
                    vf <= 1,
                decreases 8 - col,
            {
                proof {
                    lemma_draw_prefix_step(self@, row as int, col as int);
                    lemma_partial_collision_step(self@, row as int, col as int);
                }
                if (blob >> (7 - col) as u8) & 1 == 1 {
                    let px = x0 + col;
                    let py = y0 + row;
                    if px < SCREEN_WIDTH && py < SCREEN_HEIGHT {
                        let idx = SCREEN_WIDTH * py + px;
                        proof {
                            assert(draw_covers(self@, px as int, py as int));
                            assert(idx as int % 64 == px && idx as int / 64 == py);
                            assert(!draw_covers_prefix(
                                self@,
                                px as int,
                                py as int,
                                8 * row + col,
                            ));
                        }
                        if buf[idx] {
                            vf = 1;
                        }
                        buf[idx] = !buf[idx];
                        proof {
                            assert(buf@ =~= partial_display(self@, 8 * row + col + 1));
                        }
                    } else {
                        proof {
                            assert(!draw_covers(
                                self@,
                                x0 + col as int,
                                y0 + row as int,
                            ));
                            assert(buf@ =~= partial_display(self@, 8 * row + col + 1));
                        }
                    }
                } else {
                    proof {
                        assert(!draw_covers(self@, x0 + col as int, y0 + row as int));
                        assert(buf@ =~= partial_display(self@, 8 * row + col + 1));
                    }
                }
                col += 1;
            }
            row += 1;
        }
        self.graphics_buffer = buf;
        let mut v = self.reg_v;
        v[15] = vf;
        self.reg_v = v;
        proof {
            lemma_draw_prefix_full(old(self)@);
            let ms = step_draw_sprite(old(self)@)->Ok_0;
            assert(self@.display =~= ms.display);
            assert(self@ =~= ms);
        }
        Ok(())
    }
}

} // verus!
