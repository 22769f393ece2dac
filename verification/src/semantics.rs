//! The mathematical model of the machine and the specification-level
//! semantics of every instruction.
//!
//! [`MachineView`] is an abstract snapshot of the whole machine state. Each
//! instruction's effect is a spec function from view to view (or to a
//! [`Fault`] for the fatal conditions), and [`spec_cycle`] composes a fetch
//! with [`spec_execute`]'s dispatch. The executable machine is proved to
//! implement these functions exactly.

use vstd::prelude::*;
use crate::instruction::{nib1_of, nib2_of, nib3_of, nib4_of, imm_of, addr_of};

verus! {

/// Number of addressable memory bytes.
pub const MEMORY_SIZE: usize = 4096;

/// Address at which the program counter starts and program images load.
pub const PC_START_ADDRESS: u16 = 0x200;

/// Largest program image that fits between the load address and the end of memory.
pub const MAX_ROM_SIZE: usize = 3584;

/// Screen width in pixels.
pub const SCREEN_WIDTH: usize = 64;

/// Screen height in pixels.
pub const SCREEN_HEIGHT: usize = 32;

/// Number of pixels in the display buffer.
pub const DISPLAY_SIZE: usize = 2048;

/// Address at which the system font glyphs sit in memory.
pub const FONT_START_ADDRESS: u16 = 0x50;

/// Number of font bytes: 16 glyphs of 5 rows each.
pub const FONT_SIZE: usize = 80;

/// The kinds of fatal condition that stop a cycle.
#[derive(Clone, Copy, Debug, PartialEq, Eq, Structural)]
pub enum FaultKind {
    /// A fetched opcode matches no defined pattern within a recognized family.
    UnknownInstruction,
    /// The `0NNN` machine-language-subroutine pattern: recognized but
    /// deliberately not emulated, reported distinctly for diagnosability.
    UnsupportedInstruction,
    /// `FX29` asked for the font glyph of a value above 0xF, which has none.
    InvalidDigit,
    /// `EX9E`/`EXA1` asked for a keypad entry above 0xF, which does not exist.
    InvalidKey,
    /// A fetch was attempted at or past the end of memory.
    ProgramCounterOverflow,
    /// A subroutine call was made with all 16 stack slots already in use.
    StackOverflow,
    /// A subroutine return was made with an empty call stack.
    StackUnderflow,
    /// A memory access derived from the index register fell outside memory.
    MemoryOutOfBounds,
}

/// A fatal condition, carrying the offending instruction bits and address
/// so the host can present a diagnostic.
#[derive(Clone, Copy, Debug, PartialEq, Eq, Structural)]
pub struct Fault {
    /// What went wrong.
    pub kind: FaultKind,
    /// The instruction word being executed; 0 for a fetch fault, where no
    /// word could be read.
    pub instr: u16,
    /// The address the faulting instruction was fetched from; for a fetch
    /// fault, the overflowing program counter itself.
    pub pc: u16,
}

/// The one recoverable, load-time error: the program image does not fit.
#[derive(Clone, Copy, Debug, PartialEq, Eq, Structural)]
pub enum LoadError {
    /// The image is larger than the memory available above the load address.
    ImageTooLarge,
}

/// An abstract snapshot of the complete machine state.
#[verifier::ext_equal]
pub ghost struct MachineView {
    /// General-purpose registers `V0..VF`.
    pub v: Seq<u8>,
    /// The 4096 bytes of memory.
    pub mem: Seq<u8>,
    /// The index register `I`.
    pub i: u16,
    /// The program counter.
    pub pc: u16,
    /// The 16-entry call stack of return addresses.
    pub stack: Seq<u16>,
    /// The stack pointer: index of the next free stack slot.
    pub sp: u8,
    /// The delay timer register.
    pub delay: u8,
    /// The sound timer register; sound is active while it is nonzero.
    pub sound: u8,
    /// The 16-key keypad, indexed by key value.
    pub keys: Seq<bool>,
    /// The 64x32 display buffer, row-major: index `y * 64 + x`.
    pub display: Seq<bool>,
    /// The instruction word currently being decoded.
    pub instr: u16,
    /// Quirk toggle: `8XY1/2/3` reset `VF` to 0 after the bitwise operation.
    pub vf_reset_quirk: bool,
    /// Quirk toggle: `FX55`/`FX65` add `X + 1` to `I` after the transfer.
    pub index_increment_quirk: bool,
}

impl MachineView {
    /// Shape of a well-formed state: every backing store has its fixed size.
    pub open spec fn wf(self) -> bool {
        &&& self.v.len() == 16
        &&& self.mem.len() == MEMORY_SIZE
        &&& self.stack.len() == 16
        &&& self.keys.len() == 16
        &&& self.display.len() == DISPLAY_SIZE
    }
}

/// The system font: 16 glyphs, one per hexadecimal digit, each a 5-row
/// bitmap with the row's pixels in the byte's high bits.
pub open spec fn font() -> Seq<u8> {
    seq![
        0xF0u8, 0x90, 0x90, 0x90, 0xF0, // 0
        0x20, 0x60, 0x20, 0x20, 0x70, // 1
        0xF0, 0x10, 0xF0, 0x80, 0xF0, // 2
        0xF0, 0x10, 0xF0, 0x10, 0xF0, // 3
        0x90, 0x90, 0xF0, 0x10, 0x10, // 4
        0xF0, 0x80, 0xF0, 0x10, 0xF0, // 5
        0xF0, 0x80, 0xF0, 0x90, 0xF0, // 6
        0xF0, 0x10, 0x20, 0x40, 0x40, // 7
        0xF0, 0x90, 0xF0, 0x90, 0xF0, // 8
        0xF0, 0x90, 0xF0, 0x10, 0xF0, // 9
        0xF0, 0x90, 0xF0, 0x90, 0x90, // A
        0xE0, 0x90, 0xE0, 0x90, 0xE0, // B
        0xF0, 0x80, 0x80, 0x80, 0xF0, // C
        0xE0, 0x90, 0x90, 0x90, 0xE0, // D
        0xF0, 0x80, 0xF0, 0x80, 0xF0, // E
        0xF0, 0x80, 0xF0, 0x80, 0x80, // F
    ]
}

/// `mem` with the font written over the font region.
pub open spec fn font_loaded(mem: Seq<u8>) -> Seq<u8> {
    Seq::new(MEMORY_SIZE as nat, |j: int|
        if FONT_START_ADDRESS <= j < FONT_START_ADDRESS + FONT_SIZE {
            font()[j - FONT_START_ADDRESS]
        } else {
            mem[j]
        })
}

/// The construction-time state for a given quirk configuration: everything
/// zeroed except the font region of memory and the program counter.
pub open spec fn init_state(vf_reset_quirk: bool, index_increment_quirk: bool) -> MachineView {
    MachineView {
        v: Seq::new(16, |j: int| 0u8),
        mem: font_loaded(Seq::new(MEMORY_SIZE as nat, |j: int| 0u8)),
        i: 0,
        pc: PC_START_ADDRESS,
        stack: Seq::new(16, |j: int| 0u16),
        sp: 0,
        delay: 0,
        sound: 0,
        keys: Seq::new(16, |j: int| false),
        display: Seq::new(DISPLAY_SIZE as nat, |j: int| false),
        instr: 0,
        vf_reset_quirk: vf_reset_quirk,
        index_increment_quirk: index_increment_quirk,
    }
}

/// `mem` with a program image copied in verbatim at the load address.
pub open spec fn loaded_mem(mem: Seq<u8>, rom: Seq<u8>) -> Seq<u8> {
    Seq::new(MEMORY_SIZE as nat, |j: int|
        if PC_START_ADDRESS <= j < PC_START_ADDRESS + rom.len() {
            rom[j - PC_START_ADDRESS]
        } else {
            mem[j]
        })
}

/// The value of register `Vx`, with `x` drawn from the current instruction.
pub open spec fn reg_x(s: MachineView) -> u8 {
    s.v[nib2_of(s.instr) as int]
}

/// The value of register `Vy`, with `y` drawn from the current instruction.
pub open spec fn reg_y(s: MachineView) -> u8 {
    s.v[nib3_of(s.instr) as int]
}

/// The fault record for the instruction currently being executed: its word
/// and its address (the program counter has already advanced past it).
pub open spec fn fault_record(s: MachineView, kind: FaultKind) -> Fault {
    Fault { kind: kind, instr: s.instr, pc: (s.pc - 2) as u16 }
}

/// `00E0`: clear every pixel of the display.
pub open spec fn step_clear_screen(s: MachineView) -> MachineView {
    MachineView { display: Seq::new(DISPLAY_SIZE as nat, |j: int| false), ..s }
}

/// `00EE`: pop the stack into the program counter.
pub open spec fn step_return_sub(s: MachineView) -> Result<MachineView, Fault> {
    if s.sp == 0 {
        Err(fault_record(s, FaultKind::StackUnderflow))
    } else {
        Ok(MachineView { sp: (s.sp - 1) as u8, pc: s.stack[s.sp - 1], ..s })
    }
}

/// `1NNN`: jump.
pub open spec fn step_jump(s: MachineView) -> MachineView {
    MachineView { pc: addr_of(s.instr), ..s }
}

/// `2NNN`: push the program counter (the return address) and jump.
pub open spec fn step_call_sub(s: MachineView) -> Result<MachineView, Fault> {
    if s.sp >= 16 {
        Err(fault_record(s, FaultKind::StackOverflow))
    } else {
        Ok(MachineView {
            stack: s.stack.update(s.sp as int, s.pc),
            sp: (s.sp + 1) as u8,
            pc: addr_of(s.instr),
            ..s
        })
    }
}

/// Skip the next instruction (one extra program-counter step) when `cond` holds.
pub open spec fn step_skip_if(s: MachineView, cond: bool) -> MachineView {
    if cond {
        MachineView { pc: (s.pc + 2) as u16, ..s }
    } else {
        s
    }
}

/// `3XNN`: skip if `Vx == NN`.
pub open spec fn step_skip_equal_imm(s: MachineView) -> MachineView {
    step_skip_if(s, reg_x(s) == imm_of(s.instr))
}

/// `4XNN`: skip if `Vx != NN`.
pub open spec fn step_skip_not_equal_imm(s: MachineView) -> MachineView {
    step_skip_if(s, reg_x(s) != imm_of(s.instr))
}

/// `5XY0`: skip if `Vx == Vy`.
pub open spec fn step_skip_equal_reg(s: MachineView) -> MachineView {
    step_skip_if(s, reg_x(s) == reg_y(s))
}

/// `9XY0`: skip if `Vx != Vy`.
pub open spec fn step_skip_not_equal_reg(s: MachineView) -> MachineView {
    step_skip_if(s, reg_x(s) != reg_y(s))
}

/// `6XNN`: load the immediate.
pub open spec fn step_load_imm(s: MachineView) -> MachineView {
    MachineView { v: s.v.update(nib2_of(s.instr) as int, imm_of(s.instr) as u8), ..s }
}

/// `7XNN`: add the immediate with 8-bit wraparound; `VF` is not a carry flag here.
pub open spec fn step_add_imm(s: MachineView) -> MachineView {
    MachineView {
        v: s.v.update(nib2_of(s.instr) as int, ((reg_x(s) + imm_of(s.instr)) % 256) as u8),
        ..s
    }
}

/// `8XY0`: copy `Vy` into `Vx`.
pub open spec fn step_load_reg(s: MachineView) -> MachineView {
    MachineView { v: s.v.update(nib2_of(s.instr) as int, reg_y(s)), ..s }
}

/// Write a bitwise result into `Vx`, then reset `VF` if the quirk is on.
pub open spec fn step_bitwise(s: MachineView, val: u8) -> MachineView {
    let v1 = s.v.update(nib2_of(s.instr) as int, val);
    MachineView { v: if s.vf_reset_quirk { v1.update(15, 0u8) } else { v1 }, ..s }
}

/// `8XY1`: bitwise or.
pub open spec fn step_or(s: MachineView) -> MachineView {
    step_bitwise(s, reg_x(s) | reg_y(s))
}

/// `8XY2`: bitwise and.
pub open spec fn step_and(s: MachineView) -> MachineView {
    step_bitwise(s, reg_x(s) & reg_y(s))
}

/// `8XY3`: bitwise exclusive or.
pub open spec fn step_xor(s: MachineView) -> MachineView {
    step_bitwise(s, reg_x(s) ^ reg_y(s))
}

/// `8XY4`: add with 8-bit wraparound; `VF` becomes 1 exactly when the sum
/// exceeds 255.
pub open spec fn step_add_reg(s: MachineView) -> MachineView {
    let sum = reg_x(s) + reg_y(s);
    MachineView {
        v: s.v.update(nib2_of(s.instr) as int, (sum % 256) as u8)
            .update(15, if sum > 255 { 1u8 } else { 0u8 }),
        ..s
    }
}

/// `8XY5`: `Vx - Vy` with wraparound; `VF` becomes 1 exactly when no borrow
/// occurs, that is when `Vx >= Vy` beforehand.
pub open spec fn step_sub_reg(s: MachineView) -> MachineView {
    let a = reg_x(s);
    let b = reg_y(s);
    let diff = if a >= b { (a - b) as u8 } else { (a + 256 - b) as u8 };
    MachineView {
        v: s.v.update(nib2_of(s.instr) as int, diff)
            .update(15, if a >= b { 1u8 } else { 0u8 }),
        ..s
    }
}

/// `8XY7`: `Vy - Vx` with wraparound; `VF` becomes 1 exactly when no borrow
/// occurs, that is when `Vy >= Vx` beforehand.
pub open spec fn step_sub_reg_rev(s: MachineView) -> MachineView {
    let a = reg_x(s);
    let b = reg_y(s);
    let diff = if b >= a { (b - a) as u8 } else { (b + 256 - a) as u8 };
    MachineView {
        v: s.v.update(nib2_of(s.instr) as int, diff)
            .update(15, if b >= a { 1u8 } else { 0u8 }),
        ..s
    }
}

/// `8XY6`: `Vx = Vy >> 1`; `VF` receives the bit shifted out.
pub open spec fn step_shift_right(s: MachineView) -> MachineView {
    MachineView {
        v: s.v.update(nib2_of(s.instr) as int, reg_y(s) / 2).update(15, reg_y(s) % 2),
        ..s
    }
}

/// `8XYE`: `Vx = Vy << 1` with 8-bit wraparound; `VF` receives the bit
/// shifted out.
pub open spec fn step_shift_left(s: MachineView) -> MachineView {
    MachineView {
        v: s.v.update(nib2_of(s.instr) as int, ((reg_y(s) * 2) % 256) as u8)
            .update(15, reg_y(s) / 128),
        ..s
    }
}

/// `ANNN`: load the index register.
pub open spec fn step_load_addr(s: MachineView) -> MachineView {
    MachineView { i: addr_of(s.instr), ..s }
}

/// `BNNN`: jump to `NNN + V0`.
pub open spec fn step_jump_offset(s: MachineView) -> MachineView {
    MachineView { pc: (addr_of(s.instr) + s.v[0]) as u16, ..s }
}

/// `CXNN`: mask a random byte with the immediate. The byte drawn is an
/// argument here; the machine promises only that some byte was used.
pub open spec fn step_rand(s: MachineView, rnd: u8) -> MachineView {
    MachineView { v: s.v.update(nib2_of(s.instr) as int, rnd & (imm_of(s.instr) as u8)), ..s }
}

/// Whether bit `k` (0 = least significant) of `b` is set.
pub open spec fn bit_of(b: u8, k: u8) -> bool {
    (b >> k) & 1 == 1
}

/// Whether `DXYN` paints the pixel `(px, py)`: the sprite starts at
/// `(Vx mod 64, Vy mod 32)`, covers 8 columns (most significant bit first)
/// in each of its `N` rows, pixels falling off the screen are dropped, and
/// only rows' set bits paint.
pub open spec fn draw_covers(s: MachineView, px: int, py: int) -> bool {
    let x0 = reg_x(s) % 64;
    let y0 = reg_y(s) % 32;
    &&& x0 <= px < x0 + 8
    &&& px < 64
    &&& y0 <= py < y0 + nib4_of(s.instr)
    &&& py < 32
    &&& bit_of(s.mem[s.i + (py - y0)], (7 - (px - x0)) as u8)
}

/// Whether the sprite lands on at least one pixel that is already on.
pub open spec fn draw_collision(s: MachineView) -> bool {
    exists|px: int, py: int| #[trigger] draw_covers(s, px, py) && s.display[py * 64 + px]
}

/// The display after the sprite is XORed on: every covered pixel toggled,
/// every other pixel untouched. Each pixel is covered by at most one sprite
/// cell, so a per-pixel toggle captures the row-by-row XOR exactly.
pub open spec fn drawn_display(s: MachineView) -> Seq<bool> {
    Seq::new(DISPLAY_SIZE as nat, |idx: int|
        if draw_covers(s, idx % 64, idx / 64) {
            !s.display[idx]
        } else {
            s.display[idx]
        })
}

/// `DXYN`: XOR the sprite onto the display; `VF` becomes 1 exactly when a
/// painted pixel was already on. Reading a sprite row past the end of
/// memory is fatal.
pub open spec fn step_draw_sprite(s: MachineView) -> Result<MachineView, Fault> {
    if s.i + nib4_of(s.instr) > MEMORY_SIZE {
        Err(fault_record(s, FaultKind::MemoryOutOfBounds))
    } else {
        Ok(MachineView {
            display: drawn_display(s),
            v: s.v.update(15, if draw_collision(s) { 1u8 } else { 0u8 }),
            ..s
        })
    }
}

/// Whether the sprite covers `(px, py)` through one of its first `k` cells,
/// counting cells row-major: cell `(row, col)` has number `8 * row + col`.
/// This orders the cells exactly as the drawing loop visits them.
pub open spec fn draw_covers_prefix(s: MachineView, px: int, py: int, k: int) -> bool {
    &&& draw_covers(s, px, py)
    &&& 8 * (py - reg_y(s) % 32) + (px - reg_x(s) % 64) < k
}

/// The display once the first `k` sprite cells have been drawn.
pub open spec fn partial_display(s: MachineView, k: int) -> Seq<bool> {
    Seq::new(DISPLAY_SIZE as nat, |idx: int|
        if draw_covers_prefix(s, idx % 64, idx / 64, k) {
            !s.display[idx]
        } else {
            s.display[idx]
        })
}

/// Whether one of the first `k` sprite cells has collided with an on pixel.
pub open spec fn partial_collision(s: MachineView, k: int) -> bool {
    exists|px: int, py: int| #[trigger] draw_covers_prefix(s, px, py, k) && s.display[py * 64 + px]
}

/// Drawing one more cell extends the covered prefix by exactly the pixel
/// that cell lands on (when it lands on the screen with its bit set at all).
pub proof fn lemma_draw_prefix_step(s: MachineView, row: int, col: int)
    requires
        0 <= row < nib4_of(s.instr),
        0 <= col < 8,
    ensures
        forall|px: int, py: int| #[trigger] draw_covers_prefix(s, px, py, 8 * row + col + 1)
            <==> (draw_covers_prefix(s, px, py, 8 * row + col) || (px == reg_x(s) % 64 + col
            && py == reg_y(s) % 32 + row && draw_covers(s, px, py))),
{
    assert forall|px: int, py: int| #[trigger] draw_covers_prefix(s, px, py, 8 * row + col + 1)
        implies (draw_covers_prefix(s, px, py, 8 * row + col) || (px == reg_x(s) % 64 + col
        && py == reg_y(s) % 32 + row && draw_covers(s, px, py))) by {
        let r = py - reg_y(s) % 32;
        let c = px - reg_x(s) % 64;
        if 8 * r + c == 8 * row + col {
            assert(8 * (r - row) == col - c);
            assert(r == row && c == col);
        }
    }
}

/// Drawing one more cell collides exactly when a collision had already
/// happened or the new cell lands on an on pixel.
pub proof fn lemma_partial_collision_step(s: MachineView, row: int, col: int)
    requires
        0 <= row < nib4_of(s.instr),
        0 <= col < 8,
    ensures
        partial_collision(s, 8 * row + col + 1) == (partial_collision(s, 8 * row + col) || (
        draw_covers(s, reg_x(s) % 64 + col, reg_y(s) % 32 + row) && s.display[(reg_y(s) % 32 + row)
            * 64 + (reg_x(s) % 64 + col)])),
{
    lemma_draw_prefix_step(s, row, col);
    let px0 = reg_x(s) % 64 + col;
    let py0 = reg_y(s) % 32 + row;
    if partial_collision(s, 8 * row + col + 1) {
        let (px, py) = choose|px: int, py: int|
            #[trigger] draw_covers_prefix(s, px, py, 8 * row + col + 1) && s.display[py * 64 + px];
        assert(draw_covers_prefix(s, px, py, 8 * row + col) || (px == px0 && py == py0
            && draw_covers(s, px, py)));
    }
    if partial_collision(s, 8 * row + col) {
        let (px, py) = choose|px: int, py: int|
            #[trigger] draw_covers_prefix(s, px, py, 8 * row + col) && s.display[py * 64 + px];
        assert(draw_covers_prefix(s, px, py, 8 * row + col + 1));
    }
    if draw_covers(s, px0, py0) && s.display[py0 * 64 + px0] {
        assert(draw_covers_prefix(s, px0, py0, 8 * row + col + 1));
    }
}

/// After all `8 * N` cells, the covered prefix is the whole sprite.
pub proof fn lemma_draw_prefix_full(s: MachineView)
    ensures
        partial_display(s, 8 * nib4_of(s.instr)) == drawn_display(s),
        partial_collision(s, 8 * nib4_of(s.instr)) == draw_collision(s),
{
    let n = nib4_of(s.instr);
    assert forall|px: int, py: int| #[trigger] draw_covers(s, px, py) implies draw_covers_prefix(
        s,
        px,
        py,
        8 * n,
    ) by {
        let r = py - reg_y(s) % 32;
        let c = px - reg_x(s) % 64;
        assert(8 * r + c <= 8 * (n - 1) + 7);
    }
    assert(partial_display(s, 8 * n) =~= drawn_display(s));
    assert(partial_collision(s, 8 * n) == draw_collision(s)) by {
        if partial_collision(s, 8 * n) {
            let (px, py) = choose|px: int, py: int| #[trigger] draw_covers_prefix(s, px, py, 8 * n)
                && s.display[py * 64 + px];
            assert(draw_covers(s, px, py) && s.display[py * 64 + px]);
        }
        if draw_collision(s) {
            let (px, py) = choose|px: int, py: int| #[trigger] draw_covers(s, px, py)
                && s.display[py * 64 + px];
            assert(draw_covers_prefix(s, px, py, 8 * n) && s.display[py * 64 + px]);
        }
    }
}

/// `EX9E`: skip if the key numbered by `Vx` is pressed. A `Vx` above 0xF
/// names no key and is fatal.
pub open spec fn step_skip_key_pressed(s: MachineView) -> Result<MachineView, Fault> {
    if reg_x(s) > 0xF {
        Err(fault_record(s, FaultKind::InvalidKey))
    } else {
        Ok(step_skip_if(s, s.keys[reg_x(s) as int]))
    }
}

/// `EXA1`: skip if the key numbered by `Vx` is not pressed.
pub open spec fn step_skip_key_not_pressed(s: MachineView) -> Result<MachineView, Fault> {
    if reg_x(s) > 0xF {
        Err(fault_record(s, FaultKind::InvalidKey))
    } else {
        Ok(step_skip_if(s, !s.keys[reg_x(s) as int]))
    }
}

/// `FX07`: read the delay timer into `Vx`.
pub open spec fn step_load_delay(s: MachineView) -> MachineView {
    MachineView { v: s.v.update(nib2_of(s.instr) as int, s.delay), ..s }
}

/// The lowest pressed key at or above position `k`, or 16 when none is.
pub open spec fn first_pressed_from(keys: Seq<bool>, k: int) -> int
    decreases 16 - k,
{
    if k < 0 || k >= 16 {
        16
    } else if keys[k] {
        k
    } else {
        first_pressed_from(keys, k + 1)
    }
}

/// The lowest pressed key, or 16 when none is pressed.
pub open spec fn first_pressed(keys: Seq<bool>) -> int {
    first_pressed_from(keys, 0)
}

/// An ascending scan that stops at position `k` has found exactly the
/// first pressed key: everything below `k` is up, and `k` itself (when it
/// is a key at all) is down.
pub proof fn lemma_first_pressed_characterization(keys: Seq<bool>, k: int)
    requires
        0 <= k <= 16,
        forall|j: int| 0 <= j < k ==> !keys[j],
        k < 16 ==> keys[k],
    ensures
        first_pressed(keys) == if k < 16 { k } else { 16int },
{
    lemma_first_pressed_from(keys, 0, k);
}

/// Helper for the scan characterization, generalized over the start position.
proof fn lemma_first_pressed_from(keys: Seq<bool>, lo: int, k: int)
    requires
        0 <= lo <= k <= 16,
        forall|j: int| lo <= j < k ==> !keys[j],
        k < 16 ==> keys[k],
    ensures
        first_pressed_from(keys, lo) == if k < 16 { k } else { 16int },
    decreases k - lo,
{
    if lo < k {
        lemma_first_pressed_from(keys, lo + 1, k);
    }
}

/// `FX0A`: scan the keys in ascending order; write the first pressed key
/// into `Vx`, or rewind the program counter so the instruction re-executes
/// next cycle when none is pressed.
pub open spec fn step_await_key(s: MachineView) -> MachineView {
    let k = first_pressed(s.keys);
    if k < 16 {
        MachineView { v: s.v.update(nib2_of(s.instr) as int, k as u8), ..s }
    } else {
        MachineView { pc: (s.pc - 2) as u16, ..s }
    }
}

/// `FX15`: set the delay timer from `Vx`.
pub open spec fn step_set_delay(s: MachineView) -> MachineView {
    MachineView { delay: reg_x(s), ..s }
}

/// `FX18`: set the sound timer from `Vx`.
pub open spec fn step_set_sound(s: MachineView) -> MachineView {
    MachineView { sound: reg_x(s), ..s }
}

/// `FX1E`: add `Vx` to the index register with 16-bit wraparound.
pub open spec fn step_add_addr(s: MachineView) -> MachineView {
    MachineView { i: ((s.i + reg_x(s)) % 0x10000) as u16, ..s }
}

/// `FX29`: point the index register at the font glyph for the digit in
/// `Vx`. A value above 0xF has no glyph and is fatal.
pub open spec fn step_load_digit_addr(s: MachineView) -> Result<MachineView, Fault> {
    if reg_x(s) > 0xF {
        Err(fault_record(s, FaultKind::InvalidDigit))
    } else {
        Ok(MachineView { i: (FONT_START_ADDRESS + reg_x(s) * 5) as u16, ..s })
    }
}

/// `FX33`: store the binary-coded decimal of `Vx` at `I, I+1, I+2`
/// (hundreds, tens, ones). Writing past the end of memory is fatal.
pub open spec fn step_move_bcd(s: MachineView) -> Result<MachineView, Fault> {
    if s.i + 2 >= MEMORY_SIZE {
        Err(fault_record(s, FaultKind::MemoryOutOfBounds))
    } else {
        Ok(MachineView {
            mem: s.mem.update(s.i as int, reg_x(s) / 100)
                .update(s.i + 1, (reg_x(s) / 10) % 10)
                .update(s.i + 2, reg_x(s) % 10),
            ..s
        })
    }
}

/// `FX55`: copy `V0..Vx` inclusive into memory starting at `I`; under the
/// index quirk, `I` then advances by `X + 1`, otherwise it is unmodified.
/// Writing past the end of memory is fatal.
pub open spec fn step_move_regs(s: MachineView) -> Result<MachineView, Fault> {
    let x = nib2_of(s.instr);
    if s.i + x >= MEMORY_SIZE {
        Err(fault_record(s, FaultKind::MemoryOutOfBounds))
    } else {
        Ok(MachineView {
            mem: Seq::new(MEMORY_SIZE as nat, |j: int|
                if s.i <= j <= s.i + x {
                    s.v[j - s.i]
                } else {
                    s.mem[j]
                }),
            i: if s.index_increment_quirk { (s.i + x + 1) as u16 } else { s.i },
            ..s
        })
    }
}

/// `FX65`: copy memory starting at `I` into `V0..Vx` inclusive; under the
/// index quirk, `I` then advances by `X + 1`, otherwise it is unmodified.
/// Reading past the end of memory is fatal.
pub open spec fn step_load_regs(s: MachineView) -> Result<MachineView, Fault> {
    let x = nib2_of(s.instr);
    if s.i + x >= MEMORY_SIZE {
        Err(fault_record(s, FaultKind::MemoryOutOfBounds))
    } else {
        Ok(MachineView {
            v: Seq::new(16, |j: int|
                if j <= x {
                    s.mem[s.i + j]
                } else {
                    s.v[j]
                }),
            i: if s.index_increment_quirk { (s.i + x + 1) as u16 } else { s.i },
            ..s
        })
    }
}

/// A step that cannot fault, as an execute outcome.
pub open spec fn ok_step(s2: MachineView) -> (MachineView, Result<(), Fault>) {
    (s2, Ok(()))
}

/// A fallible step as an execute outcome: a fault leaves the state as it
/// stood after the fetch.
pub open spec fn try_step(s: MachineView, r: Result<MachineView, Fault>) -> (MachineView, Result<
    (),
    Fault,
>) {
    match r {
        Ok(s2) => (s2, Ok(())),
        Err(f) => (s, Err(f)),
    }
}

/// Decode and execute the current instruction of a post-fetch state:
/// dispatch on the most significant nibble, then on the fourth nibble or
/// low byte for the families with sub-opcodes. `rnd` is the byte a `CXNN`
/// consumes; every other instruction ignores it.
pub open spec fn spec_execute(s: MachineView, rnd: u8) -> (MachineView, Result<(), Fault>) {
    let n1 = nib1_of(s.instr);
    if n1 == 0x0 {
        if s.instr == 0x00E0 {
            ok_step(step_clear_screen(s))
        } else if s.instr == 0x00EE {
            try_step(s, step_return_sub(s))
        } else {
            (s, Err(fault_record(s, FaultKind::UnsupportedInstruction)))
        }
    } else if n1 == 0x1 {
        ok_step(step_jump(s))
    } else if n1 == 0x2 {
        try_step(s, step_call_sub(s))
    } else if n1 == 0x3 {
        ok_step(step_skip_equal_imm(s))
    } else if n1 == 0x4 {
        ok_step(step_skip_not_equal_imm(s))
    } else if n1 == 0x5 {
        ok_step(step_skip_equal_reg(s))
    } else if n1 == 0x6 {
        ok_step(step_load_imm(s))
    } else if n1 == 0x7 {
        ok_step(step_add_imm(s))
    } else if n1 == 0x8 {
        let n4 = nib4_of(s.instr);
        if n4 == 0x0 {
            ok_step(step_load_reg(s))
        } else if n4 == 0x1 {
            ok_step(step_or(s))
        } else if n4 == 0x2 {
            ok_step(step_and(s))
        } else if n4 == 0x3 {
            ok_step(step_xor(s))
        } else if n4 == 0x4 {
            ok_step(step_add_reg(s))
        } else if n4 == 0x5 {
            ok_step(step_sub_reg(s))
        } else if n4 == 0x6 {
            ok_step(step_shift_right(s))
        } else if n4 == 0x7 {
            ok_step(step_sub_reg_rev(s))
        } else if n4 == 0xE {
            ok_step(step_shift_left(s))
        } else {
            (s, Err(fault_record(s, FaultKind::UnknownInstruction)))
        }
    } else if n1 == 0x9 {
        ok_step(step_skip_not_equal_reg(s))
    } else if n1 == 0xA {
        ok_step(step_load_addr(s))
    } else if n1 == 0xB {
        ok_step(step_jump_offset(s))
    } else if n1 == 0xC {
        ok_step(step_rand(s, rnd))
    } else if n1 == 0xD {
        try_step(s, step_draw_sprite(s))
    } else if n1 == 0xE {
        let nn = imm_of(s.instr);
        if nn == 0x9E {
            try_step(s, step_skip_key_pressed(s))
        } else if nn == 0xA1 {
            try_step(s, step_skip_key_not_pressed(s))
        } else {
            (s, Err(fault_record(s, FaultKind::UnknownInstruction)))
        }
    } else if n1 == 0xF {
        let nn = imm_of(s.instr);
        if nn == 0x07 {
            ok_step(step_load_delay(s))
        } else if nn == 0x0A {
            ok_step(step_await_key(s))
        } else if nn == 0x15 {
            ok_step(step_set_delay(s))
        } else if nn == 0x18 {
            ok_step(step_set_sound(s))
        } else if nn == 0x1E {
            ok_step(step_add_addr(s))
        } else if nn == 0x29 {
            try_step(s, step_load_digit_addr(s))
        } else if nn == 0x33 {
            try_step(s, step_move_bcd(s))
        } else if nn == 0x55 {
            try_step(s, step_move_regs(s))
        } else if nn == 0x65 {
            try_step(s, step_load_regs(s))
        } else {
            (s, Err(fault_record(s, FaultKind::UnknownInstruction)))
        }
    } else {
        (s, Err(fault_record(s, FaultKind::UnknownInstruction)))
    }
}

/// The big-endian instruction word at the program counter.
pub open spec fn fetched_word(s: MachineView) -> u16 {
    (s.mem[s.pc as int] * 256 + s.mem[s.pc as int + 1]) as u16
}

/// Load the next instruction word and advance the program counter past it.
/// A fetch at or beyond the end of memory is fatal and changes nothing.
pub open spec fn spec_fetch(s: MachineView) -> (MachineView, Result<(), Fault>) {
    if s.pc + 1 >= MEMORY_SIZE {
        (s, Err(Fault { kind: FaultKind::ProgramCounterOverflow, instr: 0, pc: s.pc }))
    } else {
        (MachineView { instr: fetched_word(s), pc: (s.pc + 2) as u16, ..s }, Ok(()))
    }
}

/// One full machine cycle: fetch, then decode and execute. `rnd` is the
/// byte a `CXNN` consumes; every other instruction ignores it.
pub open spec fn spec_cycle(s: MachineView, rnd: u8) -> (MachineView, Result<(), Fault>) {
    let fetched = spec_fetch(s);
    if fetched.1 is Err {
        fetched
    } else {
        spec_execute(fetched.0, rnd)
    }
}

/// One timer tick: each countdown register decrements toward zero.
pub open spec fn spec_tick(s: MachineView) -> MachineView {
    MachineView {
        delay: if s.delay > 0 { (s.delay - 1) as u8 } else { 0u8 },
        sound: if s.sound > 0 { (s.sound - 1) as u8 } else { 0u8 },
        ..s
    }
}

} // verus!
