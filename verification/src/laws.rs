//! Laws: properties that relate several instructions or hold of every
//! machine state, stated over the spec-level semantics and proved once and
//! for all.

use vstd::prelude::*;
use crate::instruction::{nib1_of, nib2_of, nib3_of, nib4_of, imm_of};
use crate::semantics::{
    MachineView, FaultKind, reg_x, reg_y, fetched_word,
    lemma_first_pressed_characterization, spec_cycle, step_add_imm, step_add_reg, step_sub_reg,
    step_sub_reg_rev, step_skip_equal_imm, step_skip_not_equal_imm, step_skip_equal_reg,
    step_skip_not_equal_reg, step_call_sub, step_return_sub, step_move_regs, step_load_regs,
    step_move_bcd, step_clear_screen, step_draw_sprite, step_await_key, draw_covers,
    MEMORY_SIZE,
};

verus! {

/// `7XNN` is not a flag instruction: it leaves `VF` unchanged — except
/// when `VF` itself is the addition's target (`X = F`), where the sum
/// necessarily lands in it.
pub proof fn lemma_add_imm_preserves_vf(s: MachineView)
    requires
        s.wf(),
        nib2_of(s.instr) != 15,
    ensures
        step_add_imm(s).v[15] == s.v[15],
{
}

/// `8XY4` wraps the sum to 8 bits and sets `VF` to 1 exactly when the
/// true sum exceeds 255, whatever the operand bytes are.
pub proof fn lemma_add_reg_carry(s: MachineView)
    requires
        s.wf(),
    ensures
        step_add_reg(s).v[15] == (if reg_x(s) + reg_y(s) > 255 { 1u8 } else { 0u8 }),
        nib2_of(s.instr) != 15 ==> step_add_reg(s).v[nib2_of(s.instr) as int] == (reg_x(s) + reg_y(
            s,
        )) % 256,
{
}

/// `8XY5` sets `VF` to 1 exactly when no borrow occurs: when the
/// subtrahend `Vy` is at most the minuend `Vx`.
pub proof fn lemma_sub_reg_borrow(s: MachineView)
    requires
        s.wf(),
    ensures
        step_sub_reg(s).v[15] == (if reg_y(s) <= reg_x(s) { 1u8 } else { 0u8 }),
{
}

/// `8XY7` sets `VF` to 1 exactly when no borrow occurs: when the
/// subtrahend `Vx` is at most the minuend `Vy`.
pub proof fn lemma_sub_reg_rev_borrow(s: MachineView)
    requires
        s.wf(),
    ensures
        step_sub_reg_rev(s).v[15] == (if reg_x(s) <= reg_y(s) { 1u8 } else { 0u8 }),
{
}

/// `00E0` leaves a display of exactly 2048 pixels, all of them off.
pub proof fn lemma_clear_screen_all_off(s: MachineView)
    ensures
        step_clear_screen(s).display.len() == 2048,
        forall|j: int| 0 <= j < 2048 ==> !step_clear_screen(s).display[j],
{
}

/// `2NNN` then `00EE` returns the program counter to the instruction
/// immediately after the call, at every stack depth 1 through 16. Here
/// `s` is the post-fetch state of the call — `s.pc` is exactly the
/// address of the next instruction — and `t` is the post-fetch state of
/// the return, whose stack and stack pointer the call left behind.
pub proof fn lemma_call_then_return(s: MachineView, t: MachineView)
    requires
        s.wf(),
        t.wf(),
        s.sp < 16,
        t.stack == step_call_sub(s)->Ok_0.stack,
        t.sp == step_call_sub(s)->Ok_0.sp,
    ensures
        step_call_sub(s) is Ok,
        step_return_sub(t) is Ok,
        step_return_sub(t)->Ok_0.pc == s.pc,
        step_return_sub(t)->Ok_0.sp == s.sp,
{
}

/// A 17th call before any return is refused: it faults with a stack
/// overflow and corrupts nothing — the state is left exactly as it was.
pub proof fn lemma_call_overflow(s: MachineView)
    requires
        s.sp >= 16,
    ensures
        step_call_sub(s) is Err,
        step_call_sub(s)->Err_0.kind == FaultKind::StackOverflow,
{
}

/// `FX55` then `FX65` with the same `X` and the same `I` reads back
/// exactly the registers that were stored: the round trip is the identity
/// on the register file. Stated with the index-increment quirk off (the
/// default); with it on, `I` moves between the two transfers and the
/// reload must re-point `I` first. `u` is the reload's instruction word,
/// any word with the same `X`.
pub proof fn lemma_store_load_round_trip(s: MachineView, u: u16)
    requires
        s.wf(),
        !s.index_increment_quirk,
        s.i + nib2_of(s.instr) < MEMORY_SIZE,
        nib2_of(u) == nib2_of(s.instr),
    ensures
        step_move_regs(s) is Ok,
        step_load_regs(MachineView { instr: u, ..step_move_regs(s)->Ok_0 }) is Ok,
        step_load_regs(MachineView { instr: u, ..step_move_regs(s)->Ok_0 })->Ok_0.v == s.v,
{
    let stored = step_move_regs(s)->Ok_0;
    let reloaded = step_load_regs(MachineView { instr: u, ..stored })->Ok_0;
    assert(reloaded.v =~= s.v);
}

/// `FX65` then `FX55` with the same `X` and the same `I` writes back
/// exactly the bytes that were read, so memory is unchanged and a further
/// reload yields identical register values. Stated with the
/// index-increment quirk off (the default).
pub proof fn lemma_load_store_round_trip(s: MachineView, u: u16)
    requires
        s.wf(),
        !s.index_increment_quirk,
        s.i + nib2_of(s.instr) < MEMORY_SIZE,
        nib2_of(u) == nib2_of(s.instr),
    ensures
        step_load_regs(s) is Ok,
        step_move_regs(MachineView { instr: u, ..step_load_regs(s)->Ok_0 }) is Ok,
        step_move_regs(MachineView { instr: u, ..step_load_regs(s)->Ok_0 })->Ok_0.mem == s.mem,
        step_load_regs(
            MachineView { instr: s.instr, ..step_move_regs(
                MachineView { instr: u, ..step_load_regs(s)->Ok_0 },
            )->Ok_0 },
        )->Ok_0.v == step_load_regs(s)->Ok_0.v,
{
    let loaded = step_load_regs(s)->Ok_0;
    let stored = step_move_regs(MachineView { instr: u, ..loaded })->Ok_0;
    assert(stored.mem =~= s.mem);
    let reloaded = step_load_regs(MachineView { instr: s.instr, ..stored })->Ok_0;
    assert(reloaded.v =~= loaded.v);
}

/// `FX33` stores exactly the decimal digits of `Vx`, hundreds first: each
/// digit is below 10, and together they reconstruct the value.
pub proof fn lemma_bcd_digits(s: MachineView)
    requires
        s.wf(),
        s.i + 2 < MEMORY_SIZE,
    ensures
        step_move_bcd(s) is Ok,
        step_move_bcd(s)->Ok_0.mem[s.i as int] < 10,
        step_move_bcd(s)->Ok_0.mem[s.i + 1] < 10,
        step_move_bcd(s)->Ok_0.mem[s.i + 2] < 10,
        step_move_bcd(s)->Ok_0.mem[s.i as int] * 100 + step_move_bcd(s)->Ok_0.mem[s.i + 1] * 10
            + step_move_bcd(s)->Ok_0.mem[s.i + 2] == reg_x(s),
{
    let value = reg_x(s);
    assert(value / 100 < 10 && (value / 10) % 10 < 10 && value % 10 < 10);
    assert((value / 100) * 100 + ((value / 10) % 10) * 10 + value % 10 == value) by (nonlinear_arith);
}

/// `3XNN` skips exactly one instruction when `Vx == NN` and zero
/// otherwise, touching nothing else.
pub proof fn lemma_skip_equal_imm(s: MachineView)
    ensures
        reg_x(s) == imm_of(s.instr) ==> step_skip_equal_imm(s) == (MachineView {
            pc: (s.pc + 2) as u16,
            ..s
        }),
        reg_x(s) != imm_of(s.instr) ==> step_skip_equal_imm(s) == s,
{
}

/// `4XNN` skips exactly one instruction when `Vx != NN` and zero
/// otherwise, touching nothing else.
pub proof fn lemma_skip_not_equal_imm(s: MachineView)
    ensures
        reg_x(s) != imm_of(s.instr) ==> step_skip_not_equal_imm(s) == (MachineView {
            pc: (s.pc + 2) as u16,
            ..s
        }),
        reg_x(s) == imm_of(s.instr) ==> step_skip_not_equal_imm(s) == s,
{
}

/// `5XY0` skips exactly one instruction when `Vx == Vy` and zero
/// otherwise, touching nothing else.
pub proof fn lemma_skip_equal_reg(s: MachineView)
    ensures
        reg_x(s) == reg_y(s) ==> step_skip_equal_reg(s) == (MachineView {
            pc: (s.pc + 2) as u16,
            ..s
        }),
        reg_x(s) != reg_y(s) ==> step_skip_equal_reg(s) == s,
{
}

/// `9XY0` skips exactly one instruction when `Vx != Vy` and zero
/// otherwise, touching nothing else.
pub proof fn lemma_skip_not_equal_reg(s: MachineView)
    ensures
        reg_x(s) != reg_y(s) ==> step_skip_not_equal_reg(s) == (MachineView {
            pc: (s.pc + 2) as u16,
            ..s
        }),
        reg_x(s) == reg_y(s) ==> step_skip_not_equal_reg(s) == s,
{
}

/// `FX0A` with no key pressed leaves the program counter unchanged over a
/// whole cycle — the fetch advances it and the handler rewinds it — so
/// only the transient instruction register differs afterwards.
pub proof fn lemma_await_key_blocks(s: MachineView, rnd: u8)
    requires
        s.wf(),
        s.pc + 1 < MEMORY_SIZE,
        nib1_of(fetched_word(s)) == 0xF,
        imm_of(fetched_word(s)) == 0x0A,
        forall|k: int| 0 <= k < 16 ==> !s.keys[k],
    ensures
        spec_cycle(s, rnd).1 is Ok,
        spec_cycle(s, rnd).0 == (MachineView { instr: fetched_word(s), ..s }),
{
    lemma_first_pressed_characterization(s.keys, 16);
    let s1 = MachineView { instr: fetched_word(s), pc: (s.pc + 2) as u16, ..s };
    assert(step_await_key(s1) =~= (MachineView { instr: fetched_word(s), ..s }));
}

/// `FX0A` with a key pressed advances the program counter normally and
/// writes the lowest pressed key — `k` here, with everything below it up —
/// into `Vx`.
pub proof fn lemma_await_key_pressed(s: MachineView, rnd: u8, k: int)
    requires
        s.wf(),
        s.pc + 1 < MEMORY_SIZE,
        nib1_of(fetched_word(s)) == 0xF,
        imm_of(fetched_word(s)) == 0x0A,
        0 <= k < 16,
        s.keys[k],
        forall|j: int| 0 <= j < k ==> !s.keys[j],
    ensures
        spec_cycle(s, rnd).1 is Ok,
        spec_cycle(s, rnd).0.pc == s.pc + 2,
        spec_cycle(s, rnd).0.v == s.v.update(nib2_of(fetched_word(s)) as int, k as u8),
{
    lemma_first_pressed_characterization(s.keys, k);
}

/// A cycle never resizes anything and never overruns the stack: the
/// register file, memory, stack, keypad and display keep their fixed
/// sizes, and the stack pointer stays within the 16 frames, whatever
/// instruction ran and whatever byte the random source produced.
pub proof fn lemma_cycle_preserves_shape(s: MachineView, rnd: u8)
    requires
        s.wf(),
        s.sp <= 16,
    ensures
        spec_cycle(s, rnd).0.wf(),
        spec_cycle(s, rnd).0.sp <= 16,
{
}

/// Drawing the same sprite twice restores the display: the XOR is an
/// involution and the second draw covers exactly the pixels of the first.
/// The coordinate registers must not be `VF` itself, since the collision
/// flag written between the draws would then move the sprite.
pub proof fn lemma_draw_twice_restores_display(s: MachineView)
    requires
        s.wf(),
        nib2_of(s.instr) != 15,
        nib3_of(s.instr) != 15,
        s.i + nib4_of(s.instr) <= MEMORY_SIZE,
    ensures
        step_draw_sprite(s) is Ok,
        step_draw_sprite(step_draw_sprite(s)->Ok_0) is Ok,
        step_draw_sprite(step_draw_sprite(s)->Ok_0)->Ok_0.display == s.display,
{
    let c = step_draw_sprite(s)->Ok_0;
    assert(reg_x(c) == reg_x(s) && reg_y(c) == reg_y(s));
    assert forall|px: int, py: int|
        #[trigger] draw_covers(c, px, py) == draw_covers(s, px, py) by {
    }
    assert(step_draw_sprite(c)->Ok_0.display =~= s.display);
}

} // verus!

