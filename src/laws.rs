//! Properties of the instruction semantics that hold for every machine state.
use vstd::prelude::*;

use crate::instruction::Instruction;
use crate::interpreter::{
    current_instruction_spec, draw_spec, execute_spec, flips_at, lowest_pressed, sprite_bit, step_spec, tick_spec,
    Chip8Error, Chip8View, DISPLAY_SIZE, MEMORY_SIZE, STACK_SIZE,
};

verus! {

/// Assigning a value to a register makes that register read back the value.
pub proof fn law_assign_value(m: Chip8View, x: u8, value: u8, random: u8)
    requires
        m.wf(),
        x < 16,
    ensures
        execute_spec(m, Instruction::AssignValue { x, value }, random) is Ok,
        execute_spec(m, Instruction::AssignValue { x, value }, random)->Ok_0.reg(x) == value,
{
}

/// Adding a value to a register wraps modulo 256 and leaves the flag register
/// alone (unless it is the target).
pub proof fn law_add_assign_value_wraps(m: Chip8View, x: u8, value: u8, random: u8)
    requires
        m.wf(),
        x < 16,
    ensures
        ({
            let n = execute_spec(m, Instruction::AddAssignValue { x, value }, random)->Ok_0;
            &&& n.reg(x) == (m.reg(x) + value) % 256
            &&& x != 15 ==> n.reg(15) == m.reg(15)
        }),
{
}

/// Register addition stores the truncated sum and sets the flag register to 1
/// exactly when the sum exceeded 255.
pub proof fn law_add_carry(m: Chip8View, x: u8, y: u8, random: u8)
    requires
        m.wf(),
        x < 15,
        y < 16,
    ensures
        ({
            let n = execute_spec(m, Instruction::AddAssign { x, y }, random)->Ok_0;
            &&& n.reg(x) == (m.reg(x) + m.reg(y)) % 256
            &&& (n.reg(15) == 1) == (m.reg(x) + m.reg(y) > 255)
            &&& n.reg(15) == 0 || n.reg(15) == 1
        }),
{
}

/// Register subtraction stores the difference modulo 256 and sets the flag
/// register to 1 exactly when no borrow occurred.
pub proof fn law_subtract_borrow(m: Chip8View, x: u8, y: u8, random: u8)
    requires
        m.wf(),
        x < 15,
        y < 16,
    ensures
        ({
            let n = execute_spec(m, Instruction::SubAssign { x, y }, random)->Ok_0;
            &&& n.reg(x) == (m.reg(x) - m.reg(y)) % 256
            &&& (n.reg(15) == 1) == (m.reg(x) >= m.reg(y))
            &&& n.reg(15) == 0 || n.reg(15) == 1
        }),
{
}

/// A call followed by a return continues right after the call instruction,
/// with the call stack as deep as before.
pub proof fn law_call_then_return(m: Chip8View, random: u8)
    requires
        m.wf(),
        m.program_counter + 1 < MEMORY_SIZE,
        m.call_stack_index < STACK_SIZE,
        current_instruction_spec(m) is CallSubroutine,
        step_spec(m, random)->Ok_0.program_counter + 1 < MEMORY_SIZE,
        current_instruction_spec(step_spec(m, random)->Ok_0) is ReturnSubroutine,
    ensures
        step_spec(m, random) is Ok,
        step_spec(step_spec(m, random)->Ok_0, random) is Ok,
        step_spec(step_spec(m, random)->Ok_0, random)->Ok_0.program_counter == m.program_counter + 2,
        step_spec(step_spec(m, random)->Ok_0, random)->Ok_0.call_stack_index == m.call_stack_index,
{
}

/// A call succeeds exactly while fewer than sixteen calls are in progress,
/// so the seventeenth nested call overflows; a return with none in progress
/// underflows.
pub proof fn law_stack_limits(m: Chip8View, address: u16, random: u8)
    requires
        m.wf(),
    ensures
        m.call_stack_index < STACK_SIZE ==> execute_spec(m, Instruction::CallSubroutine { address }, random) is Ok
            && execute_spec(m, Instruction::CallSubroutine { address }, random)->Ok_0.call_stack_index
            == m.call_stack_index + 1,
        m.call_stack_index == STACK_SIZE ==> execute_spec(m, Instruction::CallSubroutine { address }, random)
            == Err::<Chip8View, Chip8Error>(Chip8Error::StackOverflow),
        m.call_stack_index == 0 ==> execute_spec(m, Instruction::ReturnSubroutine, random) == Err::<
            Chip8View,
            Chip8Error,
        >(Chip8Error::StackUnderflow),
{
}

/// After clearing the screen every pixel is dark.
pub proof fn law_clear_screen(m: Chip8View, random: u8)
    requires
        m.wf(),
    ensures
        execute_spec(m, Instruction::ClearScreen, random) is Ok,
        forall|i: int|
            0 <= i < DISPLAY_SIZE ==> !#[trigger] execute_spec(m, Instruction::ClearScreen, random)->Ok_0.display[i],
{
}

/// A sprite row that is not zero has a set bit.
proof fn lemma_nonzero_row_has_bit(b: u8)
    requires
        b != 0,
    ensures
        exists|c: u8| c < 8 && #[trigger] sprite_bit(b, c),
{
    assert(b != 0 ==> (b >> 7u8) & 1u8 == 1u8 || (b >> 6u8) & 1u8 == 1u8 || (b >> 5u8) & 1u8 == 1u8 || (b
        >> 4u8) & 1u8 == 1u8 || (b >> 3u8) & 1u8 == 1u8 || (b >> 2u8) & 1u8 == 1u8 || (b >> 1u8) & 1u8 == 1u8 || (b
        >> 0u8) & 1u8 == 1u8) by (bit_vector);
    if sprite_bit(b, 0) {
    } else if sprite_bit(b, 1) {
    } else if sprite_bit(b, 2) {
    } else if sprite_bit(b, 3) {
    } else if sprite_bit(b, 4) {
    } else if sprite_bit(b, 5) {
    } else if sprite_bit(b, 6) {
    } else {
        assert(sprite_bit(b, 7));
    }
}

/// Two drawings of the same sprite rows at the same register values: the
/// second restores the display, and on a dark display a sprite with a row that
/// is not zero makes the second one report a collision.
proof fn lemma_draw_twice(m: Chip8View, vx: u8, vy: u8, height: u8)
    requires
        m.wf(),
        height < 16,
        draw_spec(m, vx, vy, height) is Ok,
    ensures
        ({
            let once = draw_spec(m, vx, vy, height)->Ok_0;
            let twice = draw_spec(once, vx, vy, height);
            &&& twice is Ok
            &&& twice->Ok_0.display == m.display
            &&& (forall|i: int| 0 <= i < DISPLAY_SIZE ==> !#[trigger] m.display[i]) && (exists|r: int|
                0 <= r < height && #[trigger] m.memory[m.address_register + r] != 0) ==> twice->Ok_0.reg(15) == 1
        }),
{
    let once = draw_spec(m, vx, vy, height)->Ok_0;
    let twice = draw_spec(once, vx, vy, height)->Ok_0;
    let x0 = (vx % 64) as int;
    let y0 = (vy % 32) as int;
    assert(once.memory == m.memory && once.address_register == m.address_register);
    assert forall|i: int| 0 <= i < DISPLAY_SIZE implies flips_at(once, x0, y0, height as int, i) == flips_at(
        m,
        x0,
        y0,
        height as int,
        i,
    ) by {}
    assert(twice.display =~= m.display);
    if (forall|i: int| 0 <= i < DISPLAY_SIZE ==> !#[trigger] m.display[i]) && (exists|r: int|
        0 <= r < height && #[trigger] m.memory[m.address_register + r] != 0) {
        let r = choose|r: int| 0 <= r < height && #[trigger] m.memory[m.address_register + r] != 0;
        let b = m.memory[m.address_register + r];
        lemma_nonzero_row_has_bit(b);
        let c = choose|c: u8| c < 8 && #[trigger] sprite_bit(b, c);
        let row = (y0 + r) % 32;
        let col = (x0 + c) % 64;
        let idx = row * 64 + col;
        assert(0 <= idx < DISPLAY_SIZE);
        assert(idx / 64 == row && idx % 64 == col);
        assert((row - y0) % 32 == r && (col - x0) % 64 == c);
        assert(flips_at(m, x0, y0, height as int, idx));
        assert(once.display[idx]);
        assert(flips_at(once, x0, y0, height as int, idx));
        assert(once.display[idx] && flips_at(once, x0, y0, height as int, idx));
    }
}

/// Drawing the same sprite twice at the same place restores the display, and
/// on a dark display a sprite with a row that is not zero makes the second
/// drawing report a collision. The sprite must not be placed by the flag
/// register, which the first drawing overwrites.
pub proof fn law_draw_twice(m: Chip8View, x: u8, y: u8, height: u8, random: u8)
    requires
        m.wf(),
        x < 15,
        y < 15,
        height < 16,
        execute_spec(m, Instruction::DrawSprite { x, y, height }, random) is Ok,
    ensures
        ({
            let ins = Instruction::DrawSprite { x, y, height };
            let once = execute_spec(m, ins, random)->Ok_0;
            let twice = execute_spec(once, ins, random);
            &&& twice is Ok
            &&& twice->Ok_0.display == m.display
            &&& (forall|i: int| 0 <= i < DISPLAY_SIZE ==> !#[trigger] m.display[i]) && (exists|r: int|
                0 <= r < height && #[trigger] m.memory[m.address_register + r] != 0) ==> twice->Ok_0.reg(15) == 1
        }),
{
    let ins = Instruction::DrawSprite { x, y, height };
    assert(execute_spec(m, ins, random) == draw_spec(m, m.reg(x), m.reg(y), height));
    let once = execute_spec(m, ins, random)->Ok_0;
    assert(once.reg(x) == m.reg(x) && once.reg(y) == m.reg(y));
    assert(execute_spec(once, ins, random) == draw_spec(once, m.reg(x), m.reg(y), height));
    lemma_draw_twice(m, m.reg(x), m.reg(y), height);
}

/// With no key pressed, a wait-for-key step leaves the program counter and
/// the registers as they were, so stepping again does the same; with a key
/// pressed it stores the lowest pressed key and moves on.
pub proof fn law_wait_for_key(m: Chip8View, random: u8)
    requires
        m.wf(),
        m.program_counter + 1 < MEMORY_SIZE,
        current_instruction_spec(m) is WaitForKeyPress,
    ensures
        (forall|k: int| 0 <= k < 16 ==> !#[trigger] m.keypad[k]) ==> ({
            let n = step_spec(m, random)->Ok_0;
            &&& step_spec(m, random) is Ok
            &&& n.program_counter == m.program_counter
            &&& n.registers == m.registers
            &&& n.awaiting_key
            &&& step_spec(n, random) == step_spec(m, random)
        }),
        forall|k: int| 0 <= k < 16 && #[trigger] m.keypad[k] && (forall|j: int| 0 <= j < k ==> !m.keypad[j]) ==> ({
            let n = step_spec(m, random)->Ok_0;
            &&& step_spec(m, random) is Ok
            &&& n.program_counter == m.program_counter + 2
            &&& n.registers[current_instruction_spec(m)->WaitForKeyPress_x as int] == k
            &&& !n.awaiting_key
        }),
{
    let x = current_instruction_spec(m)->WaitForKeyPress_x;
    lemma_lowest_pressed(m.keypad, 0);
    let n = step_spec(m, random)->Ok_0;
    if forall|k: int| 0 <= k < 16 ==> !#[trigger] m.keypad[k] {
        assert(current_instruction_spec(n) == current_instruction_spec(m));
    }
}

/// The lowest pressed key at or above `from` is pressed, and none below it is.
proof fn lemma_lowest_pressed(keys: Seq<bool>, from: int)
    requires
        0 <= from <= 16,
        keys.len() == 16,
    ensures
        from <= lowest_pressed(keys, from) <= 16,
        lowest_pressed(keys, from) < 16 ==> keys[lowest_pressed(keys, from)],
        forall|j: int| from <= j < lowest_pressed(keys, from) ==> !#[trigger] keys[j],
    decreases 16 - from,
{
    if from < 16 && !keys[from] {
        lemma_lowest_pressed(keys, from + 1);
    }
}

/// A timer tick lowers each timer by one and never below zero: a delay timer
/// at 1 reaches 0 and stays there on the next tick.
pub proof fn law_tick(m: Chip8View)
    requires
        m.wf(),
    ensures
        tick_spec(m).delay_timer == if m.delay_timer > 0 { m.delay_timer - 1 } else { 0 },
        tick_spec(m).sound_timer == if m.sound_timer > 0 { m.sound_timer - 1 } else { 0 },
        m.delay_timer == 1 ==> tick_spec(m).delay_timer == 0 && tick_spec(tick_spec(m)).delay_timer == 0,
        m.delay_timer == 0 ==> tick_spec(m).delay_timer == 0,
{
}

} // verus!
