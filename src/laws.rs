use vstd::prelude::*;

use crate::instruction::Instruction;
use crate::model::{
    collides, drawn, font_glyphs, power_on, sprite_bit, sprite_covers, step, timers_ticked, well_formed,
    Machine, Step, FLAG, FONT_SIZE, KEY_COUNT, MEMORY_SIZE, PROGRAM_START, REGISTER_COUNT, STACK_DEPTH,
};
use crate::screen::{blank, cell_index, SCREEN_HEIGHT, SCREEN_WIDTH};
use crate::sprite::lemma_cell_index;

verus! {

/// The state that both a new interpreter and a reset one are in, whatever ran
/// before: the font in the first `FONT_SIZE` bytes and zero in the rest of
/// memory, every register, stack entry, timer and key clear, the program
/// counter at `PROGRAM_START` and the display blank.
pub proof fn lemma_power_on_state()
    ensures
        well_formed(power_on()),
        power_on().pc == PROGRAM_START,
        power_on().index == 0,
        power_on().sp == 0,
        power_on().delay == 0,
        power_on().sound == 0,
        forall|a: int| 0 <= a < FONT_SIZE ==> #[trigger] power_on().memory[a] == font_glyphs()[a],
        forall|a: int| FONT_SIZE <= a < MEMORY_SIZE ==> #[trigger] power_on().memory[a] == 0,
        forall|r: int| 0 <= r < REGISTER_COUNT ==> #[trigger] power_on().registers[r] == 0,
        forall|e: int| 0 <= e < STACK_DEPTH ==> #[trigger] power_on().stack[e] == 0,
        forall|k: int| 0 <= k < KEY_COUNT ==> !#[trigger] power_on().keys[k],
        forall|c: int| 0 <= c < power_on().screen.len() ==> !#[trigger] power_on().screen[c],
{
}

/// `m` after `k` frames of the timers.
pub open spec fn timers_after(m: Machine, k: nat) -> Machine
    decreases k,
{
    if k == 0 {
        m
    } else {
        timers_ticked(timers_after(m, (k - 1) as nat))
    }
}

/// A timer at zero stays at zero however many frames pass.
pub proof fn lemma_timers_rest_at_zero(m: Machine, k: nat)
    ensures
        m.delay == 0 ==> timers_after(m, k).delay == 0,
        m.sound == 0 ==> timers_after(m, k).sound == 0,
    decreases k,
{
    if k > 0 {
        lemma_timers_rest_at_zero(m, (k - 1) as nat);
    }
}

/// A timer at `v` counts down one per frame: after `k <= v` frames it shows
/// `v - k`, so it reaches zero after exactly `v` frames and is still zero one
/// frame later.
pub proof fn lemma_timers_run_down(m: Machine, k: nat)
    ensures
        k <= m.delay ==> timers_after(m, k).delay == m.delay - k,
        k <= m.sound ==> timers_after(m, k).sound == m.sound - k,
        timers_after(m, m.delay as nat).delay == 0,
        timers_after(m, m.delay as nat + 1).delay == 0,
        timers_after(m, m.sound as nat).sound == 0,
        timers_after(m, m.sound as nat + 1).sound == 0,
    decreases k,
{
    if k > 0 {
        lemma_timers_run_down(m, (k - 1) as nat);
    }
    lemma_timers_count(m, m.delay as nat);
    lemma_timers_count(m, m.sound as nat);
    lemma_timers_count(m, m.delay as nat + 1);
    lemma_timers_count(m, m.sound as nat + 1);
}

/// After `k` frames each timer shows its start value less `k`, but not below zero.
proof fn lemma_timers_count(m: Machine, k: nat)
    ensures
        timers_after(m, k).delay == if k <= m.delay { m.delay - k } else { 0 },
        timers_after(m, k).sound == if k <= m.sound { m.sound - k } else { 0 },
    decreases k,
{
    if k > 0 {
        lemma_timers_count(m, (k - 1) as nat);
    }
}

/// A call followed by a return puts the program counter back where it stood
/// when the call executed, just past the call instruction, and empties the
/// stack entry again.
pub proof fn lemma_call_then_return(m: Machine, a: u16, b1: u8, b2: u8)
    requires
        well_formed(m),
        m.sp < STACK_DEPTH,
    ensures
        match step(m, Instruction::Call(a), b1) {
            Ok(p) => p.0.pc == a && match step(p.0, Instruction::Return, b2) {
                Ok(q) => q.0.pc == m.pc && q.0.sp == m.sp && q.1 == Step::Advance,
                Err(_) => false,
            },
            Err(_) => false,
        },
{
}

/// Adding registers sets the flag to 1 exactly when the unsigned sum passes
/// 255, and to 0 otherwise; subtracting sets it to 1 exactly when the minuend
/// is at least the subtrahend, and to 0 otherwise.
pub proof fn lemma_flag_laws(m: Machine, x: usize, y: usize, b: u8)
    requires
        well_formed(m),
        x < REGISTER_COUNT,
        y < REGISTER_COUNT,
    ensures
        match step(m, Instruction::AddReg(x, y), b) {
            Ok(p) => p.0.registers[FLAG as int] == (if m.registers[x as int] + m.registers[y as int] > 255 {
                1u8
            } else {
                0u8
            }),
            Err(_) => false,
        },
        match step(m, Instruction::SubReg(x, y), b) {
            Ok(p) => p.0.registers[FLAG as int] == (if m.registers[x as int] >= m.registers[y as int] {
                1u8
            } else {
                0u8
            }),
            Err(_) => false,
        },
{
}

/// On a blank display, drawing a sprite with at least one set bit reports no
/// collision, and drawing it again at the same place reports one. Neither
/// coordinate may come from the flag register, which the first draw changes.
pub proof fn lemma_redraw_collides(m: Machine, x: usize, y: usize, n: u16, b1: u8, b2: u8)
    requires
        well_formed(m),
        x < FLAG,
        y < FLAG,
        0 < n < 16,
        m.index + n <= MEMORY_SIZE,
        m.screen == blank(),
        exists|r: int, c: int| 0 <= r < n && 0 <= c < 8 && #[trigger] sprite_bit(m.memory[m.index + r], c),
    ensures
        match step(m, Instruction::Draw(x, y, n), b1) {
            Ok(p) => p.0.registers[FLAG as int] == 0 && match step(p.0, Instruction::Draw(x, y, n), b2) {
                Ok(q) => q.0.registers[FLAG as int] == 1,
                Err(_) => false,
            },
            Err(_) => false,
        },
{
    let vx = m.registers[x as int] as int;
    let vy = m.registers[y as int] as int;
    let i = m.index as int;
    assert(!collides(m.screen, m.memory, i, vx, vy, n as int));
    let first = drawn(m.screen, m.memory, i, vx, vy, n as int);
    let (r, c) = choose|r: int, c: int|
        0 <= r < n && 0 <= c < 8 && #[trigger] sprite_bit(m.memory[m.index + r], c);
    let k = cell_index((vx + c) % SCREEN_WIDTH as int, (vy + r) % SCREEN_HEIGHT as int);
    lemma_cell_index((vx + c) % 64, (vy + r) % 32, (vx + c) % 64, (vy + r) % 32);
    assert(sprite_covers(m.memory, i, vx, vy, n as int, k));
    assert(first[k]);
    assert(collides(first, m.memory, i, vx, vy, n as int));
}

} // verus!
