//! Machine-wide properties: laws that relate several instructions or several
//! cycles, proved over the spec model.

use vstd::prelude::*;

verus! {

use crate::model::{
    Machine, CpuError, spec_cycle, tick_timers, wrap16, word_at, step_add_regs, step_sub_regs,
    step_shr, step_draw, sprite_row, row_of, lemma_draw_gfx_index,
};

/// ADD-registers: VF is 1 exactly when VX + VY exceeds 255, and VX becomes
/// the 8-bit wraparound of the sum. The flag write lands after the sum, so
/// the claim about VX excludes X = 15, where the flag overwrites it.
pub proof fn lemma_add_regs(s: Machine, x: int, y: int)
    requires
        s.wf(),
        0 <= x < 16,
        0 <= y < 16,
        x != 15,
    ensures
        step_add_regs(s, x, y).registers[15] == 1u8 <==> s.registers[x] + s.registers[y] > 255,
        step_add_regs(s, x, y).registers[x] == ((s.registers[x] + s.registers[y]) % 256) as u8,
{
}

/// SUB (VX - VY): VF is 1 exactly when no borrow occurs, that is when
/// VX >= VY, and VX becomes the 8-bit wraparound of the difference. As with
/// addition, the claim about VX excludes X = 15.
pub proof fn lemma_sub_regs(s: Machine, x: int, y: int)
    requires
        s.wf(),
        0 <= x < 16,
        0 <= y < 16,
        x != 15,
    ensures
        step_sub_regs(s, x, y).registers[15] == 1u8 <==> s.registers[x] >= s.registers[y],
        step_sub_regs(s, x, y).registers[x] == ((s.registers[x] - s.registers[y]) % 256) as u8,
{
}

/// Shift-right: VF after the instruction is the least-significant bit of the
/// source register as it stood before the shift, for every X and Y.
pub proof fn lemma_shr_flag(s: Machine, x: int, y: int)
    requires
        s.wf(),
        0 <= x < 16,
        0 <= y < 16,
    ensures
        step_shr(s, x, y).registers[15] == (s.registers[y] & 1u8),
        x != 15 ==> step_shr(s, x, y).registers[x] == (s.registers[y] >> 1u8),
{
}

/// Draw idempotence: drawing the same sprite at the same origin twice in
/// succession restores every pixel to its pre-draw state. The origin
/// registers must survive the first draw's flag write, so X and Y exclude
/// the flag register itself.
pub proof fn lemma_draw_twice(s: Machine, x: int, y: int, n: int)
    requires
        s.wf(),
        0 <= x < 16,
        0 <= y < 16,
        x != 15,
        y != 15,
        0 <= n < 16,
    ensures
        step_draw(step_draw(s, x, y, n), x, y, n).gfx == s.gfx,
{
    let s1 = step_draw(s, x, y, n);
    let vx = s.registers[x];
    let vy = s.registers[y];
    assert(s1.registers[x] == vx);
    assert(s1.registers[y] == vy);

    let g2 = step_draw(s1, x, y, n).gfx;
    assert forall|px: int, py: int| 0 <= px < 64 && 0 <= py < 32 implies g2[px][py] == s.gfx[px
        ][py] by {
        lemma_draw_gfx_index(s, vx, vy, n, px, py);
        lemma_draw_gfx_index(s1, vx, vy, n, px, py);
        assert(sprite_row(s1, row_of(vy, py)) == sprite_row(s, row_of(vy, py)));
    }
    assert(step_draw(s1, x, y, n).gfx =~~= s.gfx);
}

/// Key-wait, stalled: a cycle entered with a pending key wait and no key
/// down only decays the timers. The program counter stays pinned on the
/// waiting instruction, the wait stays pending, and nothing is fetched, so
/// the same holds of every following cycle until a key arrives.
pub proof fn lemma_key_wait_stalls(s: Machine, rnd: u8)
    requires
        s.wf(),
        (s.waiting_for_key is Some),
        (s.key_press is None),
    ensures
        ({
            let (post, r) = spec_cycle(s, rnd);
            &&& r == Ok::<(), CpuError>(())
            &&& post == tick_timers(s)
            &&& post.program_counter == s.program_counter
            &&& post.waiting_for_key == s.waiting_for_key
            &&& post.key_press == s.key_press
            &&& post.opcode == s.opcode
            &&& post.registers == s.registers
            &&& post.memory == s.memory
            &&& post.gfx == s.gfx
        }),
{
}

/// Key-wait, resolved: the first cycle entered with a pending key wait and a
/// key down writes the key into the waiting register, clears the wait, and
/// moves the counter past the waiting instruction. No fetch happens that
/// cycle — the opcode latch, memory, display and stack are untouched — and
/// the timers still decay.
pub proof fn lemma_key_wait_resolves(s: Machine, rnd: u8, reg: u8, key: u8)
    requires
        s.wf(),
        s.waiting_for_key == Some(reg),
        s.key_press == Some(key),
    ensures
        ({
            let (post, r) = spec_cycle(s, rnd);
            &&& r == Ok::<(), CpuError>(())
            &&& post.registers == s.registers.update(reg as int, key)
            &&& (post.waiting_for_key is None)
            &&& post.program_counter == wrap16(s.program_counter + 2)
            &&& post.opcode == s.opcode
            &&& post.memory == s.memory
            &&& post.gfx == s.gfx
            &&& post.stack == s.stack
            &&& post.delay_timer == tick_timers(s).delay_timer
            &&& post.sound_timer == tick_timers(s).sound_timer
        }),
{
}

/// Timer decay: every cycle drops each timer by exactly one while it is
/// positive and leaves it at zero otherwise — never negative, never
/// wrapping. Stated here for a cycle that fetches the all-zero no-op word,
/// so that no instruction writes the timers back.
pub proof fn lemma_timer_decay(s: Machine, rnd: u8)
    requires
        s.wf(),
        (s.waiting_for_key is None),
        word_at(s.memory, s.program_counter as int) == 0,
    ensures
        ({
            let (post, r) = spec_cycle(s, rnd);
            &&& r == Ok::<(), CpuError>(())
            &&& post.delay_timer == (if s.delay_timer > 0 {
                (s.delay_timer - 1) as u8
            } else {
                0u8
            })
            &&& post.sound_timer == (if s.sound_timer > 0 {
                (s.sound_timer - 1) as u8
            } else {
                0u8
            })
            &&& post.program_counter == wrap16(s.program_counter + 2)
        }),
{
    assert((0u16 & 0xF000u16) == 0u16 && (0u16 & 0x0FFFu16) == 0u16) by (bit_vector);
}

} // verus!
