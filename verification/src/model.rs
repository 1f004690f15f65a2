//! The mathematical model of the machine: a ghost mirror of the CPU state,
//! one spec function per instruction, and a spec-level interpreter that the
//! executable cycle is proved against.

use vstd::prelude::*;

verus! {

/// The leading nibble of an instruction word, shifted into place; it selects
/// the instruction family.
pub open spec fn op_family(op: u16) -> u16 {
    op & 0xF000
}

/// Register index X: bits 8 to 11 of the instruction word.
pub open spec fn op_x(op: u16) -> u16 {
    (op & 0x0F00) >> 8u16
}

/// Register index Y: bits 4 to 7 of the instruction word.
pub open spec fn op_y(op: u16) -> u16 {
    (op & 0x00F0) >> 4u16
}

/// Immediate byte NN: bits 0 to 7 of the instruction word.
pub open spec fn op_nn(op: u16) -> u16 {
    op & 0x00FF
}

/// Address NNN: bits 0 to 11 of the instruction word.
pub open spec fn op_nnn(op: u16) -> u16 {
    op & 0x0FFF
}

/// Nibble count N: bits 0 to 3 of the instruction word.
pub open spec fn op_n(op: u16) -> u16 {
    op & 0x000F
}

/// The operand fields are bounded by their widths.
pub proof fn lemma_field_bounds(op: u16)
    by (bit_vector)
    ensures
        op_x(op) < 16,
        op_y(op) < 16,
        op_nn(op) < 256,
        op_nnn(op) < 0x1000,
        op_n(op) < 16,
{
}

/// A fatal condition of the interpreter. Each variant carries the diagnostic
/// the caller needs; none is recovered from internally.
#[derive(Clone, Copy, Debug, PartialEq, Eq, Structural)]
pub enum CpuError {
    /// The fetched instruction word matches no handler.
    UnimplementedOpcode { program_counter: u16, opcode: u16 },
    /// A return instruction executed with an empty call stack.
    StackUnderflow { program_counter: u16, opcode: u16 },
    /// A program longer than the memory past the reserved region.
    RomTooLarge { length: usize },
}

/// The machine state as mathematics: every field of the executable CPU as a
/// plain value or a sequence.
#[verifier::ext_equal]
pub ghost struct Machine {
    pub opcode: u16,
    pub memory: Seq<u8>,
    pub registers: Seq<u8>,
    pub i_register: u16,
    pub program_counter: u16,
    pub gfx: Seq<Seq<bool>>,
    pub delay_timer: u8,
    pub sound_timer: u8,
    pub stack: Seq<u16>,
    pub sp: u8,
    pub key_press: Option<u8>,
    pub waiting_for_key: Option<u8>,
    pub program_size: u16,
}

impl Machine {
    /// Dimensions of the state: 4096 bytes of memory, 16 registers, a 64x32
    /// display, and a pending key wait that only ever targets a real register.
    pub open spec fn wf(self) -> bool {
        &&& self.memory.len() == 4096
        &&& self.registers.len() == 16
        &&& self.gfx.len() == 64
        &&& (forall|x: int| 0 <= x < 64 ==> (#[trigger] self.gfx[x]).len() == 32)
        &&& (match self.waiting_for_key {
            Some(r) => r < 16,
            None => true,
        })
        &&& self.program_size <= 4096
    }
}

/// A 16-bit value from an unbounded one, as the program counter and the index
/// register wrap.
pub open spec fn wrap16(v: int) -> u16 {
    (v % 0x10000) as u16
}

/// The instruction word at a memory address: big-endian pair of bytes, the
/// address taken modulo the memory size (the documented behaviour for
/// out-of-range addresses).
pub open spec fn word_at(mem: Seq<u8>, addr: int) -> u16 {
    ((mem[addr % 4096] as u16) << 8u16) | (mem[(addr + 1) % 4096] as u16)
}

/// Timer decay: each timer drops by one while positive and floors at zero,
/// every cycle, whether or not an instruction executes.
pub open spec fn tick_timers(s: Machine) -> Machine {
    Machine {
        sound_timer: if s.sound_timer > 0 { (s.sound_timer - 1) as u8 } else { 0u8 },
        delay_timer: if s.delay_timer > 0 { (s.delay_timer - 1) as u8 } else { 0u8 },
        ..s
    }
}

/// Fetch: read the word at the program counter into the opcode latch and
/// advance the counter by two.
pub open spec fn spec_fetch(s: Machine) -> Machine {
    Machine {
        opcode: word_at(s.memory, s.program_counter as int),
        program_counter: wrap16(s.program_counter + 2),
        ..s
    }
}

/// An all-unset display.
pub open spec fn blank_gfx() -> Seq<Seq<bool>> {
    Seq::new(64, |px: int| Seq::new(32, |py: int| false))
}

/// Clear the display.
pub open spec fn step_cls(s: Machine) -> Machine {
    Machine { gfx: blank_gfx(), ..s }
}

/// Return from subroutine: pop the saved address into the program counter.
pub open spec fn step_ret(s: Machine) -> Machine
    recommends
        s.stack.len() > 0,
{
    Machine { program_counter: s.stack.last(), stack: s.stack.drop_last(), ..s }
}

/// Jump to NNN.
pub open spec fn step_jump(s: Machine, nnn: u16) -> Machine {
    Machine { program_counter: nnn, ..s }
}

/// Call NNN: push the address just past the call, then jump.
pub open spec fn step_call(s: Machine, nnn: u16) -> Machine {
    Machine { stack: s.stack.push(s.program_counter), program_counter: nnn, ..s }
}

/// Skip the next instruction when the condition holds.
pub open spec fn skip_if(s: Machine, cond: bool) -> Machine {
    if cond {
        Machine { program_counter: wrap16(s.program_counter + 2), ..s }
    } else {
        s
    }
}

/// VX = NN.
pub open spec fn step_load_imm(s: Machine, x: int, nn: u8) -> Machine {
    Machine { registers: s.registers.update(x, nn), ..s }
}

/// VX = VX + NN with 8-bit wraparound; the flag register is untouched.
pub open spec fn step_add_imm(s: Machine, x: int, nn: u8) -> Machine {
    Machine { registers: s.registers.update(x, ((s.registers[x] + nn) % 256) as u8), ..s }
}

/// VX = VY.
pub open spec fn step_mov(s: Machine, x: int, y: int) -> Machine {
    Machine { registers: s.registers.update(x, s.registers[y]), ..s }
}

/// VX = VX | VY.
pub open spec fn step_or(s: Machine, x: int, y: int) -> Machine {
    Machine { registers: s.registers.update(x, s.registers[x] | s.registers[y]), ..s }
}

/// VX = VX & VY.
pub open spec fn step_and(s: Machine, x: int, y: int) -> Machine {
    Machine { registers: s.registers.update(x, s.registers[x] & s.registers[y]), ..s }
}

/// VX = VX ^ VY.
pub open spec fn step_xor(s: Machine, x: int, y: int) -> Machine {
    Machine { registers: s.registers.update(x, s.registers[x] ^ s.registers[y]), ..s }
}

/// VX = VX + VY modulo 256; VF = 1 exactly when the sum overflowed 8 bits.
pub open spec fn step_add_regs(s: Machine, x: int, y: int) -> Machine {
    let sum = s.registers[x] + s.registers[y];
    Machine {
        registers: s.registers.update(x, (sum % 256) as u8).update(
            15,
            if sum > 255 { 1u8 } else { 0u8 },
        ),
        ..s
    }
}

/// VX = VX - VY modulo 256; VF = 1 exactly when no borrow occurred.
pub open spec fn step_sub_regs(s: Machine, x: int, y: int) -> Machine {
    let vx = s.registers[x];
    let vy = s.registers[y];
    Machine {
        registers: s.registers.update(x, ((vx - vy) % 256) as u8).update(
            15,
            if vx >= vy { 1u8 } else { 0u8 },
        ),
        ..s
    }
}

/// VX = VY >> 1; VF = the bit shifted out, read from VY before the shift.
pub open spec fn step_shr(s: Machine, x: int, y: int) -> Machine {
    let vy = s.registers[y];
    Machine { registers: s.registers.update(x, vy >> 1u8).update(15, vy & 1u8), ..s }
}

/// VX = VY - VX modulo 256; VF = 1 exactly when no borrow occurred.
pub open spec fn step_subn_regs(s: Machine, x: int, y: int) -> Machine {
    let vx = s.registers[x];
    let vy = s.registers[y];
    Machine {
        registers: s.registers.update(x, ((vy - vx) % 256) as u8).update(
            15,
            if vy >= vx { 1u8 } else { 0u8 },
        ),
        ..s
    }
}

/// VX = VY << 1 truncated to 8 bits; VF = the top bit of VY before the shift.
pub open spec fn step_shl(s: Machine, x: int, y: int) -> Machine {
    let vy = s.registers[y];
    Machine {
        registers: s.registers.update(x, vy << 1u8).update(15, (vy & 0x80u8) >> 7u8),
        ..s
    }
}

/// I = NNN.
pub open spec fn step_set_i(s: Machine, nnn: u16) -> Machine {
    Machine { i_register: nnn, ..s }
}

/// Jump to V0 + NNN; the sum is at most 0x10FE, so it needs no wrap.
pub open spec fn step_jump_v0(s: Machine, nnn: u16) -> Machine {
    Machine { program_counter: (s.registers[0] + nnn) as u16, ..s }
}

/// VX = rnd & NN, for the byte rnd that the random source produced.
pub open spec fn step_rand(s: Machine, x: int, nn: u8, rnd: u8) -> Machine {
    Machine { registers: s.registers.update(x, nn & rnd), ..s }
}

/// VX = the delay timer.
pub open spec fn step_get_delay(s: Machine, x: int) -> Machine {
    Machine { registers: s.registers.update(x, s.delay_timer), ..s }
}

/// Whether the key with the given code is the one currently pressed.
pub open spec fn is_pressed(s: Machine, code: u8) -> bool {
    s.key_press == Some(code)
}

/// Blocking key read: with a key already down, write it into VX; otherwise
/// rewind the program counter onto this instruction and start waiting.
pub open spec fn step_wait_key(s: Machine, x: int) -> Machine {
    match s.key_press {
        Some(key) => Machine {
            registers: s.registers.update(x, key),
            waiting_for_key: None,
            ..s
        },
        None => Machine {
            waiting_for_key: Some(x as u8),
            program_counter: wrap16(s.program_counter - 2),
            ..s
        },
    }
}

/// Delay timer = VX.
pub open spec fn step_set_delay(s: Machine, x: int) -> Machine {
    Machine { delay_timer: s.registers[x], ..s }
}

/// Sound timer = VX.
pub open spec fn step_set_sound(s: Machine, x: int) -> Machine {
    Machine { sound_timer: s.registers[x], ..s }
}

/// I = I + VX, wrapping at 16 bits (the documented behaviour for index
/// overflow).
pub open spec fn step_add_i(s: Machine, x: int) -> Machine {
    Machine { i_register: wrap16(s.i_register + s.registers[x]), ..s }
}

/// I = the font sprite address for the digit in VX: five bytes per digit from
/// the start of memory.
pub open spec fn step_font(s: Machine, x: int) -> Machine {
    Machine { i_register: (s.registers[x] * 5) as u16, ..s }
}

/// Binary-coded decimal of VX at I, I+1, I+2, addresses taken modulo the
/// memory size.
pub open spec fn step_bcd(s: Machine, x: int) -> Machine {
    let vx = s.registers[x];
    let i = s.i_register as int;
    Machine {
        memory: s.memory.update(i % 4096, (vx / 100) as u8).update(
            (i + 1) % 4096,
            ((vx % 100) / 10) as u8,
        ).update((i + 2) % 4096, (vx % 10) as u8),
        ..s
    }
}

/// The built-in font table: sixteen 5-byte sprites, one per hex digit 0-F,
/// written at the start of memory on power-on and reset.
pub open spec fn font_seq() -> Seq<u8> {
    seq![
        0xF0u8, 0x90, 0x90, 0x90, 0xF0,
        0x20, 0x60, 0x20, 0x20, 0x70,
        0xF0, 0x10, 0xF0, 0x80, 0xF0,
        0xF0, 0x10, 0xF0, 0x10, 0xF0,
        0x90, 0x90, 0xF0, 0x10, 0x10,
        0xF0, 0x80, 0xF0, 0x10, 0xF0,
        0xF0, 0x80, 0xF0, 0x90, 0xF0,
        0xF0, 0x10, 0x20, 0x40, 0x40,
        0xF0, 0x90, 0xF0, 0x90, 0xF0,
        0xF0, 0x90, 0xF0, 0x10, 0xF0,
        0xF0, 0x90, 0xF0, 0x90, 0x90,
        0xE0, 0x90, 0xE0, 0x90, 0xE0,
        0xF0, 0x80, 0x80, 0x80, 0xF0,
        0xE0, 0x90, 0x90, 0x90, 0xE0,
        0xF0, 0x80, 0xF0, 0x80, 0xF0,
        0xF0, 0x80, 0xF0, 0x80, 0x80,
    ]
}

/// Memory with the font table written over its first 80 bytes.
pub open spec fn with_fonts(mem: Seq<u8>) -> Seq<u8> {
    Seq::new(4096, |i: int| if i < 80 { font_seq()[i] } else { mem[i] })
}

/// The state after power-on or reset: everything cleared, the program counter
/// at 0x200, and the font table in low memory.
pub open spec fn init_state() -> Machine {
    Machine {
        opcode: 0,
        memory: with_fonts(Seq::new(4096, |i: int| 0u8)),
        registers: Seq::new(16, |i: int| 0u8),
        i_register: 0,
        program_counter: 0x200,
        gfx: blank_gfx(),
        delay_timer: 0,
        sound_timer: 0,
        stack: Seq::empty(),
        sp: 0,
        key_press: None,
        waiting_for_key: None,
        program_size: 0,
    }
}

/// Store V0..VX inclusive to memory at I; I itself is untouched. An address
/// holds the register whose offset from I it is, when that offset is in
/// range; every other byte keeps its value.
pub open spec fn step_store_regs(s: Machine, x: int) -> Machine {
    Machine {
        memory: Seq::new(4096, |a: int| {
            let k = (a - s.i_register as int) % 4096;
            if k <= x { s.registers[k] } else { s.memory[a] }
        }),
        ..s
    }
}

/// Load V0..VX inclusive from memory at I; the remaining registers keep
/// their values.
pub open spec fn step_load_regs(s: Machine, x: int) -> Machine {
    Machine {
        registers: Seq::new(16, |r: int| {
            if r <= x { s.memory[(s.i_register + r) % 4096] } else { s.registers[r] }
        }),
        ..s
    }
}

/// Memory with a program written verbatim at 0x200; every other byte keeps
/// its value.
pub open spec fn mem_with_program(mem: Seq<u8>, prog: Seq<u8>) -> Seq<u8> {
    Seq::new(4096, |i: int|
        if 0x200 <= i < 0x200 + prog.len() { prog[i - 0x200] } else { mem[i] }
    )
}

/// The sprite column that lands on display column `px` when drawing at
/// horizontal origin `vx`: the offset of `px` from `vx` modulo the display
/// width. The pixel is part of the sprite exactly when this is below 8.
pub open spec fn col_of(vx: u8, px: int) -> int {
    (px - vx) % 64
}

/// The sprite row that lands on display row `py` when drawing at vertical
/// origin `vy`. The pixel is part of the sprite exactly when this is below
/// the row count.
pub open spec fn row_of(vy: u8, py: int) -> int {
    (py - vy) % 32
}

/// Sprite row `r` of the sprite at the index register, read modulo the
/// memory size.
pub open spec fn sprite_row(s: Machine, r: int) -> u8 {
    s.memory[(s.i_register + r) % 4096]
}

/// Bit `c` of a sprite row, counted from the left (most significant first).
pub open spec fn sprite_bit(b: u8, c: int) -> bool {
    (b >> ((7 - c) as u8)) & 1u8 == 1u8
}

/// The display after an N-row sprite is drawn at (vx, vy): each covered
/// pixel is XORed with its sprite bit, coordinates wrapping at the display
/// edges; every other pixel keeps its value.
pub open spec fn draw_gfx(s: Machine, vx: u8, vy: u8, n: int) -> Seq<Seq<bool>> {
    Seq::new(64, |px: int| Seq::new(32, |py: int|
        if col_of(vx, px) < 8 && row_of(vy, py) < n {
            s.gfx[px][py] ^ sprite_bit(sprite_row(s, row_of(vy, py)), col_of(vx, px))
        } else {
            s.gfx[px][py]
        }
    ))
}

/// Whether drawing an N-row sprite at (vx, vy) turns any lit pixel off:
/// some sprite bit is set over a pixel that is already on.
pub open spec fn draw_collision(s: Machine, vx: u8, vy: u8, n: int) -> bool {
    exists|r: int, c: int|
        0 <= r < n && 0 <= c < 8 && #[trigger] sprite_bit(sprite_row(s, r), c) && s.gfx[(vx
            + c) % 64][(vy + r) % 32]
}

/// Draw an N-row sprite at (VX, VY): XOR composition onto the display, with
/// VF set to 1 exactly when a collision unset some pixel, else 0.
pub open spec fn step_draw(s: Machine, x: int, y: int, n: int) -> Machine {
    let vx = s.registers[x];
    let vy = s.registers[y];
    Machine {
        gfx: draw_gfx(s, vx, vy, n),
        registers: s.registers.update(
            15,
            if draw_collision(s, vx, vy, n) { 1u8 } else { 0u8 },
        ),
        ..s
    }
}

/// Pointwise reading of a full draw: what any one pixel holds afterwards.
pub proof fn lemma_draw_gfx_index(s: Machine, vx: u8, vy: u8, n: int, px: int, py: int)
    requires
        0 <= px < 64,
        0 <= py < 32,
    ensures
        draw_gfx(s, vx, vy, n)[px][py] == (if col_of(vx, px) < 8 && row_of(vy, py) < n {
            s.gfx[px][py] ^ sprite_bit(sprite_row(s, row_of(vy, py)), col_of(vx, px))
        } else {
            s.gfx[px][py]
        }),
{
    assert(draw_gfx(s, vx, vy, n)[px] == Seq::new(32, |py2: int|
        if col_of(vx, px) < 8 && row_of(vy, py2) < n {
            s.gfx[px][py2] ^ sprite_bit(sprite_row(s, row_of(vy, py2)), col_of(vx, px))
        } else {
            s.gfx[px][py2]
        }
    ));
}

/// Whether a pixel has been covered once the first `r` sprite rows are done
/// and `c` further bits of row `r` are done.
pub open spec fn draw_covered(vx: u8, vy: u8, r: int, c: int, px: int, py: int) -> bool {
    let cc = col_of(vx, px);
    let rr = row_of(vy, py);
    cc < 8 && (rr < r || (rr == r && cc < c))
}

/// The display part-way through a draw: covered pixels already XORed, the
/// rest untouched.
pub open spec fn draw_gfx_upto(s: Machine, vx: u8, vy: u8, r: int, c: int) -> Seq<Seq<bool>> {
    Seq::new(64, |px: int| Seq::new(32, |py: int|
        if draw_covered(vx, vy, r, c, px, py) {
            s.gfx[px][py] ^ sprite_bit(sprite_row(s, row_of(vy, py)), col_of(vx, px))
        } else {
            s.gfx[px][py]
        }
    ))
}

/// Whether a collision has occurred part-way through a draw.
pub open spec fn draw_collision_upto(s: Machine, vx: u8, vy: u8, r: int, c: int) -> bool {
    exists|rr: int, cc: int|
        0 <= rr && 0 <= cc < 8 && (rr < r || (rr == r && cc < c)) && #[trigger] sprite_bit(
            sprite_row(s, rr),
            cc,
        ) && s.gfx[(vx + cc) % 64][(vy + rr) % 32]
}

/// Pointwise reading of the partial draw: what any one pixel holds.
pub proof fn lemma_draw_gfx_upto_index(
    s: Machine,
    vx: u8,
    vy: u8,
    r: int,
    c: int,
    px: int,
    py: int,
)
    requires
        0 <= px < 64,
        0 <= py < 32,
    ensures
        draw_gfx_upto(s, vx, vy, r, c)[px][py] == (if draw_covered(vx, vy, r, c, px, py) {
            s.gfx[px][py] ^ sprite_bit(sprite_row(s, row_of(vy, py)), col_of(vx, px))
        } else {
            s.gfx[px][py]
        }),
{
    assert(draw_gfx_upto(s, vx, vy, r, c)[px] == Seq::new(32, |py2: int|
        if draw_covered(vx, vy, r, c, px, py2) {
            s.gfx[px][py2] ^ sprite_bit(sprite_row(s, row_of(vy, py2)), col_of(vx, px))
        } else {
            s.gfx[px][py2]
        }
    ));
}

/// The offset of `(i + k) % m` from `i` is again `k`, modulo `m`.
pub proof fn lemma_offset_mod(i: int, k: int, m: int)
    requires
        m > 0,
        0 <= k < m,
    ensures
        ((i + k) % m - i) % m == k,
{
    let r0 = (i + k) % m;
    let q0 = (i + k) / m;
    vstd::arithmetic::div_mod::lemma_fundamental_div_mod(i + k, m);
    assert((-q0) * m == -(m * q0)) by (nonlinear_arith);
    vstd::arithmetic::div_mod::lemma_fundamental_div_mod_converse_mod(r0 - i, m, -q0, k);
}

/// An in-range address whose offset from `i` is `k` is exactly `(i + k) % m`:
/// the address a given offset lands on is unique.
pub proof fn lemma_offset_unique(i: int, k: int, a: int, m: int)
    requires
        m > 0,
        0 <= k < m,
        0 <= a < m,
        (a - i) % m == k,
    ensures
        a == (i + k) % m,
{
    let q2 = (a - i) / m;
    vstd::arithmetic::div_mod::lemma_fundamental_div_mod(a - i, m);
    assert((-q2) * m == -(m * q2)) by (nonlinear_arith);
    vstd::arithmetic::div_mod::lemma_fundamental_div_mod_converse_mod(i + k, m, -q2, a);
}

/// The diagnostic for an instruction word that matches no handler.
pub open spec fn unimplemented(s: Machine) -> CpuError {
    CpuError::UnimplementedOpcode { program_counter: s.program_counter, opcode: s.opcode }
}

/// One instruction, dispatched on the latched opcode: the resulting state and
/// whether execution may go on. `rnd` is the byte the random source produced,
/// read only by the random-AND family. On an error the state is unchanged.
pub open spec fn spec_execute(s: Machine, rnd: u8) -> (Machine, Result<(), CpuError>) {
    let op = s.opcode;
    let x = op_x(op) as int;
    let y = op_y(op) as int;
    let nn = op_nn(op) as u8;
    let nnn = op_nnn(op);
    let n = op_n(op) as int;
    let fam = op_family(op);
    if fam == 0x0000 {
        if nnn == 0x0E0 {
            (step_cls(s), Ok(()))
        } else if nnn == 0x0EE {
            if s.stack.len() == 0 {
                (s, Err(CpuError::StackUnderflow { program_counter: s.program_counter, opcode: op }))
            } else {
                (step_ret(s), Ok(()))
            }
        } else {
            (s, Ok(()))
        }
    } else if fam == 0x1000 {
        (step_jump(s, nnn), Ok(()))
    } else if fam == 0x2000 {
        (step_call(s, nnn), Ok(()))
    } else if fam == 0x3000 {
        (skip_if(s, s.registers[x] == nn), Ok(()))
    } else if fam == 0x4000 {
        (skip_if(s, s.registers[x] != nn), Ok(()))
    } else if fam == 0x5000 {
        (skip_if(s, s.registers[x] == s.registers[y]), Ok(()))
    } else if fam == 0x6000 {
        (step_load_imm(s, x, nn), Ok(()))
    } else if fam == 0x7000 {
        (step_add_imm(s, x, nn), Ok(()))
    } else if fam == 0x8000 {
        let sub = op & 0xF00F;
        if sub == 0x8000 {
            (step_mov(s, x, y), Ok(()))
        } else if sub == 0x8001 {
            (step_or(s, x, y), Ok(()))
        } else if sub == 0x8002 {
            (step_and(s, x, y), Ok(()))
        } else if sub == 0x8003 {
            (step_xor(s, x, y), Ok(()))
        } else if sub == 0x8004 {
            (step_add_regs(s, x, y), Ok(()))
        } else if sub == 0x8005 {
            (step_sub_regs(s, x, y), Ok(()))
        } else if sub == 0x8006 {
            (step_shr(s, x, y), Ok(()))
        } else if sub == 0x8007 {
            (step_subn_regs(s, x, y), Ok(()))
        } else if sub == 0x800E {
            (step_shl(s, x, y), Ok(()))
        } else {
            (s, Err(unimplemented(s)))
        }
    } else if fam == 0x9000 {
        (skip_if(s, s.registers[x] != s.registers[y]), Ok(()))
    } else if fam == 0xA000 {
        (step_set_i(s, nnn), Ok(()))
    } else if fam == 0xB000 {
        (step_jump_v0(s, nnn), Ok(()))
    } else if fam == 0xC000 {
        (step_rand(s, x, nn, rnd), Ok(()))
    } else if fam == 0xD000 {
        (step_draw(s, x, y, n), Ok(()))
    } else if fam == 0xE000 {
        let sub = op & 0xF0FF;
        if sub == 0xE09E {
            (skip_if(s, is_pressed(s, s.registers[x])), Ok(()))
        } else if sub == 0xE0A1 {
            (skip_if(s, !is_pressed(s, s.registers[x])), Ok(()))
        } else {
            (s, Err(unimplemented(s)))
        }
    } else {
        let sub = op & 0xF0FF;
        if sub == 0xF007 {
            (step_get_delay(s, x), Ok(()))
        } else if sub == 0xF00A {
            (step_wait_key(s, x), Ok(()))
        } else if sub == 0xF015 {
            (step_set_delay(s, x), Ok(()))
        } else if sub == 0xF018 {
            (step_set_sound(s, x), Ok(()))
        } else if sub == 0xF01E {
            (step_add_i(s, x), Ok(()))
        } else if sub == 0xF029 {
            (step_font(s, x), Ok(()))
        } else if sub == 0xF033 {
            (step_bcd(s, x), Ok(()))
        } else if sub == 0xF055 {
            (step_store_regs(s, x), Ok(()))
        } else if sub == 0xF065 {
            (step_load_regs(s, x), Ok(()))
        } else {
            (s, Err(unimplemented(s)))
        }
    }
}

/// One cycle: timers decay first; a pending key wait either resolves (the
/// key is written, the counter moves past the waiting instruction, and no
/// fetch happens that cycle) or stalls the cycle; otherwise the machine
/// fetches at the program counter and executes.
pub open spec fn spec_cycle(s: Machine, rnd: u8) -> (Machine, Result<(), CpuError>) {
    let t = tick_timers(s);
    match t.waiting_for_key {
        Some(reg) => match t.key_press {
            Some(key) => (
                Machine {
                    registers: t.registers.update(reg as int, key),
                    waiting_for_key: None,
                    program_counter: wrap16(t.program_counter + 2),
                    ..t
                },
                Ok(()),
            ),
            None => (t, Ok(())),
        },
        None => spec_execute(spec_fetch(t), rnd),
    }
}

} // verus!
