//! The executable machine: the CPU state and the fetch-decode-execute cycle,
//! each public entry point proved against the spec model in [`crate::model`].

pub mod disassembler;

use vstd::prelude::*;

verus! {

use crate::model::{
    Machine, CpuError, font_seq, with_fonts, init_state, blank_gfx, mem_with_program, wrap16,
    word_at, step_cls, step_ret, step_jump, step_call, skip_if, step_load_imm, step_add_imm,
    step_mov, step_or, step_and, step_xor, step_add_regs, step_sub_regs, step_shr,
    step_subn_regs, step_shl, step_set_i, step_jump_v0, step_rand, step_get_delay, is_pressed,
    step_wait_key, step_set_delay, step_set_sound, step_add_i, step_font, step_bcd,
    step_store_regs, step_load_regs, lemma_offset_mod, lemma_offset_unique, unimplemented,
    step_draw, draw_gfx, draw_gfx_upto, draw_collision, draw_collision_upto, draw_covered,
    col_of, row_of, sprite_row, sprite_bit, lemma_draw_gfx_upto_index, spec_execute,
    spec_cycle, spec_fetch, tick_timers, lemma_field_bounds, op_family, op_x, op_y, op_nn,
    op_nnn, op_n,
};

/// Relies on rand::random: one byte from the thread-local generator. Nothing
/// is assumed about the value; callers state what holds of every outcome.
#[verifier::external_body]
fn random_byte() -> u8 {
    rand::random::<u8>()
}

/// The deep view of the display buffer indexes as the column views do.
proof fn lemma_gfx_deep_view(g: [[bool; 32]; 64])
    ensures
        g.deep_view().len() == 64,
        forall|i: int| 0 <= i < 64 ==> #[trigger] g.deep_view()[i] == g@[i]@,
        forall|i: int| 0 <= i < 64 ==> (#[trigger] g.deep_view()[i]).len() == 32,
{
    assert forall|i: int| 0 <= i < 64 implies #[trigger] g.deep_view()[i] == g@[i]@ by {
        assert(g.deep_view()[i] =~= g@[i]@);
    }
}

/// The machine state: memory, registers, timers, call stack, display buffer
/// and input latch. The fields are public so that renderers can read them
/// between cycles; the interpreter is the only writer.
pub struct CPU {
    pub opcode: u16,
    pub memory: [u8; 4096],
    pub registers: [u8; 16],
    pub i_register: u16,
    pub program_counter: u16,
    pub gfx: [[bool; 32]; 64],
    pub delay_timer: u8,
    pub sound_timer: u8,
    pub stack: Vec<u16>,
    pub sp: u8,
    pub key_press: Option<u8>,
    pub waiting_for_key: Option<u8>,
    pub program_size: u16,
}

impl View for CPU {
    type V = Machine;

    open spec fn view(&self) -> Machine {
        Machine {
            opcode: self.opcode,
            memory: self.memory@,
            registers: self.registers@,
            i_register: self.i_register,
            program_counter: self.program_counter,
            gfx: self.gfx.deep_view(),
            delay_timer: self.delay_timer,
            sound_timer: self.sound_timer,
            stack: self.stack@,
            sp: self.sp,
            key_press: self.key_press,
            waiting_for_key: self.waiting_for_key,
            program_size: self.program_size,
        }
    }
}

impl CPU {
    /// A freshly powered-on machine: cleared state with the font table
    /// written into low memory.
    pub fn new() -> (cpu: CPU)
        ensures
            cpu@ == init_state(),
            cpu@.wf(),
    {
        let mut cpu = CPU {
            opcode: 0,
            memory: [0; 4096],
            registers: [0; 16],
            i_register: 0,
            program_counter: 0x200,
            gfx: [[false; 32]; 64],
            delay_timer: 0,
            sound_timer: 0,
            stack: Vec::new(),
            sp: 0,
            key_press: None,
            waiting_for_key: None,
            program_size: 0,
        };

        cpu.load_fonts();

        proof {
            assert(cpu@.gfx =~~= blank_gfx());
            assert(cpu@ =~~= init_state());
        }

        cpu
    }

    /// Write the sixteen font sprites over the first 80 bytes of memory.
    fn load_fonts(&mut self)
        ensures
            final(self)@ == (Machine { memory: with_fonts(old(self)@.memory), ..old(self)@ }),
    {
        let font: Vec<u8> = vec![
            0xF0, 0x90, 0x90, 0x90, 0xF0,
            0x20, 0x60, 0x20, 0x20, 0x70,
            0xF0, 0x10, 0xF0, 0x80, 0xF0,
            0xF0, 0x10, 0xF0, 0x10, 0xF0,
            0x90, 0x90, 0xF0, 0x10, 0x10,
            0xF0, 0x80, 0xF0, 0x10, 0xF0,
            0xF0, 0x80, 0xF0, 0x90, 0xF0,
            0xF0, 0x10, 0x20, 0x40, 0x40,
            0xF0, 0x90, 0xF0, 0x90, 0xF0,
            0xF0, 0x90, 0xF0, 0x10, 0xF0,
            0xF0, 0x90, 0xF0, 0x90, 0x90,
            0xE0, 0x90, 0xE0, 0x90, 0xE0,
            0xF0, 0x80, 0x80, 0x80, 0xF0,
            0xE0, 0x90, 0x90, 0x90, 0xE0,
            0xF0, 0x80, 0xF0, 0x80, 0xF0,
            0xF0, 0x80, 0xF0, 0x80, 0x80,
        ];
        proof {
            assert(font@ =~= font_seq());
        }

        let mut i: usize = 0;
        while i < 80
            invariant
                i <= 80,
                font@ == font_seq(),
                forall|j: int| 0 <= j < i ==> self.memory@[j] == font_seq()[j],
                forall|j: int| i <= j < 4096 ==> self.memory@[j] == old(self).memory@[j],
                self@ == (Machine { memory: self@.memory, ..old(self)@ }),
            decreases 80 - i,
        {
            self.memory[i] = font[i];
            i += 1;
        }

        proof {
            assert(final(self)@.memory =~= with_fonts(old(self)@.memory));
            assert(final(self)@ =~~= Machine { memory: with_fonts(old(self)@.memory), ..old(self)@ });
        }
    }

    /// Copy a program into memory at 0x200 and point the program counter at
    /// it. A program longer than the memory past the reserved region is
    /// rejected whole.
    pub fn load_program(&mut self, bytes: &[u8]) -> (r: Result<(), CpuError>)
        ensures
            bytes@.len() <= 3584 ==> r == Ok::<(), CpuError>(()) && final(self)@ == (Machine {
                memory: mem_with_program(old(self)@.memory, bytes@),
                program_size: (0x200 + bytes@.len()) as u16,
                program_counter: 0x200u16,
                ..old(self)@
            }),
            bytes@.len() > 3584 ==> r == Err::<(), CpuError>(
                CpuError::RomTooLarge { length: bytes@.len() as usize },
            ) && final(self)@ == old(self)@,
            old(self)@.wf() ==> final(self)@.wf(),
    {
        if bytes.len() > 3584 {
            return Err(CpuError::RomTooLarge { length: bytes.len() });
        }

        let mut addr: usize = 0x200;
        let mut k: usize = 0;
        while k < bytes.len()
            invariant
                bytes@.len() <= 3584,
                k <= bytes@.len(),
                addr == 0x200 + k,
                forall|j: int| 0x200 <= j < 0x200 + k ==> self.memory@[j] == bytes@[j - 0x200],
                forall|j: int|
                    0 <= j < 4096 && !(0x200 <= j < 0x200 + k) ==> self.memory@[j] == old(
                        self,
                    ).memory@[j],
                self@ == (Machine { memory: self@.memory, ..old(self)@ }),
            decreases bytes@.len() - k,
        {
            self.memory[addr] = bytes[k];
            addr += 1;
            k += 1;
        }
        self.program_size = addr as u16;
        self.program_counter = 0x200;

        proof {
            assert(self@.memory =~= mem_with_program(old(self)@.memory, bytes@));
        }

        Ok(())
    }

    /// Restore the power-on state; the loaded program is not kept.
    pub fn reset(&mut self)
        ensures
            final(self)@ == init_state(),
            final(self)@.wf(),
    {
        self.opcode = 0;
        self.memory = [0; 4096];
        self.registers = [0; 16];
        self.i_register = 0;
        self.program_counter = 0x200;
        self.gfx = [[false; 32]; 64];
        self.delay_timer = 0;
        self.sound_timer = 0;
        self.stack.clear();
        self.sp = 0;
        self.key_press = None;
        self.waiting_for_key = None;
        self.program_size = 0;

        self.load_fonts();

        proof {
            assert(self@.gfx =~~= blank_gfx());
            assert(self@ =~~= init_state());
        }
    }

    /// Read the instruction word at a memory address into the opcode latch
    /// and advance the program counter by two. Addresses wrap at the memory
    /// size.
    fn fetch_opcode(&mut self, memory_location: usize)
        ensures
            final(self)@ == (Machine {
                opcode: word_at(old(self)@.memory, memory_location as int),
                program_counter: wrap16(old(self)@.program_counter + 2),
                ..old(self)@
            }),
    {
        let lo = memory_location % 4096;
        let a = self.memory[lo] as u16;
        let b = self.memory[(lo + 1) % 4096] as u16;
        proof {
            vstd::arithmetic::div_mod::lemma_add_mod_noop(memory_location as int, 1, 4096);
        }
        self.opcode = (a << 8u16) | b;
        self.program_counter = self.program_counter.wrapping_add(2);
    }

    /// The diagnostic for an opcode that matches no handler.
    fn op_ni(&self) -> (e: CpuError)
        ensures
            e == unimplemented(self@),
    {
        CpuError::UnimplementedOpcode { program_counter: self.program_counter, opcode: self.opcode }
    }

    /// 0NNN: historically a machine-language call; treated as a no-op.
    fn op_0nnn(&mut self, _nnn: u16)
        ensures
            final(self)@ == old(self)@,
    {
    }

    /// 00E0: clear the display.
    fn op_00e0(&mut self)
        ensures
            final(self)@ == step_cls(old(self)@),
    {
        self.gfx = [[false; 32]; 64];
        proof {
            assert(self@.gfx =~~= blank_gfx());
            assert(self@ =~~= step_cls(old(self)@));
        }
    }

    /// 00EE: return from subroutine.
    fn op_00ee(&mut self)
        requires
            old(self)@.stack.len() > 0,
        ensures
            final(self)@ == step_ret(old(self)@),
    {
        let pc = self.stack.pop().unwrap();
        self.program_counter = pc;
    }

    /// 1NNN: jump to NNN.
    fn op_1nnn(&mut self, nnn: u16)
        ensures
            final(self)@ == step_jump(old(self)@, nnn),
    {
        self.program_counter = nnn;
    }

    /// 2NNN: call the subroutine at NNN, saving the address after the call.
    fn op_2nnn(&mut self, nnn: u16)
        ensures
            final(self)@ == step_call(old(self)@, nnn),
    {
        self.stack.push(self.program_counter);
        self.program_counter = nnn;
    }

    /// 3XNN: skip the next instruction when VX equals NN.
    fn op_3xnn(&mut self, x: u8, nn: u8)
        requires
            x < 16,
        ensures
            final(self)@ == skip_if(old(self)@, old(self)@.registers[x as int] == nn),
    {
        let vx = self.registers[x as usize];
        if vx == nn {
            self.program_counter = self.program_counter.wrapping_add(2);
        }
    }

    /// 4XNN: skip the next instruction when VX differs from NN.
    fn op_4xnn(&mut self, x: u8, nn: u8)
        requires
            x < 16,
        ensures
            final(self)@ == skip_if(old(self)@, old(self)@.registers[x as int] != nn),
    {
        let vx = self.registers[x as usize];
        if vx != nn {
            self.program_counter = self.program_counter.wrapping_add(2);
        }
    }

    /// 5XY0: skip the next instruction when VX equals VY.
    fn op_5xy0(&mut self, x: u8, y: u8)
        requires
            x < 16,
            y < 16,
        ensures
            final(self)@ == skip_if(
                old(self)@,
                old(self)@.registers[x as int] == old(self)@.registers[y as int],
            ),
    {
        let vx = self.registers[x as usize];
        let vy = self.registers[y as usize];
        if vx == vy {
            self.program_counter = self.program_counter.wrapping_add(2);
        }
    }

    /// 6XNN: VX = NN.
    fn op_6xnn(&mut self, x: u8, nn: u8)
        requires
            x < 16,
        ensures
            final(self)@ == step_load_imm(old(self)@, x as int, nn),
    {
        self.registers[x as usize] = nn;
    }

    /// 7XNN: VX = VX + NN with 8-bit wraparound; no flag side effect.
    fn op_7xnn(&mut self, x: u8, nn: u8)
        requires
            x < 16,
        ensures
            final(self)@ == step_add_imm(old(self)@, x as int, nn),
    {
        let vx = self.registers[x as usize];
        let sum = vx as u16 + nn as u16;
        self.registers[x as usize] = (sum % 256) as u8;
    }

    /// 8XY0: VX = VY.
    fn op_8xy0(&mut self, x: u8, y: u8)
        requires
            x < 16,
            y < 16,
        ensures
            final(self)@ == step_mov(old(self)@, x as int, y as int),
    {
        let vy = self.registers[y as usize];
        self.registers[x as usize] = vy;
    }

    /// 8XY1: VX = VX | VY.
    fn op_8xy1(&mut self, x: u8, y: u8)
        requires
            x < 16,
            y < 16,
        ensures
            final(self)@ == step_or(old(self)@, x as int, y as int),
    {
        let vx = self.registers[x as usize];
        let vy = self.registers[y as usize];
        self.registers[x as usize] = vx | vy;
    }

    /// 8XY2: VX = VX & VY.
    fn op_8xy2(&mut self, x: u8, y: u8)
        requires
            x < 16,
            y < 16,
        ensures
            final(self)@ == step_and(old(self)@, x as int, y as int),
    {
        let vx = self.registers[x as usize];
        let vy = self.registers[y as usize];
        self.registers[x as usize] = vx & vy;
    }

    /// 8XY3: VX = VX ^ VY.
    fn op_8xy3(&mut self, x: u8, y: u8)
        requires
            x < 16,
            y < 16,
        ensures
            final(self)@ == step_xor(old(self)@, x as int, y as int),
    {
        let vx = self.registers[x as usize];
        let vy = self.registers[y as usize];
        self.registers[x as usize] = vx ^ vy;
    }

    /// 8XY4: VX = VX + VY with 8-bit wraparound; VF = 1 exactly on carry.
    fn op_8xy4(&mut self, x: u8, y: u8)
        requires
            x < 16,
            y < 16,
        ensures
            final(self)@ == step_add_regs(old(self)@, x as int, y as int),
    {
        let vx = self.registers[x as usize];
        let vy = self.registers[y as usize];
        let sum = vx as u16 + vy as u16;
        self.registers[x as usize] = (sum % 256) as u8;
        self.registers[0xF] = if sum > 255 { 1 } else { 0 };
    }

    /// 8XY5: VX = VX - VY with 8-bit wraparound; VF = 1 exactly when no
    /// borrow occurred.
    fn op_8xy5(&mut self, x: u8, y: u8)
        requires
            x < 16,
            y < 16,
        ensures
            final(self)@ == step_sub_regs(old(self)@, x as int, y as int),
    {
        let vx = self.registers[x as usize];
        let vy = self.registers[y as usize];
        let val = vx.wrapping_sub(vy);
        proof {
            assert(val == ((vx - vy) % 256) as u8);
        }
        self.registers[x as usize] = val;
        self.registers[0xF] = if vx >= vy { 1 } else { 0 };
    }

    /// 8XY6: VX = VY >> 1; VF = the bit shifted out of VY.
    fn op_8xy6(&mut self, x: u8, y: u8)
        requires
            x < 16,
            y < 16,
        ensures
            final(self)@ == step_shr(old(self)@, x as int, y as int),
    {
        let vy = self.registers[y as usize];
        self.registers[x as usize] = vy >> 1u8;
        self.registers[0xF] = vy & 1u8;
    }

    /// 8XY7: VX = VY - VX with 8-bit wraparound; VF = 1 exactly when no
    /// borrow occurred.
    fn op_8xy7(&mut self, x: u8, y: u8)
        requires
            x < 16,
            y < 16,
        ensures
            final(self)@ == step_subn_regs(old(self)@, x as int, y as int),
    {
        let vx = self.registers[x as usize];
        let vy = self.registers[y as usize];
        let val = vy.wrapping_sub(vx);
        proof {
            assert(val == ((vy - vx) % 256) as u8);
        }
        self.registers[x as usize] = val;
        self.registers[0xF] = if vy >= vx { 1 } else { 0 };
    }

    /// 8XYE: VX = VY << 1 truncated to 8 bits; VF = the top bit of VY.
    fn op_8xye(&mut self, x: u8, y: u8)
        requires
            x < 16,
            y < 16,
        ensures
            final(self)@ == step_shl(old(self)@, x as int, y as int),
    {
        let vy = self.registers[y as usize];
        self.registers[x as usize] = vy << 1u8;
        self.registers[0xF] = (vy & 0x80u8) >> 7u8;
    }

    /// 9XY0: skip the next instruction when VX differs from VY.
    fn op_9xy0(&mut self, x: u8, y: u8)
        requires
            x < 16,
            y < 16,
        ensures
            final(self)@ == skip_if(
                old(self)@,
                old(self)@.registers[x as int] != old(self)@.registers[y as int],
            ),
    {
        let vx = self.registers[x as usize];
        let vy = self.registers[y as usize];
        if vx != vy {
            self.program_counter = self.program_counter.wrapping_add(2);
        }
    }

    /// ANNN: I = NNN.
    fn op_annn(&mut self, nnn: u16)
        ensures
            final(self)@ == step_set_i(old(self)@, nnn),
    {
        self.i_register = nnn;
    }

    /// BNNN: jump to V0 + NNN.
    fn op_bnnn(&mut self, nnn: u16)
        requires
            nnn < 0x1000,
        ensures
            final(self)@ == step_jump_v0(old(self)@, nnn),
    {
        self.program_counter = self.registers[0] as u16 + nnn;
    }

    /// CXNN: VX = NN masked over the byte the random source produced.
    fn op_cxnn(&mut self, x: u8, nn: u8)
        requires
            x < 16,
        ensures
            exists|rnd: u8| final(self)@ == step_rand(old(self)@, x as int, nn, rnd),
    {
        let random = random_byte();
        self.op_cxnn_with(x, nn, random);
    }

    /// The random-AND write for a given random byte: VX = rnd & NN.
    fn op_cxnn_with(&mut self, x: u8, nn: u8, rnd: u8)
        requires
            x < 16,
        ensures
            final(self)@ == step_rand(old(self)@, x as int, nn, rnd),
    {
        self.registers[x as usize] = nn & rnd;
    }

    /// EX9E: skip the next instruction when the key in VX is pressed.
    fn op_ex9e(&mut self, x: u8)
        requires
            x < 16,
        ensures
            final(self)@ == skip_if(
                old(self)@,
                is_pressed(old(self)@, old(self)@.registers[x as int]),
            ),
    {
        let vx = self.registers[x as usize];
        if self.is_key_press(vx) {
            self.program_counter = self.program_counter.wrapping_add(2);
        }
    }

    /// EXA1: skip the next instruction when the key in VX is not pressed.
    fn op_exa1(&mut self, x: u8)
        requires
            x < 16,
        ensures
            final(self)@ == skip_if(
                old(self)@,
                !is_pressed(old(self)@, old(self)@.registers[x as int]),
            ),
    {
        let vx = self.registers[x as usize];
        if !self.is_key_press(vx) {
            self.program_counter = self.program_counter.wrapping_add(2);
        }
    }

    /// FX07: VX = the delay timer.
    fn op_fx07(&mut self, x: u8)
        requires
            x < 16,
        ensures
            final(self)@ == step_get_delay(old(self)@, x as int),
    {
        self.registers[x as usize] = self.delay_timer;
    }

    /// FX0A: blocking key read; with no key down, pin the program counter
    /// back onto this instruction and wait.
    fn op_fx0a(&mut self, x: u8)
        requires
            x < 16,
        ensures
            final(self)@ == step_wait_key(old(self)@, x as int),
    {
        if let Some(key) = self.key_press {
            self.registers[x as usize] = key;
            self.waiting_for_key = None;
        } else {
            self.waiting_for_key = Some(x);
            self.program_counter = self.program_counter.wrapping_sub(2);
        }
    }

    /// FX18: sound timer = VX.
    fn op_fx18(&mut self, x: u8)
        requires
            x < 16,
        ensures
            final(self)@ == step_set_sound(old(self)@, x as int),
    {
        let vx = self.registers[x as usize];
        self.sound_timer = vx;
    }

    /// FX15: delay timer = VX.
    fn op_fx15(&mut self, x: u8)
        requires
            x < 16,
        ensures
            final(self)@ == step_set_delay(old(self)@, x as int),
    {
        let vx = self.registers[x as usize];
        self.delay_timer = vx;
    }

    /// FX1E: I = I + VX, wrapping at 16 bits.
    fn op_fx1e(&mut self, x: u8)
        requires
            x < 16,
        ensures
            final(self)@ == step_add_i(old(self)@, x as int),
    {
        let vx = self.registers[x as usize];
        self.i_register = self.i_register.wrapping_add(vx as u16);
    }

    /// FX29: I = the font sprite address for the digit in VX.
    fn op_fx29(&mut self, x: u8)
        requires
            x < 16,
        ensures
            final(self)@ == step_font(old(self)@, x as int),
    {
        let vx = self.registers[x as usize] as u16;
        self.i_register = vx * 5;
    }

    /// FX33: store the decimal digits of VX at I, I+1, I+2.
    fn op_fx33(&mut self, x: u8)
        requires
            x < 16,
        ensures
            final(self)@ == step_bcd(old(self)@, x as int),
    {
        let vx = self.registers[x as usize];
        let i = self.i_register as usize;
        self.memory[i % 4096] = vx / 100;
        self.memory[(i + 1) % 4096] = (vx % 100) / 10;
        self.memory[(i + 2) % 4096] = vx % 10;
    }

    /// DXYN: draw the N-row sprite at the index register to (VX, VY), XOR
    /// composition with wraparound at the display edges; VF reports whether
    /// any lit pixel was turned off.
    fn op_dxyn(&mut self, x: usize, y: usize, rows: usize)
        requires
            x < 16,
            y < 16,
            rows < 16,
        ensures
            final(self)@ == step_draw(old(self)@, x as int, y as int, rows as int),
    {
        let ghost s0 = old(self)@;
        let vx = self.registers[x];
        let vy = self.registers[y];
        self.registers[0xF] = 0;

        proof {
            lemma_gfx_deep_view(self.gfx);
            assert(self.gfx.deep_view() =~~= draw_gfx_upto(s0, vx, vy, 0, 0));
        }

        let mut row: usize = 0;
        while row < rows
            invariant
                row <= rows,
                rows < 16,
                s0 == old(self)@,
                vx == s0.registers[x as int],
                vy == s0.registers[y as int],
                self.gfx.deep_view() == draw_gfx_upto(s0, vx, vy, row as int, 0),
                self.registers@ == s0.registers.update(
                    15,
                    if draw_collision_upto(s0, vx, vy, row as int, 0) { 1u8 } else { 0u8 },
                ),
                self@ == (Machine { registers: self@.registers, gfx: self@.gfx, ..s0 }),
            decreases rows - row,
        {
            let font = self.memory[(self.i_register as usize + row) % 4096];
            let y_pos = ((vy as u16 + row as u16) % 32) as usize;
            proof {
                assert(font == sprite_row(s0, row as int));
                assert(y_pos as int == (vy + row as int) % 32);
                lemma_offset_mod(vy as int, row as int, 32);
            }

            let mut column: usize = 0;
            while column < 8
                invariant
                    column <= 8,
                    row < rows,
                    rows < 16,
                    s0 == old(self)@,
                    vx == s0.registers[x as int],
                    vy == s0.registers[y as int],
                    font == sprite_row(s0, row as int),
                    y_pos as int == (vy + row as int) % 32,
                    y_pos < 32,
                    row_of(vy, y_pos as int) == row as int,
                    self.gfx.deep_view() == draw_gfx_upto(s0, vx, vy, row as int, column as int),
                    self.registers@ == s0.registers.update(
                        15,
                        if draw_collision_upto(s0, vx, vy, row as int, column as int) {
                            1u8
                        } else {
                            0u8
                        },
                    ),
                    self@ == (Machine { registers: self@.registers, gfx: self@.gfx, ..s0 }),
                decreases 8 - column,
            {
                let ghost pre = self@;
                let x_pos = ((vx as u16 + column as u16) % 64) as usize;
                let shift: u8 = (7 - column) as u8;
                let pixel = (font >> shift) & 1 != 0;
                let mut strip = self.gfx[x_pos];
                let cur = strip[y_pos];

                proof {
                    lemma_gfx_deep_view(self.gfx);
                    assert(x_pos as int == (vx + column as int) % 64);
                    lemma_offset_mod(vx as int, column as int, 64);
                    assert(col_of(vx, x_pos as int) == column as int);
                    assert(((font >> shift) & 1u8) == 0u8 || ((font >> shift) & 1u8) == 1u8)
                        by (bit_vector);
                    assert(pixel == sprite_bit(font, column as int));
                    assert(!draw_covered(vx, vy, row as int, column as int, x_pos as int,
                        y_pos as int));
                    assert(cur == self.gfx@[x_pos as int]@[y_pos as int]);
                    assert(self.gfx.deep_view()[x_pos as int] == self.gfx@[x_pos as int]@);
                    lemma_draw_gfx_upto_index(s0, vx, vy, row as int, column as int,
                        x_pos as int, y_pos as int);
                    assert(cur == s0.gfx[x_pos as int][y_pos as int]);
                }

                if pixel && cur {
                    self.registers[0xF] = 1;
                }
                strip[y_pos] = cur ^ pixel;
                self.gfx[x_pos] = strip;

                proof {
                    lemma_gfx_deep_view(self.gfx);
                    let r = row as int;
                    let c = column as int;
                    assert forall|px: int, py: int| 0 <= px < 64 && 0 <= py < 32 implies
                        self.gfx.deep_view()[px][py] == draw_gfx_upto(s0, vx, vy, r, c + 1)[px][py]
                    by {
                        lemma_draw_gfx_upto_index(s0, vx, vy, r, c, px, py);
                        lemma_draw_gfx_upto_index(s0, vx, vy, r, c + 1, px, py);
                        if px == x_pos as int && py == y_pos as int {
                            assert(self.gfx.deep_view()[px][py] == (cur ^ pixel));
                        } else {
                            if col_of(vx, px) == c && row_of(vy, py) == r {
                                lemma_offset_unique(vx as int, c, px, 64);
                                lemma_offset_unique(vy as int, r, py, 32);
                            }
                            assert(self.gfx.deep_view()[px][py] == pre.gfx[px][py]);
                            assert(pre.gfx[px][py] == draw_gfx_upto(s0, vx, vy, r, c)[px][py]);
                            assert(draw_covered(vx, vy, r, c + 1, px, py) == draw_covered(
                                vx, vy, r, c, px, py));
                        }
                    }
                    assert(self.gfx.deep_view() =~~= draw_gfx_upto(s0, vx, vy, r, c + 1));

                    if pixel && cur {
                        assert(sprite_bit(sprite_row(s0, r), c) && s0.gfx[(vx + c) % 64][(vy
                            + r) % 32]);
                        assert(draw_collision_upto(s0, vx, vy, r, c + 1));
                    } else {
                        assert(draw_collision_upto(s0, vx, vy, r, c + 1) == draw_collision_upto(
                            s0, vx, vy, r, c)) by {
                            if draw_collision_upto(s0, vx, vy, r, c + 1) {
                                let (rr, cc) = choose|rr: int, cc: int|
                                    0 <= rr && 0 <= cc < 8 && (rr < r || (rr == r && cc < c + 1))
                                        && #[trigger] sprite_bit(sprite_row(s0, rr), cc)
                                        && s0.gfx[(vx + cc) % 64][(vy + rr) % 32];
                                if rr == r && cc == c {
                                    assert(false);
                                } else {
                                    assert(draw_collision_upto(s0, vx, vy, r, c));
                                }
                            }
                        }
                    }
                }
                column += 1;
            }
            proof {
                let r = row as int;
                assert(draw_gfx_upto(s0, vx, vy, r, 8) =~~= draw_gfx_upto(s0, vx, vy, r + 1, 0));
                assert(draw_collision_upto(s0, vx, vy, r, 8) == draw_collision_upto(s0, vx, vy,
                    r + 1, 0));
            }
            row += 1;
        }

        proof {
            let n = rows as int;
            assert(draw_gfx_upto(s0, vx, vy, n, 0) =~~= draw_gfx(s0, vx, vy, n));
            assert(draw_collision_upto(s0, vx, vy, n, 0) == draw_collision(s0, vx, vy, n));
            assert(self@ =~~= step_draw(s0, x as int, y as int, rows as int));
        }
    }

    /// FX55: store V0..VX inclusive to memory starting at I; I is untouched.
    fn op_fx55(&mut self, x: u8)
        requires
            x < 16,
        ensures
            final(self)@ == step_store_regs(old(self)@, x as int),
    {
        let dl = x + 1;
        let mut idx: usize = 0;
        while idx < dl as usize
            invariant
                x < 16,
                dl == x + 1,
                idx <= x + 1,
                forall|a: int| 0 <= a < 4096 ==> #[trigger] self.memory@[a] == ({
                    let k = (a - old(self)@.i_register as int) % 4096;
                    if k < idx { old(self)@.registers[k] } else { old(self)@.memory[a] }
                }),
                self@ == (Machine { memory: self@.memory, ..old(self)@ }),
            decreases dl as int - idx,
        {
            let reg_val = self.registers[idx];
            let a0 = (self.i_register as usize + idx) % 4096;
            proof {
                lemma_offset_mod(old(self)@.i_register as int, idx as int, 4096);
            }
            self.memory[a0] = reg_val;
            proof {
                assert forall|a: int| 0 <= a < 4096 implies #[trigger] self.memory@[a] == ({
                    let k = (a - old(self)@.i_register as int) % 4096;
                    if k < idx + 1 { old(self)@.registers[k] } else { old(self)@.memory[a] }
                }) by {
                    if a != a0 && (a - old(self)@.i_register as int) % 4096 == idx {
                        lemma_offset_unique(old(self)@.i_register as int, idx as int, a, 4096);
                    }
                }
            }
            idx += 1;
        }
        proof {
            assert(self@.memory =~= step_store_regs(old(self)@, x as int).memory);
            assert(self@ =~~= step_store_regs(old(self)@, x as int));
        }
    }

    /// FX65: fill V0..VX inclusive from memory starting at I.
    fn op_fx65(&mut self, x: u8)
        requires
            x < 16,
        ensures
            final(self)@ == step_load_regs(old(self)@, x as int),
    {
        let dl = x + 1;
        let mut idx: usize = 0;
        while idx < dl as usize
            invariant
                x < 16,
                dl == x + 1,
                idx <= x + 1,
                forall|r: int| 0 <= r < 16 ==> #[trigger] self.registers@[r] == (
                    if r < idx {
                        old(self)@.memory[(old(self)@.i_register + r) % 4096]
                    } else {
                        old(self)@.registers[r]
                    }),
                self@ == (Machine { registers: self@.registers, ..old(self)@ }),
            decreases dl as int - idx,
        {
            let a0 = (self.i_register as usize + idx) % 4096;
            let i_val = self.memory[a0];
            self.registers[idx] = i_val;
            idx += 1;
        }
        proof {
            assert(self@.registers =~= step_load_regs(old(self)@, x as int).registers);
            assert(self@ =~~= step_load_regs(old(self)@, x as int));
        }
    }

    /// Execute the instruction in the opcode latch: field extraction, then
    /// dispatch on the instruction family. An unrecognized word or a return
    /// on an empty stack is a fatal error and leaves the state unchanged.
    /// `rnd` in the contract is the byte the random source produced; every
    /// family but random-AND ignores it.
    #[verifier::rlimit(100)]
    pub fn execute_opcode(&mut self) -> (r: Result<(), CpuError>)
        requires
            old(self)@.wf(),
        ensures
            final(self)@.wf(),
            exists|rnd: u8| (final(self)@, r) == spec_execute(old(self)@, rnd),
            op_family(old(self)@.opcode) != 0xC000 ==> (final(self)@, r) == spec_execute(
                old(self)@,
                0u8,
            ),
    {
        let op = self.opcode;
        let nibble = op & 0xF000;
        let x: u8 = ((op & 0x0F00) >> 8u16) as u8;
        let y: u8 = ((op & 0x00F0) >> 4u16) as u8;
        let nn: u8 = (op & 0x00FF) as u8;
        let nnn: u16 = op & 0x0FFF;
        let n: u8 = (op & 0x000F) as u8;

        proof {
            lemma_field_bounds(op);
            assert(x as int == op_x(op) as int && x < 16);
            assert(y as int == op_y(op) as int && y < 16);
            assert(nn == op_nn(op) as u8);
            assert(nnn == op_nnn(op));
            assert(n as int == op_n(op) as int && n < 16);
            assert((op & 0xF000) == 0x0000 || (op & 0xF000) == 0x1000 || (op & 0xF000) == 0x2000
                || (op & 0xF000) == 0x3000 || (op & 0xF000) == 0x4000 || (op & 0xF000) == 0x5000
                || (op & 0xF000) == 0x6000 || (op & 0xF000) == 0x7000 || (op & 0xF000) == 0x8000
                || (op & 0xF000) == 0x9000 || (op & 0xF000) == 0xA000 || (op & 0xF000) == 0xB000
                || (op & 0xF000) == 0xC000 || (op & 0xF000) == 0xD000 || (op & 0xF000) == 0xE000
                || (op & 0xF000) == 0xF000) by (bit_vector);
        }

        let r: Result<(), CpuError> = match nibble {
            0x0000 => {
                if nnn == 0x00E0 {
                    self.op_00e0();
                    Ok(())
                } else if nnn == 0x00EE {
                    if self.stack.len() == 0 {
                        Err(CpuError::StackUnderflow {
                            program_counter: self.program_counter,
                            opcode: self.opcode,
                        })
                    } else {
                        self.op_00ee();
                        Ok(())
                    }
                } else {
                    self.op_0nnn(nnn);
                    Ok(())
                }
            },
            0x1000 => {
                self.op_1nnn(nnn);
                Ok(())
            },
            0x2000 => {
                self.op_2nnn(nnn);
                Ok(())
            },
            0x3000 => {
                self.op_3xnn(x, nn);
                Ok(())
            },
            0x4000 => {
                self.op_4xnn(x, nn);
                Ok(())
            },
            0x5000 => {
                self.op_5xy0(x, y);
                Ok(())
            },
            0x6000 => {
                self.op_6xnn(x, nn);
                Ok(())
            },
            0x7000 => {
                self.op_7xnn(x, nn);
                Ok(())
            },
            0x8000 => match op & 0xF00F {
                0x8000 => {
                    self.op_8xy0(x, y);
                    Ok(())
                },
                0x8001 => {
                    self.op_8xy1(x, y);
                    Ok(())
                },
                0x8002 => {
                    self.op_8xy2(x, y);
                    Ok(())
                },
                0x8003 => {
                    self.op_8xy3(x, y);
                    Ok(())
                },
                0x8004 => {
                    self.op_8xy4(x, y);
                    Ok(())
                },
                0x8005 => {
                    self.op_8xy5(x, y);
                    Ok(())
                },
                0x8006 => {
                    self.op_8xy6(x, y);
                    Ok(())
                },
                0x8007 => {
                    self.op_8xy7(x, y);
                    Ok(())
                },
                0x800E => {
                    self.op_8xye(x, y);
                    Ok(())
                },
                _ => Err(self.op_ni()),
            },
            0x9000 => {
                self.op_9xy0(x, y);
                Ok(())
            },
            0xA000 => {
                self.op_annn(nnn);
                Ok(())
            },
            0xB000 => {
                self.op_bnnn(nnn);
                Ok(())
            },
            0xC000 => {
                self.op_cxnn(x, nn);
                Ok(())
            },
            0xD000 => {
                self.op_dxyn(x as usize, y as usize, n as usize);
                Ok(())
            },
            0xE000 => match op & 0xF0FF {
                0xE09E => {
                    self.op_ex9e(x);
                    Ok(())
                },
                0xE0A1 => {
                    self.op_exa1(x);
                    Ok(())
                },
                _ => Err(self.op_ni()),
            },
            0xF000 => match op & 0xF0FF {
                0xF007 => {
                    self.op_fx07(x);
                    Ok(())
                },
                0xF00A => {
                    self.op_fx0a(x);
                    Ok(())
                },
                0xF018 => {
                    self.op_fx18(x);
                    Ok(())
                },
                0xF01E => {
                    self.op_fx1e(x);
                    Ok(())
                },
                0xF015 => {
                    self.op_fx15(x);
                    Ok(())
                },
                0xF029 => {
                    self.op_fx29(x);
                    Ok(())
                },
                0xF033 => {
                    self.op_fx33(x);
                    Ok(())
                },
                0xF055 => {
                    self.op_fx55(x);
                    Ok(())
                },
                0xF065 => {
                    self.op_fx65(x);
                    Ok(())
                },
                _ => Err(self.op_ni()),
            },
            _ => Err(self.op_ni()),
        };

        proof {
            lemma_gfx_deep_view(self.gfx);
            assert(self@.wf());
            if nibble == 0xC000 {
                let rnd = choose|rnd: u8|
                    self@ == #[trigger] step_rand(old(self)@, x as int, nn, rnd);
                assert(x as int == op_x(op) as int && nn == op_nn(op) as u8);
                assert((self@, r) == spec_execute(old(self)@, rnd));
            } else {
                assert((self@, r) == spec_execute(old(self)@, 0u8));
            }
        }

        r
    }

    /// One cycle: timers decay, a pending key wait resolves or stalls, and
    /// otherwise one instruction is fetched at the program counter and
    /// executed.
    pub fn do_cycle(&mut self) -> (r: Result<(), CpuError>)
        requires
            old(self)@.wf(),
        ensures
            final(self)@.wf(),
            exists|rnd: u8| (final(self)@, r) == spec_cycle(old(self)@, rnd),
            (old(self)@.waiting_for_key is Some) ==> (final(self)@, r) == spec_cycle(
                old(self)@,
                0u8,
            ),
            (old(self)@.waiting_for_key is None) && op_family(
                spec_fetch(tick_timers(old(self)@)).opcode,
            ) != 0xC000 ==> (final(self)@, r) == spec_cycle(old(self)@, 0u8),
    {
        if self.sound_timer > 0 {
            self.sound_timer = self.sound_timer - 1;
        }

        if self.delay_timer > 0 {
            self.delay_timer = self.delay_timer - 1;
        }

        proof {
            assert(self@ == tick_timers(old(self)@));
        }

        if let Some(reg) = self.waiting_for_key {
            if let Some(key) = self.key_press {
                self.registers[reg as usize] = key;
                self.waiting_for_key = None;
                self.program_counter = self.program_counter.wrapping_add(2);
                proof {
                    assert((self@, Ok::<(), CpuError>(())) == spec_cycle(old(self)@, 0u8));
                }
            } else {
                proof {
                    assert((self@, Ok::<(), CpuError>(())) == spec_cycle(old(self)@, 0u8));
                }
            }
            return Ok(());
        }

        self.fetch_opcode(self.program_counter as usize);
        let ghost mid = self@;
        proof {
            lemma_gfx_deep_view(self.gfx);
            assert(mid.wf());
            assert(mid == spec_fetch(tick_timers(old(self)@)));
        }
        let r = self.execute_opcode();
        proof {
            let rnd = choose|rnd: u8| (self@, r) == #[trigger] spec_execute(mid, rnd);
            assert((self@, r) == spec_cycle(old(self)@, rnd));
        }
        r
    }

    /// Latch a key press, or a release when `key` is `None`.
    pub fn press_key(&mut self, key: Option<u8>)
        ensures
            final(self)@ == (Machine { key_press: key, ..old(self)@ }),
            old(self)@.wf() ==> final(self)@.wf(),
    {
        self.key_press = key;
    }

    /// Whether the key with the given code is currently pressed.
    fn is_key_press(&self, key_code: u8) -> (r: bool)
        ensures
            r == (self@.key_press == Some(key_code)),
    {
        if let Some(key) = self.key_press {
            key == key_code
        } else {
            false
        }
    }
}

} // verus!
