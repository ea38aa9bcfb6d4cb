use vstd::prelude::*;
use rand::rngs::ThreadRng;
use crate::decode::decode;
use crate::error::{Fault, CycleError, LoadError};
use crate::model::{
    Machine, SLOTS, FLAG, CELLS, MEMORY_SIZE, WIDTH, HEIGHT, with_reg, with_reg_flag, skip_if, with_pc,
    pressed, any_pressed, lowest_pressed, stored_bcd, stored_regs, loaded_regs,
    exec_spec, agrees, lemma_exec_wf, font, initial_memory, initial_machine, rom_loaded,
    cycle_spec, PROGRAM_START, MAX_ROM_LEN, FONT_LEN,
    cleared, drawn, collides, draw_x0, draw_y0, sprite_covers, drawn_before, lemma_sprite_cell,
};

verus! {

#[verifier::external_type_specification]
#[verifier::external_body]
pub struct ExThreadRng(ThreadRng);

/// Relies on rand::thread_rng: a handle to this thread's random generator.
#[verifier::external_body]
fn new_rng() -> (r: ThreadRng) {
    rand::thread_rng()
}

/// Relies on rand::Rng::gen_range over `0..=255`: any byte may come back.
#[verifier::external_body]
fn rand_byte(rng: &mut ThreadRng) -> (r: u8) {
    rand::Rng::gen_range(rng, 0..=255u8)
}

/// A CHIP-8 machine: memory, registers, timers, return stack, keypad and
/// display, and the random generator that `Cxkk` draws from.
pub struct Chip {
    pub memory: Vec<u8>,
    pub general_purpose_reg: Vec<u8>,
    pub i_reg: u16,
    pub delay_reg: u8,
    pub audio_reg: u8,
    pub program_counter: u16,
    pub stack_pointer: u8,
    pub stack: Vec<u16>,
    /// A key is pressed when its slot holds 1.
    pub keyboard: Vec<u16>,
    /// One cell per pixel, row by row, each 0 or 1.
    pub video: Vec<u32>,
    pub rng: ThreadRng,
}

impl View for Chip {
    type V = Machine;

    open spec fn view(&self) -> Machine {
        Machine {
            memory: self.memory@,
            registers: self.general_purpose_reg@,
            index: self.i_reg,
            delay: self.delay_reg,
            sound: self.audio_reg,
            pc: self.program_counter,
            sp: self.stack_pointer,
            stack: self.stack@,
            keypad: self.keyboard@,
            display: self.video@,
        }
    }
}

impl Chip {
    pub open spec fn wf(&self) -> bool {
        self@.wf()
    }

    // ---- single operations; the program counter already points past them ----

    fn set_reg(&mut self, x: usize, v: u8)
        requires
            old(self).wf(),
            x < SLOTS,
        ensures
            final(self)@ == with_reg(old(self)@, x as int, v),
    {
        self.general_purpose_reg.set(x, v);
    }

    fn set_reg_flag(&mut self, x: usize, v: u8, flag: u8)
        requires
            old(self).wf(),
            x < SLOTS,
        ensures
            final(self)@ == with_reg_flag(old(self)@, x as int, v, flag),
    {
        self.general_purpose_reg.set(x, v);
        self.general_purpose_reg.set(FLAG, flag);
    }

    fn skip_if(&mut self, cond: bool)
        ensures
            final(self)@ == skip_if(old(self)@, cond),
    {
        if cond {
            self.program_counter = self.program_counter.wrapping_add(2);
        }
    }

    fn clear_display(&mut self)
        requires
            old(self).wf(),
        ensures
            final(self)@ == cleared(old(self)@),
    {
        let ghost s0 = self@;
        let mut i: usize = 0;
        while i < CELLS
            invariant
                0 <= i <= CELLS,
                self.video@.len() == CELLS,
                self@ == (Machine { display: self.video@, ..s0 }),
                forall|c: int| 0 <= c < i ==> self.video@[c] == 0,
            decreases CELLS - i,
        {
            self.video.set(i, 0);
            i += 1;
        }
        assert(self.video@ =~= cleared(s0).display);
    }

    fn ret(&mut self) -> (r: Result<(), Fault>)
        requires
            old(self).wf(),
        ensures
            old(self).stack_pointer == 0 ==> r == Err::<(), Fault>(Fault::StackUnderflow)
                && final(self)@ == old(self)@,
            old(self).stack_pointer > 0 ==> r is Ok && final(self)@ == (Machine {
                sp: (old(self).stack_pointer - 1) as u8,
                pc: old(self)@.stack[old(self).stack_pointer - 1],
                ..old(self)@
            }),
    {
        if self.stack_pointer == 0 {
            return Err(Fault::StackUnderflow);
        }
        self.stack_pointer -= 1;
        self.program_counter = self.stack[self.stack_pointer as usize];
        Ok(())
    }

    fn jmp_addr(&mut self, nnn: u16)
        ensures
            final(self)@ == (Machine { pc: nnn, ..old(self)@ }),
    {
        self.program_counter = nnn;
    }

    fn call_addr(&mut self, nnn: u16) -> (r: Result<(), Fault>)
        requires
            old(self).wf(),
        ensures
            old(self).stack_pointer >= SLOTS ==> r == Err::<(), Fault>(Fault::StackOverflow)
                && final(self)@ == old(self)@,
            old(self).stack_pointer < SLOTS ==> r is Ok && final(self)@ == (Machine {
                stack: old(self)@.stack.update(old(self).stack_pointer as int, old(self).program_counter),
                sp: (old(self).stack_pointer + 1) as u8,
                pc: nnn,
                ..old(self)@
            }),
    {
        if self.stack_pointer as usize >= SLOTS {
            return Err(Fault::StackOverflow);
        }
        self.stack.set(self.stack_pointer as usize, self.program_counter);
        self.stack_pointer += 1;
        self.program_counter = nnn;
        Ok(())
    }

    fn op_dxyn(&mut self, vx: usize, vy: usize, n: u16)
        requires
            old(self).wf(),
            vx < SLOTS,
            vy < SLOTS,
            n < 16,
            old(self).i_reg + n <= MEMORY_SIZE,
        ensures
            final(self)@ == drawn(old(self)@, vx as int, vy as int, n as int),
    {
        let ghost s0 = self@;
        let xpos = (self.general_purpose_reg[vx] % 64) as usize;
        let ypos = (self.general_purpose_reg[vy] % 32) as usize;
        let ghost x0 = xpos as int;
        let ghost y0 = ypos as int;
        let rows = n as usize;
        let base = self.i_reg as usize;
        let mut flag: u8 = 0;
        let mut row: usize = 0;
        while row < rows
            invariant
                s0.wf(),
                0 <= row <= rows,
                rows == n,
                rows < 16,
                base == s0.index,
                base + rows <= MEMORY_SIZE,
                x0 == draw_x0(s0, vx as int),
                y0 == draw_y0(s0, vy as int),
                xpos == x0,
                ypos == y0,
                self.video@.len() == CELLS,
                self@ == (Machine { display: self.video@, ..s0 }),
                forall|c: int|
                    0 <= c < CELLS ==> #[trigger] self.video@[c] == if drawn_before(c, x0, y0, row as int, 0)
                        && sprite_covers(s0, x0, y0, n as int, c) {
                        s0.display[c] ^ 1u32
                    } else {
                        s0.display[c]
                    },
                flag == 0 || flag == 1,
                (flag == 1) == exists|c: int|
                    0 <= c < CELLS && drawn_before(c, x0, y0, row as int, 0)
                        && #[trigger] sprite_covers(s0, x0, y0, n as int, c) && s0.display[c] == 1,
            decreases rows - row,
        {
            let y = (ypos + row) % 32;
            let sprite_byte = self.memory[base + row];
            let mut bit: u8 = 0;
            while bit < 8
                invariant
                    s0.wf(),
                    0 <= row < rows,
                    rows == n,
                    rows < 16,
                    base == s0.index,
                    base + rows <= MEMORY_SIZE,
                    0 <= bit <= 8,
                    xpos == x0,
                    ypos == y0,
                    0 <= x0 < WIDTH,
                    0 <= y0 < HEIGHT,
                    y == (y0 + row) % HEIGHT as int,
                    sprite_byte == s0.memory[base + row],
                    self.video@.len() == CELLS,
                    self@ == (Machine { display: self.video@, ..s0 }),
                    forall|c: int|
                        0 <= c < CELLS ==> #[trigger] self.video@[c] == if drawn_before(c, x0, y0, row as int, bit as int)
                            && sprite_covers(s0, x0, y0, n as int, c) {
                            s0.display[c] ^ 1u32
                        } else {
                            s0.display[c]
                        },
                    flag == 0 || flag == 1,
                    (flag == 1) == exists|c: int|
                        0 <= c < CELLS && drawn_before(c, x0, y0, row as int, bit as int)
                            && #[trigger] sprite_covers(s0, x0, y0, n as int, c) && s0.display[c] == 1,
                decreases 8 - bit,
            {
                let x = (xpos + bit as usize) % 64;
                let shift: u8 = 7 - bit;
                let pixel: u8 = (sprite_byte >> shift) & 1;
                let pos = y * 64 + x;
                proof {
                    lemma_sprite_cell(x0, y0, row as int, bit as int, pos as int);
                    assert(pixel <= 1) by (bit_vector)
                        requires pixel == (sprite_byte >> shift) & 1;
                    assert((pixel == 1) == sprite_covers(s0, x0, y0, n as int, pos as int));
                }
                let cell = self.video[pos];
                if pixel == 1 && cell == 1 {
                    flag = 1;
                }
                let ghost prev = self.video@;
                self.video.set(pos, cell ^ (pixel as u32));
                proof {
                    let p32 = pixel as u32;
                    assert(cell ^ 0u32 == cell) by (bit_vector);
                    assert(p32 == 0 || p32 == 1);
                    assert forall|c: int| 0 <= c < CELLS implies #[trigger] self.video@[c] == if drawn_before(c, x0, y0, row as int, bit + 1)
                        && sprite_covers(s0, x0, y0, n as int, c) {
                        s0.display[c] ^ 1u32
                    } else {
                        s0.display[c]
                    } by {
                        if c != pos {
                            assert(prev[c] == self.video@[c]);
                        }
                    }
                    let step = exists|c: int|
                        0 <= c < CELLS && drawn_before(c, x0, y0, row as int, bit + 1)
                            && #[trigger] sprite_covers(s0, x0, y0, n as int, c) && s0.display[c] == 1;
                    if flag == 1 {
                        if pixel == 1 && cell == 1 {
                            assert(sprite_covers(s0, x0, y0, n as int, pos as int));
                        }
                        assert(step);
                    }
                    if step {
                        let c = choose|c: int|
                            0 <= c < CELLS && drawn_before(c, x0, y0, row as int, bit + 1)
                                && #[trigger] sprite_covers(s0, x0, y0, n as int, c) && s0.display[c] == 1;
                        if c != pos {
                            assert(drawn_before(c, x0, y0, row as int, bit as int));
                        }
                        assert(flag == 1);
                    }
                }
                bit += 1;
            }
            proof {
                assert forall|c: int| 0 <= c < CELLS && #[trigger] sprite_covers(s0, x0, y0, n as int, c) implies
                    drawn_before(c, x0, y0, row as int, 8) == drawn_before(c, x0, y0, row + 1, 0) by {}
            }
            row += 1;
        }
        proof {
            assert forall|c: int| 0 <= c < CELLS && #[trigger] sprite_covers(s0, x0, y0, n as int, c) implies
                drawn_before(c, x0, y0, n as int, 0) by {}
        }
        self.general_purpose_reg.set(FLAG, flag);
        proof {
            let t = drawn(s0, vx as int, vy as int, n as int);
            assert(self.video@ =~= t.display);
            assert((flag == 1) == collides(s0, vx as int, vy as int, n as int));
        }
    }
    fn op_3xkk(&mut self, vx: usize, constant: u8)
        requires
            old(self).wf(),
            vx < SLOTS,
        ensures
            final(self)@ == skip_if(old(self)@, old(self)@.registers[vx as int] == constant),
    {
        let eq = self.general_purpose_reg[vx] == constant;
        self.skip_if(eq);
    }

    fn op_4xkk(&mut self, vx: usize, constant: u8)
        requires
            old(self).wf(),
            vx < SLOTS,
        ensures
            final(self)@ == skip_if(old(self)@, old(self)@.registers[vx as int] != constant),
    {
        let ne = self.general_purpose_reg[vx] != constant;
        self.skip_if(ne);
    }

    fn op_5xy0(&mut self, vx: usize, vy: usize)
        requires
            old(self).wf(),
            vx < SLOTS,
            vy < SLOTS,
        ensures
            final(self)@ == skip_if(old(self)@, old(self)@.registers[vx as int] == old(self)@.registers[vy as int]),
    {
        let eq = self.general_purpose_reg[vx] == self.general_purpose_reg[vy];
        self.skip_if(eq);
    }

    fn op_6xkk(&mut self, vx: usize, constant: u8)
        requires
            old(self).wf(),
            vx < SLOTS,
        ensures
            final(self)@ == with_reg(old(self)@, vx as int, constant),
    {
        self.set_reg(vx, constant);
    }

    fn op_7xkk(&mut self, vx: usize, constant: u8)
        requires
            old(self).wf(),
            vx < SLOTS,
        ensures
            final(self)@ == with_reg(old(self)@, vx as int, ((old(self)@.registers[vx as int] + constant) % 256) as u8),
    {
        let result = self.general_purpose_reg[vx].wrapping_add(constant);
        self.set_reg(vx, result);
    }

    fn op_8xy0(&mut self, vx: usize, vy: usize)
        requires
            old(self).wf(),
            vx < SLOTS,
            vy < SLOTS,
        ensures
            final(self)@ == with_reg(old(self)@, vx as int, old(self)@.registers[vy as int]),
    {
        let v = self.general_purpose_reg[vy];
        self.set_reg(vx, v);
    }

    fn op_8xy1(&mut self, vx: usize, vy: usize)
        requires
            old(self).wf(),
            vx < SLOTS,
            vy < SLOTS,
        ensures
            final(self)@ == with_reg(old(self)@, vx as int, old(self)@.registers[vx as int] | old(self)@.registers[vy as int]),
    {
        let v = self.general_purpose_reg[vx] | self.general_purpose_reg[vy];
        self.set_reg(vx, v);
    }

    fn op_8xy2(&mut self, vx: usize, vy: usize)
        requires
            old(self).wf(),
            vx < SLOTS,
            vy < SLOTS,
        ensures
            final(self)@ == with_reg(old(self)@, vx as int, old(self)@.registers[vx as int] & old(self)@.registers[vy as int]),
    {
        let v = self.general_purpose_reg[vx] & self.general_purpose_reg[vy];
        self.set_reg(vx, v);
    }

    fn op_8xy3(&mut self, vx: usize, vy: usize)
        requires
            old(self).wf(),
            vx < SLOTS,
            vy < SLOTS,
        ensures
            final(self)@ == with_reg(old(self)@, vx as int, old(self)@.registers[vx as int] ^ old(self)@.registers[vy as int]),
    {
        let v = self.general_purpose_reg[vx] ^ self.general_purpose_reg[vy];
        self.set_reg(vx, v);
    }

    fn op_8xy4(&mut self, vx: usize, vy: usize)
        requires
            old(self).wf(),
            vx < SLOTS,
            vy < SLOTS,
        ensures
            ({
                let a = old(self)@.registers[vx as int];
                let b = old(self)@.registers[vy as int];
                final(self)@ == with_reg_flag(old(self)@, vx as int, ((a + b) % 256) as u8, if a + b > 255 { 1 } else { 0 })
            }),
    {
        let a = self.general_purpose_reg[vx];
        let b = self.general_purpose_reg[vy];
        let result = a.wrapping_add(b);
        let overflow = a as u16 + b as u16 > 255;
        self.set_reg_flag(vx, result, if overflow { 1 } else { 0 });
    }

    fn op_8xy5(&mut self, vx: usize, vy: usize)
        requires
            old(self).wf(),
            vx < SLOTS,
            vy < SLOTS,
        ensures
            ({
                let a = old(self)@.registers[vx as int];
                let b = old(self)@.registers[vy as int];
                final(self)@ == with_reg_flag(old(self)@, vx as int, ((a - b + 256) % 256) as u8, if a > b { 1 } else { 0 })
            }),
    {
        let a = self.general_purpose_reg[vx];
        let b = self.general_purpose_reg[vy];
        self.set_reg_flag(vx, a.wrapping_sub(b), if a > b { 1 } else { 0 });
    }

    fn op_8xy6(&mut self, vx: usize)
        requires
            old(self).wf(),
            vx < SLOTS,
        ensures
            ({
                let a = old(self)@.registers[vx as int];
                final(self)@ == with_reg_flag(old(self)@, vx as int, a / 2, a % 2)
            }),
    {
        let a = self.general_purpose_reg[vx];
        assert(a >> 1u8 == a / 2 && a & 1u8 == a % 2) by (bit_vector);
        self.set_reg_flag(vx, a >> 1u8, a & 1u8);
    }

    fn op_8xy7(&mut self, vx: usize, vy: usize)
        requires
            old(self).wf(),
            vx < SLOTS,
            vy < SLOTS,
        ensures
            ({
                let a = old(self)@.registers[vx as int];
                let b = old(self)@.registers[vy as int];
                final(self)@ == with_reg_flag(old(self)@, vx as int, ((b - a + 256) % 256) as u8, if b > a { 1 } else { 0 })
            }),
    {
        let a = self.general_purpose_reg[vx];
        let b = self.general_purpose_reg[vy];
        self.set_reg_flag(vx, b.wrapping_sub(a), if b > a { 1 } else { 0 });
    }

    fn op_8xye(&mut self, vx: usize)
        requires
            old(self).wf(),
            vx < SLOTS,
        ensures
            ({
                let a = old(self)@.registers[vx as int];
                final(self)@ == with_reg_flag(old(self)@, vx as int, ((a * 2) % 256) as u8, a / 128)
            }),
    {
        let a = self.general_purpose_reg[vx];
        let shifted = a << 1u8;
        assert(shifted == ((a as u16 * 2) % 256) as u8) by (bit_vector)
            requires shifted == a << 1u8;
        assert((a & 0x80u8) >> 7u8 == a / 128) by (bit_vector);
        self.set_reg_flag(vx, shifted, (a & 0x80u8) >> 7u8);
    }

    fn op_9xy0(&mut self, vx: usize, vy: usize)
        requires
            old(self).wf(),
            vx < SLOTS,
            vy < SLOTS,
        ensures
            final(self)@ == skip_if(old(self)@, old(self)@.registers[vx as int] != old(self)@.registers[vy as int]),
    {
        let ne = self.general_purpose_reg[vx] != self.general_purpose_reg[vy];
        self.skip_if(ne);
    }

    fn op_annn(&mut self, nnn: u16)
        ensures
            final(self)@ == (Machine { index: nnn, ..old(self)@ }),
    {
        self.i_reg = nnn;
    }

    fn op_bnnn(&mut self, nnn: u16)
        requires
            old(self).wf(),
            nnn < 0x1000,
        ensures
            final(self)@ == with_pc(old(self)@, nnn + old(self)@.registers[0]),
    {
        self.program_counter = nnn + self.general_purpose_reg[0] as u16;
    }

    fn op_cxkk(&mut self, vx: usize, constant: u8, random: u8)
        requires
            old(self).wf(),
            vx < SLOTS,
        ensures
            final(self)@ == with_reg(old(self)@, vx as int, random & constant),
    {
        self.set_reg(vx, random & constant);
    }
    fn op_ex9e(&mut self, vx: usize) -> (r: Result<(), Fault>)
        requires
            old(self).wf(),
            vx < SLOTS,
        ensures
            old(self)@.registers[vx as int] >= SLOTS ==> r == Err::<(), Fault>(Fault::KeyOutOfRange)
                && final(self)@ == old(self)@,
            old(self)@.registers[vx as int] < SLOTS ==> r is Ok
                && final(self)@ == skip_if(old(self)@, pressed(old(self)@, old(self)@.registers[vx as int] as int)),
    {
        let key = self.general_purpose_reg[vx] as usize;
        if key >= SLOTS {
            return Err(Fault::KeyOutOfRange);
        }
        let down = self.keyboard[key] == 1;
        self.skip_if(down);
        Ok(())
    }

    fn op_exa1(&mut self, vx: usize) -> (r: Result<(), Fault>)
        requires
            old(self).wf(),
            vx < SLOTS,
        ensures
            old(self)@.registers[vx as int] >= SLOTS ==> r == Err::<(), Fault>(Fault::KeyOutOfRange)
                && final(self)@ == old(self)@,
            old(self)@.registers[vx as int] < SLOTS ==> r is Ok
                && final(self)@ == skip_if(old(self)@, !pressed(old(self)@, old(self)@.registers[vx as int] as int)),
    {
        let key = self.general_purpose_reg[vx] as usize;
        if key >= SLOTS {
            return Err(Fault::KeyOutOfRange);
        }
        let up = self.keyboard[key] != 1;
        self.skip_if(up);
        Ok(())
    }

    fn op_fx07(&mut self, vx: usize)
        requires
            old(self).wf(),
            vx < SLOTS,
        ensures
            final(self)@ == with_reg(old(self)@, vx as int, old(self).delay_reg),
    {
        let v = self.delay_reg;
        self.set_reg(vx, v);
    }

    fn op_fx0a(&mut self, vx: usize)
        requires
            old(self).wf(),
            vx < SLOTS,
        ensures
            any_pressed(old(self)@) ==> final(self)@ == with_reg(
                old(self)@,
                vx as int,
                (choose|k: int| lowest_pressed(old(self)@, k)) as u8,
            ),
            !any_pressed(old(self)@) ==> final(self)@ == with_pc(old(self)@, old(self).program_counter + 0xFFFE),
    {
        let ghost s0 = self@;
        let mut k: usize = 0;
        while k < SLOTS
            invariant
                s0.wf(),
                s0 == old(self)@,
                self@ == s0,
                vx < SLOTS,
                0 <= k <= SLOTS,
                forall|j: int| 0 <= j < k ==> !#[trigger] pressed(s0, j),
            decreases SLOTS - k,
        {
            if self.keyboard[k] == 1 {
                proof {
                    assert(lowest_pressed(s0, k as int));
                    let c = choose|c: int| lowest_pressed(s0, c);
                    assert(c == k) by {
                        if c < k {
                            assert(!pressed(s0, c));
                        } else if c > k {
                            assert(!pressed(s0, k as int));
                        }
                    }
                }
                self.set_reg(vx, k as u8);
                return;
            }
            k += 1;
        }
        self.program_counter = self.program_counter.wrapping_sub(2);
    }

    fn op_fx15(&mut self, vx: usize)
        requires
            old(self).wf(),
            vx < SLOTS,
        ensures
            final(self)@ == (Machine { delay: old(self)@.registers[vx as int], ..old(self)@ }),
    {
        self.delay_reg = self.general_purpose_reg[vx];
    }

    fn op_fx18(&mut self, vx: usize)
        requires
            old(self).wf(),
            vx < SLOTS,
        ensures
            final(self)@ == (Machine { sound: old(self)@.registers[vx as int], ..old(self)@ }),
    {
        self.audio_reg = self.general_purpose_reg[vx];
    }

    fn op_fx1e(&mut self, vx: usize)
        requires
            old(self).wf(),
            vx < SLOTS,
        ensures
            final(self)@ == (Machine {
                index: ((old(self).i_reg + old(self)@.registers[vx as int]) % 0x10000) as u16,
                ..old(self)@
            }),
    {
        self.i_reg = self.i_reg.wrapping_add(self.general_purpose_reg[vx] as u16);
    }

    fn op_fx29(&mut self, vx: usize)
        requires
            old(self).wf(),
            vx < SLOTS,
        ensures
            final(self)@ == (Machine { index: (5 * old(self)@.registers[vx as int]) as u16, ..old(self)@ }),
    {
        let digit = self.general_purpose_reg[vx];
        self.i_reg = 5 * digit as u16;
    }

    fn op_fx33(&mut self, vx: usize) -> (r: Result<(), Fault>)
        requires
            old(self).wf(),
            vx < SLOTS,
        ensures
            old(self).i_reg + 3 > MEMORY_SIZE ==> r == Err::<(), Fault>(Fault::MemoryOutOfBounds)
                && final(self)@ == old(self)@,
            old(self).i_reg + 3 <= MEMORY_SIZE ==> r is Ok
                && final(self)@ == stored_bcd(old(self)@, old(self)@.registers[vx as int]),
    {
        let i = self.i_reg as usize;
        if i + 3 > MEMORY_SIZE {
            return Err(Fault::MemoryOutOfBounds);
        }
        let mut value = self.general_purpose_reg[vx];
        let ghost v = value;
        self.memory.set(i + 2, value % 10);
        value /= 10;
        self.memory.set(i + 1, value % 10);
        value /= 10;
        self.memory.set(i, value % 10);
        proof {
            assert(v / 10 / 10 % 10 == v / 100);
            assert(self.memory@ =~= stored_bcd(old(self)@, v).memory);
        }
        Ok(())
    }

    fn op_fx55(&mut self, vx: usize) -> (r: Result<(), Fault>)
        requires
            old(self).wf(),
            vx < SLOTS,
        ensures
            old(self).i_reg + vx + 1 > MEMORY_SIZE ==> r == Err::<(), Fault>(Fault::MemoryOutOfBounds)
                && final(self)@ == old(self)@,
            old(self).i_reg + vx + 1 <= MEMORY_SIZE ==> r is Ok
                && final(self)@ == stored_regs(old(self)@, vx as int),
    {
        let base = self.i_reg as usize;
        if base + vx + 1 > MEMORY_SIZE {
            return Err(Fault::MemoryOutOfBounds);
        }
        let ghost s0 = self@;
        let mut i: usize = 0;
        while i <= vx
            invariant
                s0.wf(),
                0 <= i <= vx + 1,
                vx < SLOTS,
                base == s0.index,
                base + vx + 1 <= MEMORY_SIZE,
                self.memory@.len() == MEMORY_SIZE,
                self@ == (Machine { memory: self.memory@, ..s0 }),
                forall|a: int|
                    0 <= a < MEMORY_SIZE ==> #[trigger] self.memory@[a] == if base <= a < base + i {
                        s0.registers[a - base]
                    } else {
                        s0.memory[a]
                    },
            decreases vx + 1 - i,
        {
            let v = self.general_purpose_reg[i];
            self.memory.set(base + i, v);
            i += 1;
        }
        assert(self.memory@ =~= stored_regs(s0, vx as int).memory);
        Ok(())
    }

    fn op_fx65(&mut self, vx: usize) -> (r: Result<(), Fault>)
        requires
            old(self).wf(),
            vx < SLOTS,
        ensures
            old(self).i_reg + vx + 1 > MEMORY_SIZE ==> r == Err::<(), Fault>(Fault::MemoryOutOfBounds)
                && final(self)@ == old(self)@,
            old(self).i_reg + vx + 1 <= MEMORY_SIZE ==> r is Ok
                && final(self)@ == loaded_regs(old(self)@, vx as int),
    {
        let base = self.i_reg as usize;
        if base + vx + 1 > MEMORY_SIZE {
            return Err(Fault::MemoryOutOfBounds);
        }
        let ghost s0 = self@;
        let mut i: usize = 0;
        while i <= vx
            invariant
                s0.wf(),
                0 <= i <= vx + 1,
                vx < SLOTS,
                base == s0.index,
                base + vx + 1 <= MEMORY_SIZE,
                self.general_purpose_reg@.len() == SLOTS,
                self@ == (Machine { registers: self.general_purpose_reg@, ..s0 }),
                forall|r: int|
                    0 <= r < SLOTS ==> #[trigger] self.general_purpose_reg@[r] == if r < i {
                        s0.memory[base + r]
                    } else {
                        s0.registers[r]
                    },
            decreases vx + 1 - i,
        {
            let v = self.memory[base + i];
            self.general_purpose_reg.set(i, v);
            i += 1;
        }
        assert(self.general_purpose_reg@ =~= loaded_regs(s0, vx as int).registers);
        Ok(())
    }
    /// Carries out one instruction on a state whose program counter already
    /// points past it. `random` is the byte that `Cxkk` masks. On a fault
    /// the state is left as it was.
    pub fn execute_opcode(&mut self, opcode: u16, random: u8) -> (r: Result<(), Fault>)
        requires
            old(self).wf(),
        ensures
            final(self).wf(),
            agrees(r, old(self)@, final(self)@, exec_spec(old(self)@, opcode, random)),
    {
        proof {
            reveal(exec_spec);
        }
        let f = decode(opcode);
        let vx = f.x as usize;
        let vy = f.y as usize;
        let kk = f.kk;
        let nnn = f.nnn;
        let n = f.n;
        let r = match f.category {
            0x0 => match kk {
                0xE0 => {
                    self.clear_display();
                    Ok(())
                },
                0xEE => self.ret(),
                _ => Err(Fault::UnknownOpcode),
            },
            0x1 => {
                self.jmp_addr(nnn);
                Ok(())
            },
            0x2 => self.call_addr(nnn),
            0x3 => {
                self.op_3xkk(vx, kk);
                Ok(())
            },
            0x4 => {
                self.op_4xkk(vx, kk);
                Ok(())
            },
            0x5 => {
                self.op_5xy0(vx, vy);
                Ok(())
            },
            0x6 => {
                self.op_6xkk(vx, kk);
                Ok(())
            },
            0x7 => {
                self.op_7xkk(vx, kk);
                Ok(())
            },
            0x8 => match n {
                0x0 => {
                    self.op_8xy0(vx, vy);
                    Ok(())
                },
                0x1 => {
                    self.op_8xy1(vx, vy);
                    Ok(())
                },
                0x2 => {
                    self.op_8xy2(vx, vy);
                    Ok(())
                },
                0x3 => {
                    self.op_8xy3(vx, vy);
                    Ok(())
                },
                0x4 => {
                    self.op_8xy4(vx, vy);
                    Ok(())
                },
                0x5 => {
                    self.op_8xy5(vx, vy);
                    Ok(())
                },
                0x6 => {
                    self.op_8xy6(vx);
                    Ok(())
                },
                0x7 => {
                    self.op_8xy7(vx, vy);
                    Ok(())
                },
                0xE => {
                    self.op_8xye(vx);
                    Ok(())
                },
                _ => Err(Fault::UnknownOpcode),
            },
            0x9 => {
                self.op_9xy0(vx, vy);
                Ok(())
            },
            0xA => {
                self.op_annn(nnn);
                Ok(())
            },
            0xB => {
                self.op_bnnn(nnn);
                Ok(())
            },
            0xC => {
                self.op_cxkk(vx, kk, random);
                Ok(())
            },
            0xD => {
                if self.i_reg as usize + n as usize > MEMORY_SIZE {
                    Err(Fault::MemoryOutOfBounds)
                } else {
                    self.op_dxyn(vx, vy, n);
                    Ok(())
                }
            },
            0xE => match kk {
                0x9E => self.op_ex9e(vx),
                0xA1 => self.op_exa1(vx),
                _ => Err(Fault::UnknownOpcode),
            },
            _ => match kk {
                0x07 => {
                    self.op_fx07(vx);
                    Ok(())
                },
                0x0A => {
                    self.op_fx0a(vx);
                    Ok(())
                },
                0x15 => {
                    self.op_fx15(vx);
                    Ok(())
                },
                0x18 => {
                    self.op_fx18(vx);
                    Ok(())
                },
                0x1E => {
                    self.op_fx1e(vx);
                    Ok(())
                },
                0x29 => {
                    self.op_fx29(vx);
                    Ok(())
                },
                0x33 => self.op_fx33(vx),
                0x55 => self.op_fx55(vx),
                0x65 => self.op_fx65(vx),
                _ => Err(Fault::UnknownOpcode),
            },
        };
        proof {
            if r is Ok {
                lemma_exec_wf(old(self)@, opcode, random);
            }
        }
        r
    }
    fn init_memory() -> (mem: Vec<u8>)
        ensures
            mem@ == initial_memory(),
    {
        let font_set: Vec<u8> = vec![
            0xF0, 0x90, 0x90, 0x90, 0xF0, // 0
            0x20, 0x60, 0x20, 0x20, 0x70, // 1
            0xF0, 0x10, 0xF0, 0x80, 0xF0, // 2
            0xF0, 0x10, 0xF0, 0x10, 0xF0, // 3
            0x90, 0x90, 0xF0, 0x10, 0x10, // 4
            0xF0, 0x80, 0xF0, 0x10, 0xF0, // 5
            0xF0, 0x80, 0xF0, 0x90, 0xF0, // 6
            0xF0, 0x10, 0x20, 0x40, 0x40, // 7
            0xF0, 0x90, 0xF0, 0x90, 0xF0, // 8
            0xF0, 0x90, 0xF0, 0x10, 0xF0, // 9
            0xF0, 0x90, 0xF0, 0x90, 0x90, // A
            0xE0, 0x90, 0xE0, 0x90, 0xE0, // B
            0xF0, 0x80, 0x80, 0x80, 0xF0, // C
            0xE0, 0x90, 0x90, 0x90, 0xE0, // D
            0xF0, 0x80, 0xF0, 0x80, 0xF0, // E
            0xF0, 0x80, 0xF0, 0x80, 0x80, // F
        ];
        assert(font_set@ =~= font());
        let mut mem: Vec<u8> = Vec::new();
        let mut i: usize = 0;
        while i < MEMORY_SIZE
            invariant
                0 <= i <= MEMORY_SIZE,
                font_set@ == font(),
                mem@.len() == i,
                forall|a: int| 0 <= a < i ==> #[trigger] mem@[a] == initial_memory()[a],
            decreases MEMORY_SIZE - i,
        {
            if i < FONT_LEN {
                mem.push(font_set[i]);
            } else {
                mem.push(0);
            }
            i += 1;
        }
        assert(mem@ =~= initial_memory());
        mem
    }

    /// Copies `rom` into memory from the program origin on. A ROM longer
    /// than the space there is refused and memory left untouched.
    pub fn load_rom(&mut self, rom: &[u8]) -> (r: Result<(), LoadError>)
        requires
            old(self).wf(),
        ensures
            final(self).wf(),
            agrees(r, old(self)@, final(self)@, rom_loaded(old(self)@, rom@)),
    {
        if rom.len() > MAX_ROM_LEN {
            return Err(LoadError::TooLarge { len: rom.len() });
        }
        let ghost s0 = self@;
        let origin = PROGRAM_START as usize;
        let mut idx: usize = 0;
        while idx < rom.len()
            invariant
                s0 == old(self)@,
                s0.wf(),
                rom.len() <= MAX_ROM_LEN,
                0 <= idx <= rom.len(),
                origin == PROGRAM_START,
                self.memory@.len() == MEMORY_SIZE,
                self@ == (Machine { memory: self.memory@, ..s0 }),
                forall|a: int|
                    0 <= a < MEMORY_SIZE ==> #[trigger] self.memory@[a] == if origin <= a < origin + idx {
                        rom@[a - origin]
                    } else {
                        s0.memory[a]
                    },
            decreases rom.len() - idx,
        {
            self.memory.set(origin + idx, rom[idx]);
            idx += 1;
        }
        assert(self.memory@ =~= rom_loaded(s0, rom@)->Ok_0.memory);
        Ok(())
    }

    /// One cycle with `random` as the byte that a `Cxkk` instruction masks:
    /// fetch the opcode at the program counter, advance it by 2, execute,
    /// then tick both timers. On an error the state is left as it was.
    pub fn cycle_with(&mut self, random: u8) -> (r: Result<(), CycleError>)
        requires
            old(self).wf(),
        ensures
            final(self).wf(),
            agrees(r, old(self)@, final(self)@, cycle_spec(old(self)@, random)),
    {
        let pc = self.program_counter;
        if pc as usize + 1 >= MEMORY_SIZE {
            return Err(CycleError::FetchOutOfBounds { address: pc });
        }
        let high = self.memory[pc as usize];
        let low = self.memory[pc as usize + 1];
        let opcode = ((high as u16) << 8u16) | (low as u16);
        assert(opcode == high * 0x100 + low) by (bit_vector)
            requires opcode == ((high as u16) << 8u16) | (low as u16);
        self.program_counter = pc + 2;
        match self.execute_opcode(opcode, random) {
            Ok(()) => {
                if self.delay_reg > 0 {
                    self.delay_reg -= 1;
                }
                if self.audio_reg > 0 {
                    self.audio_reg -= 1;
                }
                Ok(())
            },
            Err(fault) => {
                self.program_counter = pc;
                Err(CycleError::Execute { fault, opcode, address: pc })
            },
        }
    }

    /// One cycle, with a fresh random byte for a `Cxkk` instruction.
    pub fn cycle(&mut self) -> (r: Result<(), CycleError>)
        requires
            old(self).wf(),
        ensures
            final(self).wf(),
            exists|b: u8| agrees(r, old(self)@, final(self)@, #[trigger] cycle_spec(old(self)@, b)),
    {
        let random = rand_byte(&mut self.rng);
        let r = self.cycle_with(random);
        assert(agrees(r, old(self)@, self@, cycle_spec(old(self)@, random)));
        r
    }

    /// Whether the tone should sound: the sound timer is above zero.
    pub fn sound_on(&self) -> (r: bool)
        ensures
            r == (self.audio_reg > 0),
    {
        self.audio_reg > 0
    }

    /// Marks `key` as pressed or released.
    pub fn set_key(&mut self, key: usize, down: bool)
        requires
            old(self).wf(),
            key < SLOTS,
        ensures
            final(self).wf(),
            final(self)@ == (Machine {
                keypad: old(self)@.keypad.update(key as int, if down { 1u16 } else { 0u16 }),
                ..old(self)@
            }),
    {
        self.keyboard.set(key, if down { 1 } else { 0 });
    }
}

impl Default for Chip {
    /// A fresh machine: the font table loaded, everything else zero and the
    /// program counter at the program origin.
    fn default() -> (r: Chip)
        ensures
            r.wf(),
            r@ == initial_machine(),
    {
        let general_purpose_reg: Vec<u8> = vec![0; SLOTS];
        let stack: Vec<u16> = vec![0; SLOTS];
        let keyboard: Vec<u16> = vec![0; SLOTS];
        let video: Vec<u32> = vec![0; CELLS];
        let chip = Chip {
            memory: Chip::init_memory(),
            general_purpose_reg,
            i_reg: 0,
            delay_reg: 0,
            audio_reg: 0,
            program_counter: PROGRAM_START,
            stack_pointer: 0,
            stack,
            keyboard,
            video,
            rng: new_rng(),
        };
        assert(chip@.registers =~= initial_machine().registers);
        assert(chip@.stack =~= initial_machine().stack);
        assert(chip@.keypad =~= initial_machine().keypad);
        assert(chip@.display =~= initial_machine().display);
        chip
    }
}

} // verus!
