use vstd::prelude::*;
use crate::error::{Fault, CycleError, LoadError};

verus! {

/// Bytes of memory.
pub const MEMORY_SIZE: usize = 4096;
/// Address at which a ROM is loaded and execution starts.
pub const PROGRAM_START: u16 = 0x200;
/// Largest ROM that fits between the program origin and the end of memory.
pub const MAX_ROM_LEN: usize = 3584;
/// Number of general registers, of return slots and of keys.
pub const SLOTS: usize = 16;
/// The register that carry, borrow, shifted-out bit and collision are written to.
pub const FLAG: usize = 15;
/// Display width in cells.
pub const WIDTH: usize = 64;
/// Display height in cells.
pub const HEIGHT: usize = 32;
/// Number of display cells.
pub const CELLS: usize = 2048;
/// Bytes of the font table at the start of memory.
pub const FONT_LEN: usize = 80;

/// The whole state of the machine, as mathematics.
pub struct Machine {
    /// 4096 bytes; the font table sits at address 0.
    pub memory: Seq<u8>,
    pub registers: Seq<u8>,
    pub index: u16,
    pub delay: u8,
    pub sound: u8,
    pub pc: u16,
    pub sp: u8,
    /// Return addresses; slots below `sp` are in use.
    pub stack: Seq<u16>,
    /// A key is held down when its slot holds 1.
    pub keypad: Seq<u16>,
    /// 64 by 32 cells, row by row.
    pub display: Seq<u32>,
}

impl Machine {
    /// Sizes are fixed, the stack pointer stays within the stack and every
    /// display cell is 0 or 1.
    pub open spec fn wf(self) -> bool {
        &&& self.memory.len() == MEMORY_SIZE
        &&& self.registers.len() == SLOTS
        &&& self.stack.len() == SLOTS
        &&& self.keypad.len() == SLOTS
        &&& self.display.len() == CELLS
        &&& self.sp <= SLOTS
        &&& forall|c: int| 0 <= c < CELLS ==> #[trigger] self.display[c] <= 1
    }
}

// ---- decoding ----

/// The top nibble: which family of instruction.
pub open spec fn category(op: u16) -> u16 {
    op / 0x1000
}

/// Bits 8 to 11: the first register operand.
pub open spec fn reg_x(op: u16) -> u16 {
    (op / 0x100) % 0x10
}

/// Bits 4 to 7: the second register operand.
pub open spec fn reg_y(op: u16) -> u16 {
    (op / 0x10) % 0x10
}

/// The low byte: an immediate value.
pub open spec fn byte_kk(op: u16) -> u8 {
    (op % 0x100) as u8
}

/// The low twelve bits: an address.
pub open spec fn addr_nnn(op: u16) -> u16 {
    op % 0x1000
}

/// The low nibble: a sprite height or a secondary key.
pub open spec fn nibble_n(op: u16) -> u16 {
    op % 0x10
}

/// The opcode made of the byte at `pc` (high) and the byte after it (low).
pub open spec fn fetch(s: Machine) -> u16 {
    (s.memory[s.pc as int] * 0x100 + s.memory[s.pc + 1]) as u16
}

// ---- state updates ----

/// `pc` taken modulo 2^16.
pub open spec fn with_pc(s: Machine, pc: int) -> Machine {
    Machine { pc: (pc % 0x10000) as u16, ..s }
}

/// Skips the next instruction when `cond` holds.
pub open spec fn skip_if(s: Machine, cond: bool) -> Machine {
    if cond {
        with_pc(s, s.pc + 2)
    } else {
        s
    }
}

/// Writes `v` to register `x`.
pub open spec fn with_reg(s: Machine, x: int, v: u8) -> Machine {
    Machine { registers: s.registers.update(x, v), ..s }
}

/// Writes `v` to register `x`, then `flag` to the flag register.
pub open spec fn with_reg_flag(s: Machine, x: int, v: u8, flag: u8) -> Machine {
    with_reg(with_reg(s, x, v), FLAG as int, flag)
}

/// Every display cell set to 0.
pub open spec fn cleared(s: Machine) -> Machine {
    Machine { display: Seq::new(CELLS as nat, |c: int| 0u32), ..s }
}

// ---- the sprite drawing operation ----

/// Bit `k` of `b`, counted from the most significant bit.
pub open spec fn bit_of(b: u8, k: int) -> bool {
    (b >> ((7 - k) as u8)) & 1u8 == 1u8
}

/// Column offset of cell `c` from a sprite whose left edge is at `x0`.
pub open spec fn col_off(c: int, x0: int) -> int {
    (c % WIDTH as int - x0 + WIDTH as int) % WIDTH as int
}

/// Row offset of cell `c` from a sprite whose top edge is at `y0`.
pub open spec fn row_off(c: int, y0: int) -> int {
    (c / WIDTH as int - y0 + HEIGHT as int) % HEIGHT as int
}

/// Whether an `n`-row sprite at `memory[index..]`, placed at (`x0`, `y0`)
/// with wraparound, puts a 1 on cell `c`.
pub open spec fn sprite_covers(s: Machine, x0: int, y0: int, n: int, c: int) -> bool {
    &&& row_off(c, y0) < n
    &&& col_off(c, x0) < 8
    &&& bit_of(s.memory[s.index + row_off(c, y0)], col_off(c, x0))
}

/// Left edge of a sprite drawn at register `x`'s column.
pub open spec fn draw_x0(s: Machine, x: int) -> int {
    s.registers[x] as int % WIDTH as int
}

/// Top edge of a sprite drawn at register `y`'s row.
pub open spec fn draw_y0(s: Machine, y: int) -> int {
    s.registers[y] as int % HEIGHT as int
}

/// Whether drawing turns off a cell that was on.
pub open spec fn collides(s: Machine, x: int, y: int, n: int) -> bool {
    exists|c: int|
        0 <= c < CELLS && #[trigger] sprite_covers(s, draw_x0(s, x), draw_y0(s, y), n, c)
            && s.display[c] == 1
}

/// Each covered cell is XORed with 1; the flag register tells whether a
/// cell that was on went off.
pub open spec fn drawn(s: Machine, x: int, y: int, n: int) -> Machine {
    let x0 = draw_x0(s, x);
    let y0 = draw_y0(s, y);
    let t = Machine {
        display: Seq::new(
            CELLS as nat,
            |c: int|
                if sprite_covers(s, x0, y0, n, c) {
                    s.display[c] ^ 1u32
                } else {
                    s.display[c]
                },
        ),
        ..s
    };
    with_reg(t, FLAG as int, if collides(s, x, y, n) { 1u8 } else { 0u8 })
}

/// Cells drawn before bit `bit` of row `row`, in drawing order.
pub open spec fn drawn_before(c: int, x0: int, y0: int, row: int, bit: int) -> bool {
    row_off(c, y0) < row || (row_off(c, y0) == row && col_off(c, x0) < bit)
}

/// Bit `bit` of sprite row `row` lands on exactly one cell, `pos`.
pub proof fn lemma_sprite_cell(x0: int, y0: int, row: int, bit: int, pos: int)
    requires
        0 <= x0 < WIDTH,
        0 <= y0 < HEIGHT,
        0 <= row < 16,
        0 <= bit < 8,
        pos == ((y0 + row) % HEIGHT as int) * WIDTH as int + (x0 + bit) % WIDTH as int,
    ensures
        0 <= pos < CELLS,
        row_off(pos, y0) == row,
        col_off(pos, x0) == bit,
        forall|c: int|
            0 <= c < CELLS && #[trigger] row_off(c, y0) == row && col_off(c, x0) == bit ==> c == pos,
{
    let a = (y0 + row) % 32;
    let b = (x0 + bit) % 64;
    assert(0 <= a < 32 && 0 <= b < 64);
    assert(pos / 64 == a && pos % 64 == b) by (nonlinear_arith)
        requires
            pos == a * 64 + b,
            0 <= b < 64,
            0 <= a,
    ;
    assert forall|c: int|
        0 <= c < CELLS && #[trigger] row_off(c, y0) == row && col_off(c, x0) == bit implies c == pos by {
        let q = c / 64;
        let m = c % 64;
        assert(c == q * 64 + m && 0 <= m < 64 && 0 <= q < 32) by (nonlinear_arith)
            requires
                0 <= c < 2048,
                q == c / 64,
                m == c % 64,
        ;
        assert(m == b);
        assert(q == a);
    }
}

// ---- keys ----

/// Key `k` is held down.
pub open spec fn pressed(s: Machine, k: int) -> bool {
    s.keypad[k] == 1
}

/// Some key is held down.
pub open spec fn any_pressed(s: Machine) -> bool {
    exists|k: int| 0 <= k < SLOTS && #[trigger] pressed(s, k)
}

/// `k` is the lowest pressed key.
pub open spec fn lowest_pressed(s: Machine, k: int) -> bool {
    &&& 0 <= k < SLOTS
    &&& pressed(s, k)
    &&& forall|j: int| 0 <= j < k ==> !#[trigger] pressed(s, j)
}

// ---- memory transfers ----

/// Decimal digits of `v` at `memory[index..index + 3]`, hundreds first.
pub open spec fn stored_bcd(s: Machine, v: u8) -> Machine {
    let i = s.index as int;
    Machine {
        memory: s.memory.update(i, v / 100).update(i + 1, (v / 10) % 10).update(i + 2, v % 10),
        ..s
    }
}

/// Registers 0 to `x` copied to `memory[index..=index + x]`.
pub open spec fn stored_regs(s: Machine, x: int) -> Machine {
    let i = s.index as int;
    Machine {
        memory: Seq::new(
            s.memory.len(),
            |a: int|
                if i <= a <= i + x {
                    s.registers[a - i]
                } else {
                    s.memory[a]
                },
        ),
        ..s
    }
}

/// `memory[index..=index + x]` copied to registers 0 to `x`.
pub open spec fn loaded_regs(s: Machine, x: int) -> Machine {
    let i = s.index as int;
    Machine {
        registers: Seq::new(
            s.registers.len(),
            |r: int|
                if r <= x {
                    s.memory[i + r]
                } else {
                    s.registers[r]
                },
        ),
        ..s
    }
}

// ---- one instruction ----

/// The effect of instruction `op` on a state whose program counter already
/// points past it; `rnd` is the random byte that `Cxkk` masks.
#[verifier::opaque]
pub open spec fn exec_spec(s: Machine, op: u16, rnd: u8) -> Result<Machine, Fault> {
    let x = reg_x(op) as int;
    let y = reg_y(op) as int;
    let kk = byte_kk(op);
    let nnn = addr_nnn(op);
    let n = nibble_n(op) as int;
    let vx = s.registers[x];
    let vy = s.registers[y];
    let c = category(op);
    if c == 0x0 {
        if kk == 0xE0 {
            Ok(cleared(s))
        } else if kk == 0xEE {
            if s.sp == 0 {
                Err(Fault::StackUnderflow)
            } else {
                Ok(Machine { sp: (s.sp - 1) as u8, pc: s.stack[s.sp - 1], ..s })
            }
        } else {
            Err(Fault::UnknownOpcode)
        }
    } else if c == 0x1 {
        Ok(Machine { pc: nnn, ..s })
    } else if c == 0x2 {
        if s.sp >= SLOTS {
            Err(Fault::StackOverflow)
        } else {
            Ok(Machine { stack: s.stack.update(s.sp as int, s.pc), sp: (s.sp + 1) as u8, pc: nnn, ..s })
        }
    } else if c == 0x3 {
        Ok(skip_if(s, vx == kk))
    } else if c == 0x4 {
        Ok(skip_if(s, vx != kk))
    } else if c == 0x5 {
        Ok(skip_if(s, vx == vy))
    } else if c == 0x6 {
        Ok(with_reg(s, x, kk))
    } else if c == 0x7 {
        Ok(with_reg(s, x, ((vx + kk) % 256) as u8))
    } else if c == 0x8 {
        if n == 0x0 {
            Ok(with_reg(s, x, vy))
        } else if n == 0x1 {
            Ok(with_reg(s, x, vx | vy))
        } else if n == 0x2 {
            Ok(with_reg(s, x, vx & vy))
        } else if n == 0x3 {
            Ok(with_reg(s, x, vx ^ vy))
        } else if n == 0x4 {
            Ok(with_reg_flag(s, x, ((vx + vy) % 256) as u8, if vx + vy > 255 { 1 } else { 0 }))
        } else if n == 0x5 {
            Ok(with_reg_flag(s, x, ((vx - vy + 256) % 256) as u8, if vx > vy { 1 } else { 0 }))
        } else if n == 0x6 {
            Ok(with_reg_flag(s, x, vx / 2, vx % 2))
        } else if n == 0x7 {
            Ok(with_reg_flag(s, x, ((vy - vx + 256) % 256) as u8, if vy > vx { 1 } else { 0 }))
        } else if n == 0xE {
            Ok(with_reg_flag(s, x, ((vx * 2) % 256) as u8, vx / 128))
        } else {
            Err(Fault::UnknownOpcode)
        }
    } else if c == 0x9 {
        Ok(skip_if(s, vx != vy))
    } else if c == 0xA {
        Ok(Machine { index: nnn, ..s })
    } else if c == 0xB {
        Ok(with_pc(s, nnn + s.registers[0]))
    } else if c == 0xC {
        Ok(with_reg(s, x, rnd & kk))
    } else if c == 0xD {
        if s.index + n > MEMORY_SIZE {
            Err(Fault::MemoryOutOfBounds)
        } else {
            Ok(drawn(s, x, y, n))
        }
    } else if c == 0xE {
        if kk != 0x9E && kk != 0xA1 {
            Err(Fault::UnknownOpcode)
        } else if vx >= SLOTS {
            Err(Fault::KeyOutOfRange)
        } else if kk == 0x9E {
            Ok(skip_if(s, pressed(s, vx as int)))
        } else {
            Ok(skip_if(s, !pressed(s, vx as int)))
        }
    } else {
        // category 0xF
        if kk == 0x07 {
            Ok(with_reg(s, x, s.delay))
        } else if kk == 0x0A {
            if any_pressed(s) {
                Ok(with_reg(s, x, (choose|k: int| lowest_pressed(s, k)) as u8))
            } else {
                Ok(with_pc(s, s.pc + 0xFFFE))
            }
        } else if kk == 0x15 {
            Ok(Machine { delay: vx, ..s })
        } else if kk == 0x18 {
            Ok(Machine { sound: vx, ..s })
        } else if kk == 0x1E {
            Ok(Machine { index: ((s.index + vx) % 0x10000) as u16, ..s })
        } else if kk == 0x29 {
            Ok(Machine { index: (5 * vx) as u16, ..s })
        } else if kk == 0x33 {
            if s.index + 3 > MEMORY_SIZE {
                Err(Fault::MemoryOutOfBounds)
            } else {
                Ok(stored_bcd(s, vx))
            }
        } else if kk == 0x55 {
            if s.index + x + 1 > MEMORY_SIZE {
                Err(Fault::MemoryOutOfBounds)
            } else {
                Ok(stored_regs(s, x))
            }
        } else if kk == 0x65 {
            if s.index + x + 1 > MEMORY_SIZE {
                Err(Fault::MemoryOutOfBounds)
            } else {
                Ok(loaded_regs(s, x))
            }
        } else {
            Err(Fault::UnknownOpcode)
        }
    }
}

/// Every state an instruction can lead to from a well-formed state is
/// well-formed.
pub proof fn lemma_exec_wf(s: Machine, op: u16, rnd: u8)
    requires
        s.wf(),
        exec_spec(s, op, rnd) is Ok,
    ensures
        exec_spec(s, op, rnd)->Ok_0.wf(),
{
    reveal(exec_spec);
    let t = exec_spec(s, op, rnd)->Ok_0;
    if category(op) == 0xD {
        let x = reg_x(op) as int;
        let y = reg_y(op) as int;
        let n = nibble_n(op) as int;
        assert forall|c: int| 0 <= c < CELLS implies #[trigger] t.display[c] <= 1 by {
            let v = s.display[c];
            assert(v <= 1);
            assert(v <= 1u32 ==> v ^ 1u32 <= 1u32) by (bit_vector);
        }
    }
}

// ---- the initial state and loading ----

/// The sixteen hexadecimal glyphs, five rows each, for digits 0 to F.
pub open spec fn font() -> Seq<u8> {
    seq![
        0xF0u8, 0x90, 0x90, 0x90, 0xF0,
        0x20, 0x60, 0x20, 0x20, 0x70,
        0xF0, 0x10, 0xF0, 0x80, 0xF0,
        0xF0, 0x10, 0xF0, 0x10, 0xF0,
        0x90, 0x90, 0xF0, 0x10, 0x10,
        0xF0, 0x80, 0xF0, 0x10, 0xF0,
        0xF0, 0x80, 0xF0, 0x90, 0xF0,
        0xF0, 0x10, 0x20, 0x40, 0x40,
        0xF0, 0x90, 0xF0, 0x90, 0xF0,
        0xF0, 0x90, 0xF0, 0x10, 0xF0,
        0xF0, 0x90, 0xF0, 0x90, 0x90,
        0xE0, 0x90, 0xE0, 0x90, 0xE0,
        0xF0, 0x80, 0x80, 0x80, 0xF0,
        0xE0, 0x90, 0x90, 0x90, 0xE0,
        0xF0, 0x80, 0xF0, 0x80, 0xF0,
        0xF0, 0x80, 0xF0, 0x80, 0x80,
    ]
}

/// The font table at address 0, every other byte zero.
pub open spec fn initial_memory() -> Seq<u8> {
    Seq::new(MEMORY_SIZE as nat, |a: int| if a < FONT_LEN { font()[a] } else { 0u8 })
}

/// Font loaded, everything else zero, execution at the program origin.
pub open spec fn initial_machine() -> Machine {
    Machine {
        memory: initial_memory(),
        registers: Seq::new(SLOTS as nat, |r: int| 0u8),
        index: 0,
        delay: 0,
        sound: 0,
        pc: PROGRAM_START,
        sp: 0,
        stack: Seq::new(SLOTS as nat, |r: int| 0u16),
        keypad: Seq::new(SLOTS as nat, |k: int| 0u16),
        display: Seq::new(CELLS as nat, |c: int| 0u32),
    }
}

/// `rom` copied to memory from the program origin on, or an error when it
/// does not fit.
pub open spec fn rom_loaded(s: Machine, rom: Seq<u8>) -> Result<Machine, LoadError> {
    if rom.len() > MAX_ROM_LEN {
        Err(LoadError::TooLarge { len: rom.len() as usize })
    } else {
        let o = PROGRAM_START as int;
        Ok(
            Machine {
                memory: Seq::new(
                    s.memory.len(),
                    |a: int|
                        if o <= a < o + rom.len() {
                            rom[a - o]
                        } else {
                            s.memory[a]
                        },
                ),
                ..s
            },
        )
    }
}

// ---- one cycle ----

/// Each timer that is above zero goes down by one.
pub open spec fn ticked(s: Machine) -> Machine {
    Machine {
        delay: if s.delay > 0 { (s.delay - 1) as u8 } else { 0 },
        sound: if s.sound > 0 { (s.sound - 1) as u8 } else { 0 },
        ..s
    }
}

/// Fetch at `pc`, advance `pc` by 2, execute, then tick the timers.
pub open spec fn cycle_spec(s: Machine, rnd: u8) -> Result<Machine, CycleError> {
    if s.pc + 1 >= MEMORY_SIZE {
        Err(CycleError::FetchOutOfBounds { address: s.pc })
    } else {
        let op = fetch(s);
        match exec_spec(with_pc(s, s.pc + 2), op, rnd) {
            Ok(t) => Ok(ticked(t)),
            Err(f) => Err(CycleError::Execute { fault: f, opcode: op, address: s.pc }),
        }
    }
}

/// `r` and the state after a call agree with `model`: on success the new
/// state is the model's, on failure the error is the model's and the state
/// is unchanged.
pub open spec fn agrees<E>(r: Result<(), E>, before: Machine, after: Machine, model: Result<Machine, E>) -> bool {
    match model {
        Ok(t) => r is Ok && after == t,
        Err(e) => r == Err::<(), E>(e) && after == before,
    }
}

} // verus!
