use vstd::prelude::*;
use crate::model::{
    Machine, MEMORY_SIZE, MAX_ROM_LEN, PROGRAM_START, CELLS, FLAG, category, reg_x, reg_y, byte_kk,
    addr_nnn, nibble_n, fetch, exec_spec, cycle_spec, rom_loaded, sprite_covers, draw_x0, draw_y0,
    lemma_exec_wf,
};

verus! {

/// The opcode with top nibble `c`, register nibble `x` and low byte `lo`.
pub open spec fn opcode_of(c: int, x: int, lo: int) -> u16 {
    (c * 0x1000 + x * 0x100 + lo) as u16
}

proof fn lemma_fields(c: int, x: int, lo: int)
    requires
        0 <= c < 16,
        0 <= x < 16,
        0 <= lo < 256,
    ensures
        category(opcode_of(c, x, lo)) == c,
        reg_x(opcode_of(c, x, lo)) == x,
        reg_y(opcode_of(c, x, lo)) == lo / 16,
        nibble_n(opcode_of(c, x, lo)) == lo % 16,
        byte_kk(opcode_of(c, x, lo)) == lo,
        addr_nnn(opcode_of(c, x, lo)) == x * 0x100 + lo,
{
    let op = c * 0x1000 + x * 0x100 + lo;
    assert(0 <= op < 0x10000) by (nonlinear_arith)
        requires
            op == c * 0x1000 + x * 0x100 + lo,
            0 <= c < 16,
            0 <= x < 16,
            0 <= lo < 256,
    ;
    assert(op / 0x1000 == c && (op / 0x100) % 0x10 == x && (op / 0x10) % 0x10 == lo / 16 && op % 0x10
        == lo % 16 && op % 0x100 == lo && op % 0x1000 == x * 0x100 + lo) by (nonlinear_arith)
        requires
            op == c * 0x1000 + x * 0x100 + lo,
            0 <= c < 16,
            0 <= x < 16,
            0 <= lo < 256,
    ;
}

/// `6xkk` loads `kk` into register `x`, whatever the state, and leaves
/// every other register as it was.
pub proof fn lemma_load_immediate(s: Machine, x: int, kk: u8, rnd: u8)
    requires
        s.wf(),
        0 <= x < 16,
    ensures
        exec_spec(s, opcode_of(6, x, kk as int), rnd) is Ok,
        exec_spec(s, opcode_of(6, x, kk as int), rnd)->Ok_0.registers[x] == kk,
        forall|r: int|
            0 <= r < 16 && r != x ==> #[trigger] exec_spec(s, opcode_of(6, x, kk as int), rnd)->Ok_0.registers[r]
                == s.registers[r],
{
    reveal(exec_spec);
    lemma_fields(6, x, kk as int);
}

/// `7xkk` adds `kk` to register `x` modulo 256 and leaves every other
/// register, the flag register included, as it was.
pub proof fn lemma_add_immediate_wraps(s: Machine, x: int, kk: u8, rnd: u8)
    requires
        s.wf(),
        0 <= x < 16,
    ensures
        exec_spec(s, opcode_of(7, x, kk as int), rnd) is Ok,
        exec_spec(s, opcode_of(7, x, kk as int), rnd)->Ok_0.registers[x] == (s.registers[x] + kk) % 256,
        forall|r: int|
            0 <= r < 16 && r != x ==> #[trigger] exec_spec(s, opcode_of(7, x, kk as int), rnd)->Ok_0.registers[r]
                == s.registers[r],
{
    reveal(exec_spec);
    lemma_fields(7, x, kk as int);
}

/// `00E0` leaves every display cell at 0, whatever the display held.
pub proof fn lemma_clear_blanks(s: Machine, rnd: u8)
    requires
        s.wf(),
    ensures
        exec_spec(s, 0x00E0, rnd) is Ok,
        forall|c: int| 0 <= c < CELLS ==> #[trigger] exec_spec(s, 0x00E0, rnd)->Ok_0.display[c] == 0,
{
    reveal(exec_spec);
    lemma_fields(0, 0, 0xE0);
}

/// Drawing a sprite twice at the same place gives the display back as it
/// was, and the second draw reports a collision exactly when the sprite
/// covers a cell that was off before the first. The position registers
/// must not be the flag register, which the first draw overwrites.
pub proof fn lemma_draw_twice_restores(s: Machine, x: int, y: int, n: int, rnd: u8)
    requires
        s.wf(),
        0 <= x < FLAG,
        0 <= y < FLAG,
        0 <= n < 16,
        s.index + n <= MEMORY_SIZE,
    ensures
        ({
            let op = opcode_of(0xD, x, y * 16 + n);
            let once = exec_spec(s, op, rnd);
            let twice = exec_spec(once->Ok_0, op, rnd);
            &&& once is Ok
            &&& twice is Ok
            &&& twice->Ok_0.display == s.display
            &&& (twice->Ok_0.registers[FLAG as int] == 1) == exists|c: int|
                0 <= c < CELLS && #[trigger] sprite_covers(s, draw_x0(s, x), draw_y0(s, y), n, c)
                    && s.display[c] == 0
        }),
{
    reveal(exec_spec);
    let op = opcode_of(0xD, x, y * 16 + n);
    lemma_fields(0xD, x, y * 16 + n);
    assert((y * 16 + n) / 16 == y && (y * 16 + n) % 16 == n);
    let t1 = exec_spec(s, op, rnd)->Ok_0;
    lemma_exec_wf(s, op, rnd);
    let t2 = exec_spec(t1, op, rnd)->Ok_0;
    assert(t1.registers[x] == s.registers[x] && t1.registers[y] == s.registers[y]);
    assert(draw_x0(t1, x) == draw_x0(s, x) && draw_y0(t1, y) == draw_y0(s, y));
    assert forall|c: int| 0 <= c < CELLS implies #[trigger] t2.display[c] == s.display[c] by {
        let v = s.display[c];
        assert((v ^ 1u32) ^ 1u32 == v) by (bit_vector);
        assert(sprite_covers(t1, draw_x0(s, x), draw_y0(s, y), n, c) == sprite_covers(
            s,
            draw_x0(s, x),
            draw_y0(s, y),
            n,
            c,
        ));
    }
    assert(t2.display =~= s.display);
    let x0 = draw_x0(s, x);
    let y0 = draw_y0(s, y);
    let off = exists|c: int| 0 <= c < CELLS && #[trigger] sprite_covers(s, x0, y0, n, c) && s.display[c] == 0;
    if off {
        let c = choose|c: int| 0 <= c < CELLS && #[trigger] sprite_covers(s, x0, y0, n, c) && s.display[c] == 0;
        assert(0u32 ^ 1u32 == 1u32) by (bit_vector);
        assert(sprite_covers(t1, x0, y0, n, c) && t1.display[c] == 1);
    }
    if t2.registers[FLAG as int] == 1 {
        let c = choose|c: int|
            0 <= c < CELLS && #[trigger] sprite_covers(t1, draw_x0(t1, x), draw_y0(t1, y), n, c) && t1.display[c] == 1;
        let v = s.display[c];
        assert(v <= 1);
        assert(v <= 1u32 && v ^ 1u32 == 1u32 ==> v == 0u32) by (bit_vector);
        assert(sprite_covers(s, x0, y0, n, c));
    }
}

/// A call followed by the return at its target brings control back to the
/// instruction after the call, with the stack as deep as before.
pub proof fn lemma_call_then_return(s: Machine, rnd1: u8, rnd2: u8)
    requires
        s.wf(),
        s.pc + 1 < MEMORY_SIZE,
        category(fetch(s)) == 2,
        s.sp < 16,
        addr_nnn(fetch(s)) + 1 < MEMORY_SIZE,
        s.memory[addr_nnn(fetch(s)) as int] == 0x00,
        s.memory[addr_nnn(fetch(s)) + 1] == 0xEE,
    ensures
        cycle_spec(s, rnd1) is Ok,
        cycle_spec(cycle_spec(s, rnd1)->Ok_0, rnd2) is Ok,
        cycle_spec(cycle_spec(s, rnd1)->Ok_0, rnd2)->Ok_0.pc == s.pc + 2,
        cycle_spec(cycle_spec(s, rnd1)->Ok_0, rnd2)->Ok_0.sp == s.sp,
{
    reveal(exec_spec);
    let t1 = cycle_spec(s, rnd1)->Ok_0;
    assert(t1.pc == addr_nnn(fetch(s)));
    assert(fetch(t1) == 0x00EE);
    lemma_fields(0, 0, 0xEE);
    assert(opcode_of(0, 0, 0xEE) == 0x00EE);
}

/// A cycle takes one off the delay timer when it is above zero and leaves
/// it at zero otherwise, unless the instruction is `Fx15`, which sets it.
pub proof fn lemma_delay_ticks(s: Machine, rnd: u8)
    requires
        s.wf(),
        cycle_spec(s, rnd) is Ok,
        !(category(fetch(s)) == 0xF && byte_kk(fetch(s)) == 0x15),
    ensures
        cycle_spec(s, rnd)->Ok_0.delay == if s.delay > 0 { s.delay - 1 } else { 0 },
{
    reveal(exec_spec);
}

/// Loading a ROM that fits puts its bytes at the program origin, one for
/// one, and leaves all other memory and all other state unchanged.
pub proof fn lemma_load_round_trip(s: Machine, rom: Seq<u8>)
    requires
        s.wf(),
        rom.len() <= MAX_ROM_LEN,
    ensures
        rom_loaded(s, rom) is Ok,
        rom_loaded(s, rom)->Ok_0.memory.subrange(PROGRAM_START as int, PROGRAM_START + rom.len()) == rom,
        forall|a: int|
            0 <= a < MEMORY_SIZE && !(PROGRAM_START <= a < PROGRAM_START + rom.len())
                ==> #[trigger] rom_loaded(s, rom)->Ok_0.memory[a] == s.memory[a],
        rom_loaded(s, rom)->Ok_0 == (Machine { memory: rom_loaded(s, rom)->Ok_0.memory, ..s }),
{
    let t = rom_loaded(s, rom)->Ok_0;
    assert(t.memory.subrange(PROGRAM_START as int, PROGRAM_START + rom.len()) =~= rom);
}

} // verus!
