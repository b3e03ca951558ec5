//! Laws of the instruction set, proved over the model that
//! `Chip8::run_with_random` is specified by.
use vstd::prelude::*;
use crate::instruction::Instruction;
use crate::instruction::lemma_decode_well_formed;
use crate::machine::{
    MachineState, Variant, PROGRAM_START, DISPLAY_SIZE, step, fetched, fetch_address, execute,
    cell_lit, cell_pixel, collides, draw, drawn_display, pixel_flipped, lemma_flip,
    store_registers, load_registers, offset_from_i, first_down_from, cols, rows, origin_x,
    origin_y, pixel_row, pixel_col, lemma_cell_pixel_inverse, lemma_pixel_cell_inverse,
};

verus! {

/// `8XY4`, `8XY5` and `8XY7` leave the exact carry (or no-borrow) flag in
/// `VF`, and the wrapped result in `VX` unless `VX` is `VF` itself.
pub proof fn lemma_arithmetic_flags(s: MachineState, random: u8)
    requires
        s.wf(),
        fetched(s) is AddReg || fetched(s) is SubReg || fetched(s) is SubRev,
    ensures
        ({
            let t = step(s, random);
            match fetched(s) {
                Instruction::AddReg { x, y } => {
                    let (a, b) = (s.registers[x as int] as int, s.registers[y as int] as int);
                    &&& t.registers[15] == (if a + b > 255 { 1u8 } else { 0u8 })
                    &&& x != 15 ==> t.registers[x as int] == (a + b) % 256
                },
                Instruction::SubReg { x, y } => {
                    let (a, b) = (s.registers[x as int] as int, s.registers[y as int] as int);
                    &&& t.registers[15] == (if a >= b { 1u8 } else { 0u8 })
                    &&& x != 15 ==> t.registers[x as int] == (a - b + 256) % 256
                },
                Instruction::SubRev { x, y } => {
                    let (a, b) = (s.registers[x as int] as int, s.registers[y as int] as int);
                    &&& t.registers[15] == (if b >= a { 1u8 } else { 0u8 })
                    &&& x != 15 ==> t.registers[x as int] == (b - a + 256) % 256
                },
                _ => true,
            }
        }),
{
    lemma_decode_well_formed(s.memory[fetch_address(s)], s.memory[(fetch_address(s) + 1) % 4096]);
}

/// On CHIP-8, `8XY1`, `8XY2` and `8XY3` always leave `VF` at 0.
pub proof fn lemma_logic_clears_flag(s: MachineState, random: u8)
    requires
        s.wf(),
        s.variant == Variant::CHIP8,
        fetched(s) is Or || fetched(s) is And || fetched(s) is Xor,
    ensures
        step(s, random).registers[15] == 0,
{
    lemma_decode_well_formed(s.memory[fetch_address(s)], s.memory[(fetch_address(s) + 1) % 4096]);
}

/// `8XY6` and `8XYE` shift `VY` on CHIP-8 and `VX` itself on the other
/// variants; `VF` gets the bit shifted out and, unless `VX` is `VF`, `VX` the
/// shifted value.
pub proof fn lemma_shift_source(s: MachineState, random: u8)
    requires
        s.wf(),
        fetched(s) is ShiftRight || fetched(s) is ShiftLeft,
    ensures
        ({
            let t = step(s, random);
            match fetched(s) {
                Instruction::ShiftRight { x, y } => {
                    let v = if s.variant == Variant::CHIP8 { s.registers[y as int] } else { s.registers[x as int] };
                    &&& t.registers[15] == v % 2
                    &&& x != 15 ==> t.registers[x as int] == v / 2
                },
                Instruction::ShiftLeft { x, y } => {
                    let v = if s.variant == Variant::CHIP8 { s.registers[y as int] } else { s.registers[x as int] };
                    &&& t.registers[15] == v / 128
                    &&& x != 15 ==> t.registers[x as int] == (v as int * 2) % 256
                },
                _ => true,
            }
        }),
{
    lemma_decode_well_formed(s.memory[fetch_address(s)], s.memory[(fetch_address(s) + 1) % 4096]);
}

/// `00EE` with an empty stack sends execution to the program start.
pub proof fn lemma_return_on_empty_stack(s: MachineState, random: u8)
    requires
        s.wf(),
        s.stack.len() == 0,
        fetched(s) == Instruction::Return,
    ensures
        step(s, random).pc == PROGRAM_START,
        step(s, random).stack.len() == 0,
{
}

/// `FX0A` with no key down in the previous snapshot does not advance: the
/// next step fetches the same instruction again.
pub proof fn lemma_wait_key_blocks(s: MachineState, random: u8)
    requires
        s.wf(),
        fetched(s) is WaitKey,
        forall|k: int| 0 <= k < 16 ==> !s.keypad_prev[k],
    ensures
        fetch_address(step(s, random)) == fetch_address(s),
        fetched(step(s, random)) == fetched(s),
{
    lemma_decode_well_formed(s.memory[fetch_address(s)], s.memory[(fetch_address(s) + 1) % 4096]);
    lemma_none_down(s.keypad_prev, 0);
}

/// With no key down, `first_down_from` finds none.
proof fn lemma_none_down(keys: Seq<bool>, k: int)
    requires
        0 <= k <= 16,
        keys.len() == 16,
        forall|j: int| 0 <= j < 16 ==> !keys[j],
    ensures
        first_down_from(keys, k) == 16,
    decreases 16 - k,
{
    if k < 16 {
        lemma_none_down(keys, k + 1);
    }
}

/// What one step of a `DXYN` changes, and what it keeps.
proof fn lemma_step_draw(s: MachineState, random: u8)
    requires
        s.wf(),
        fetched(s) is Draw,
    ensures
        ({
            let (x, y, n) = (fetched(s)->Draw_x, fetched(s)->Draw_y, fetched(s)->Draw_n);
            let s1 = MachineState { pc: (fetch_address(s) + 2) as u16, displayed: false, ..s };
            let t = step(s, random);
            &&& t.display == drawn_display(s1, x, y, n)
            &&& t.registers == s.registers.update(15, if collides(s1, x, y, n) { 1u8 } else { 0u8 })
            &&& t.memory == s.memory
            &&& t.i == s.i
            &&& t.variant == s.variant
            &&& t.hires_mode == s.hires_mode
            &&& t.wf()
        }),
{
    let (x, y, n) = (fetched(s)->Draw_x, fetched(s)->Draw_y, fetched(s)->Draw_n);
    let s1 = MachineState { pc: (fetch_address(s) + 2) as u16, displayed: false, ..s };
    lemma_decode_well_formed(s.memory[fetch_address(s)], s.memory[(fetch_address(s) + 1) % 4096]);
    assert(execute(s1, fetched(s), random) == draw(s1, x, y, n));
    assert forall|p: int| 0 <= p < DISPLAY_SIZE implies #[trigger] step(s, random).display[p] <= 1 by {
        lemma_flip(s.display[p]);
    }
}

/// After a draw, a sprite drawn at the same place over the result collides
/// exactly when some pixel went from 0 to 1 in that draw.
proof fn lemma_redraw_collision(a: MachineState, b: MachineState, x: u8, y: u8, n: u8)
    requires
        a.wf(),
        x < 16 && y < 16 && n < 16,
        b.display == drawn_display(a, x, y, n),
        b.registers[x as int] == a.registers[x as int],
        b.registers[y as int] == a.registers[y as int],
        b.memory == a.memory,
        b.i == a.i,
        b.variant == a.variant,
        b.hires_mode == a.hires_mode,
    ensures
        collides(b, x, y, n) <==> exists|p: int|
            0 <= p < DISPLAY_SIZE && #[trigger] b.display[p] == 1 && a.display[p] == 0,
{
    let w = cols(a.hires_mode);
    let h = rows(a.hires_mode);
    let ox = origin_x(a, x);
    let oy = origin_y(a, y);
    assert forall|r: int, c: int| #[trigger] cell_lit(b, x, y, n, r, c) == cell_lit(a, x, y, n, r, c)
        && cell_pixel(b, x, y, r, c) == cell_pixel(a, x, y, r, c) by {}
    if collides(b, x, y, n) {
        let (r, c) = choose|r: int, c: int|
            #[trigger] cell_lit(b, x, y, n, r, c) && b.display[cell_pixel(b, x, y, r, c)] == 1;
        let p = cell_pixel(a, x, y, r, c);
        lemma_cell_pixel_inverse(w, h, ox, oy, r, c);
        assert(pixel_flipped(a, x, y, n, p));
        lemma_flip(a.display[p]);
        assert(b.display[p] == 1 && a.display[p] == 0);
    }
    if exists|p: int| 0 <= p < DISPLAY_SIZE && #[trigger] b.display[p] == 1 && a.display[p] == 0 {
        let p = choose|p: int| 0 <= p < DISPLAY_SIZE && #[trigger] b.display[p] == 1 && a.display[p] == 0;
        assert(pixel_flipped(a, x, y, n, p));
        let r = pixel_row(a, y, p);
        let c = pixel_col(a, x, p);
        lemma_pixel_cell_inverse(w, h, ox, oy, p);
        assert(cell_pixel(a, x, y, r, c) == p);
        assert(cell_lit(b, x, y, n, r, c) && b.display[cell_pixel(b, x, y, r, c)] == 1);
    }
}

/// Drawing the same sprite twice in a row at the same place (with neither
/// coordinate in `VF`) restores the display, and the second draw reports a
/// collision exactly when one of the pixels it covers is lit after the first,
/// that is, exactly when the first draw turned some pixel from 0 to 1.
pub proof fn lemma_draw_twice(s: MachineState, r1: u8, r2: u8)
    requires
        s.wf(),
        fetched(s) is Draw,
        fetched(step(s, r1)) == fetched(s),
        fetched(s)->Draw_x != 15,
        fetched(s)->Draw_y != 15,
    ensures
        ({
            let (x, y, n) = (fetched(s)->Draw_x, fetched(s)->Draw_y, fetched(s)->Draw_n);
            let t1 = step(s, r1);
            let t2 = step(t1, r2);
            &&& t2.display == s.display
            &&& (t2.registers[15] == 1) == (exists|r: int, c: int|
                #[trigger] cell_lit(t1, x, y, n, r, c) && t1.display[cell_pixel(t1, x, y, r, c)] == 1)
            &&& t2.registers[15] == (if exists|p: int|
                0 <= p < DISPLAY_SIZE && #[trigger] t1.display[p] == 1 && s.display[p] == 0 {
                1u8
            } else {
                0u8
            })
        }),
{
    let (x, y, n) = (fetched(s)->Draw_x, fetched(s)->Draw_y, fetched(s)->Draw_n);
    let t1 = step(s, r1);
    lemma_step_draw(s, r1);
    lemma_step_draw(t1, r2);
    let t2 = step(t1, r2);
    let s1 = MachineState { pc: (fetch_address(s) + 2) as u16, displayed: false, ..s };
    let u1 = MachineState { pc: (fetch_address(t1) + 2) as u16, displayed: false, ..t1 };
    assert(u1.registers[x as int] == s1.registers[x as int]);
    assert(u1.registers[y as int] == s1.registers[y as int]);
    assert forall|p: int| 0 <= p < s.display.len() implies #[trigger] t2.display[p] == s.display[p] by {
        assert(pixel_flipped(u1, x, y, n, p) == pixel_flipped(s1, x, y, n, p));
        lemma_flip(s.display[p]);
    }
    assert(t2.display =~= s.display);
    assert forall|r: int, c: int| #[trigger] cell_lit(t1, x, y, n, r, c) == cell_lit(u1, x, y, n, r, c)
        && cell_pixel(t1, x, y, r, c) == cell_pixel(u1, x, y, r, c) by {}
    if t2.registers[15] == 1 {
        let (r, c) = choose|r: int, c: int|
            #[trigger] cell_lit(u1, x, y, n, r, c) && u1.display[cell_pixel(u1, x, y, r, c)] == 1;
        assert(cell_lit(t1, x, y, n, r, c));
    }
    lemma_redraw_collision(s1, u1, x, y, n);
}

/// Register `k <= x` comes back from where `FX55` stored it.
proof fn lemma_stored_register(s: MachineState, x: u8, k: int)
    requires
        s.wf(),
        x < 16,
        0 <= k <= x,
    ensures
        store_registers(s, x).memory[(s.i as int + k) % 4096] == s.registers[k],
{
    let a = (s.i as int + k) % 4096;
    assert(offset_from_i(s, a) == k);
}

/// `FX55` then `FX65` from the same `I` gives back the registers stored;
/// `FX55` leaves `I` advanced by `X + 1` on CHIP-8 and unchanged elsewhere.
pub proof fn lemma_store_load_round_trip(s: MachineState, x: u8, random: u8)
    requires
        s.wf(),
        x < 16,
    ensures
        ({
            let stored = execute(s, Instruction::Store { x }, random);
            let loaded = execute(MachineState { i: s.i, ..stored }, Instruction::Load { x }, random);
            &&& loaded.registers == s.registers
            &&& stored.i == (if s.variant == Variant::CHIP8 {
                ((s.i as int + x as int + 1) % 0x10000) as u16
            } else {
                s.i
            })
        }),
{
    let stored = store_registers(s, x);
    assert(execute(s, Instruction::Store { x }, random) == stored);
    let back = MachineState { i: s.i, ..stored };
    let loaded = load_registers(back, x);
    assert(execute(back, Instruction::Load { x }, random) == loaded);
    assert forall|k: int| 0 <= k < 16 implies #[trigger] loaded.registers[k] == s.registers[k] by {
        if k <= x {
            lemma_stored_register(s, x, k);
        }
    }
    assert(loaded.registers =~= s.registers);
}

} // verus!
