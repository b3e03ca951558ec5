//! The mathematical model of an interpreter session and the meaning of each
//! instruction on it.
use vstd::prelude::*;
use crate::instruction::{Instruction, decode};
use crate::keypad::{key_index, key_value};
use crate::font::{font_low, font_high};

verus! {

/// Size of the byte-addressable memory.
pub const MEMORY_SIZE: usize = 4096;

/// Number of cells in the pixel buffer (the largest resolution, 128 × 64).
pub const DISPLAY_SIZE: usize = 8192;

/// Steps that a frame runs at most.
pub const STEPS_PER_FRAME: usize = 10;

/// Address at which programs are loaded and execution starts.
pub const PROGRAM_START: u16 = 0x200;

/// Address of the first high-resolution glyph; the low-resolution glyphs start at 0.
pub const FONT_HIGH_START: u16 = 0x50;

/// Which dialect of the instruction set is interpreted.
#[allow(non_camel_case_types)]
#[derive(Clone, Copy, Debug, PartialEq, Eq, Structural)]
pub enum Variant {
    CHIP8,
    SCHIP1_0,
    SCHIP1_1,
    XOCHIP,
}

/// The state of a session, as plain mathematical values.
pub struct MachineState {
    pub memory: Seq<u8>,
    pub display: Seq<u8>,
    pub pc: u16,
    pub i: u16,
    pub stack: Seq<u16>,
    pub delay_timer: u8,
    pub sound_timer: u8,
    pub registers: Seq<u8>,
    pub keypad: Seq<bool>,
    pub keypad_prev: Seq<bool>,
    pub last_pressed_key: Option<usize>,
    pub displayed: bool,
    pub variant: Variant,
    pub hires_mode: bool,
    pub flags: Seq<u8>,
}

impl MachineState {
    /// Sizes of the fixed tables, a latched key on the keypad, pixels 0 or 1.
    pub open spec fn wf(self) -> bool {
        &&& self.memory.len() == MEMORY_SIZE
        &&& self.display.len() == DISPLAY_SIZE
        &&& self.registers.len() == 16
        &&& self.keypad.len() == 16
        &&& self.keypad_prev.len() == 16
        &&& self.flags.len() == 8
        &&& (self.last_pressed_key matches Some(k) ==> k < 16)
        &&& forall|p: int| 0 <= p < DISPLAY_SIZE ==> #[trigger] self.display[p] <= 1
    }
}

/// Number of columns of the active resolution.
pub open spec fn cols(hires: bool) -> int {
    if hires { 128 } else { 64 }
}

/// Number of rows of the active resolution.
pub open spec fn rows(hires: bool) -> int {
    if hires { 64 } else { 32 }
}

/// `pc + 2` on a 16-bit program counter.
pub open spec fn next_pc(pc: u16) -> u16 {
    ((pc as int + 2) % 0x10000) as u16
}

/// `pc - 2` on a 16-bit program counter.
pub open spec fn prev_pc(pc: u16) -> u16 {
    ((pc as int + 0x10000 - 2) % 0x10000) as u16
}

/// The state with register `x` set to `v`.
pub open spec fn set_reg(s: MachineState, x: u8, v: u8) -> MachineState {
    MachineState { registers: s.registers.update(x as int, v), ..s }
}

/// The state that skips the next instruction when `cond` holds.
pub open spec fn skip_if(s: MachineState, cond: bool) -> MachineState {
    if cond { MachineState { pc: next_pc(s.pc), ..s } } else { s }
}

/// The pixel buffer moved `shift` cells toward the end, zeros coming in.
pub open spec fn scrolled_down(d: Seq<u8>, shift: int) -> Seq<u8> {
    Seq::new(DISPLAY_SIZE as nat, |p: int| if p < shift { 0u8 } else { d[p - shift] })
}

/// Each of the first `h` rows of width `w` moved four columns right, zeros coming in.
pub open spec fn scrolled_right(d: Seq<u8>, w: int, h: int) -> Seq<u8> {
    Seq::new(
        DISPLAY_SIZE as nat,
        |p: int| if p < w * h { if p % w < 4 { 0u8 } else { d[p - 4] } } else { d[p] },
    )
}

/// Each of the first `h` rows of width `w` moved four columns left, zeros coming in.
pub open spec fn scrolled_left(d: Seq<u8>, w: int, h: int) -> Seq<u8> {
    Seq::new(
        DISPLAY_SIZE as nat,
        |p: int| if p < w * h { if p % w < w - 4 { d[p + 4] } else { 0u8 } } else { d[p] },
    )
}

/// An all-dark pixel buffer.
pub open spec fn blank_display() -> Seq<u8> {
    Seq::new(DISPLAY_SIZE as nat, |p: int| 0u8)
}

// ---------------------------------------------------------------- sprites

/// `DXY0` draws a 16 × 16 sprite on every variant but CHIP-8.
pub open spec fn big_sprite(v: Variant, n: u8) -> bool {
    n == 0 && v != Variant::CHIP8
}

pub open spec fn sprite_width(v: Variant, n: u8) -> int {
    if big_sprite(v, n) { 16 } else { 8 }
}

pub open spec fn sprite_height(v: Variant, n: u8) -> int {
    if big_sprite(v, n) { 16 } else { n as int }
}

/// Bytes of sprite data per row.
pub open spec fn sprite_row_bytes(v: Variant, n: u8) -> int {
    if big_sprite(v, n) { 2 } else { 1 }
}

/// CHIP-8 and SCHIP 1.0 cut sprites off at the right and bottom edges; the
/// other variants wrap them around.
pub open spec fn clips(v: Variant) -> bool {
    v == Variant::CHIP8 || v == Variant::SCHIP1_0
}

/// Column of the sprite's top-left corner.
pub open spec fn origin_x(s: MachineState, x: u8) -> int {
    s.registers[x as int] as int % cols(s.hires_mode)
}

/// Row of the sprite's top-left corner.
pub open spec fn origin_y(s: MachineState, y: u8) -> int {
    s.registers[y as int] as int % rows(s.hires_mode)
}

/// Bit `c` of row `r` of the sprite at `I`.
pub open spec fn sprite_bit(s: MachineState, n: u8, r: int, c: int) -> bool {
    let byte = s.memory[(s.i as int + r * sprite_row_bytes(s.variant, n) + c / 8) % (MEMORY_SIZE as int)];
    byte & (0x80u8 >> ((c % 8) as u8)) != 0
}

/// The sprite's cell (r, c) is set and lands on the screen.
pub open spec fn cell_lit(s: MachineState, x: u8, y: u8, n: u8, r: int, c: int) -> bool {
    &&& 0 <= r < sprite_height(s.variant, n)
    &&& 0 <= c < sprite_width(s.variant, n)
    &&& (clips(s.variant) ==> origin_x(s, x) + c < cols(s.hires_mode) && origin_y(s, y) + r
        < rows(s.hires_mode))
    &&& sprite_bit(s, n, r, c)
}

/// The pixel on which the sprite's cell (r, c) lands.
pub open spec fn cell_pixel(s: MachineState, x: u8, y: u8, r: int, c: int) -> int {
    ((origin_y(s, y) + r) % rows(s.hires_mode)) * cols(s.hires_mode) + (origin_x(s, x) + c) % cols(
        s.hires_mode,
    )
}

/// The sprite row that lands on pixel `p`.
pub open spec fn pixel_row(s: MachineState, y: u8, p: int) -> int {
    (p / cols(s.hires_mode) + rows(s.hires_mode) - origin_y(s, y)) % rows(s.hires_mode)
}

/// The sprite column that lands on pixel `p`.
pub open spec fn pixel_col(s: MachineState, x: u8, p: int) -> int {
    (p % cols(s.hires_mode) + cols(s.hires_mode) - origin_x(s, x)) % cols(s.hires_mode)
}

/// Drawing the sprite inverts pixel `p`.
pub open spec fn pixel_flipped(s: MachineState, x: u8, y: u8, n: u8, p: int) -> bool {
    &&& 0 <= p < cols(s.hires_mode) * rows(s.hires_mode)
    &&& cell_lit(s, x, y, n, pixel_row(s, y, p), pixel_col(s, x, p))
}

/// The pixel buffer after drawing the sprite: each pixel the sprite covers is inverted.
pub open spec fn drawn_display(s: MachineState, x: u8, y: u8, n: u8) -> Seq<u8> {
    Seq::new(
        DISPLAY_SIZE as nat,
        |p: int|
            if pixel_flipped(s, x, y, n, p) {
                s.display[p] ^ 1u8
            } else {
                s.display[p]
            },
    )
}

/// Some set cell of the sprite lands on a pixel that is already lit.
pub open spec fn collides(s: MachineState, x: u8, y: u8, n: u8) -> bool {
    exists|r: int, c: int|
        #[trigger] cell_lit(s, x, y, n, r, c) && s.display[cell_pixel(s, x, y, r, c)] == 1
}

/// Some set cell of the sprite before (r, c) in row-major order lands on a
/// pixel that is already lit.
pub open spec fn collides_before(s: MachineState, x: u8, y: u8, n: u8, r: int, c: int) -> bool {
    exists|r2: int, c2: int|
        (r2 < r || (r2 == r && c2 < c)) && #[trigger] cell_lit(s, x, y, n, r2, c2)
            && s.display[cell_pixel(s, x, y, r2, c2)] == 1
}

/// Cell (r, c) of a sprite no larger than the screen lands on a pixel from
/// which `pixel_row`/`pixel_col` give (r, c) back.
pub proof fn lemma_cell_pixel_inverse(w: int, h: int, ox: int, oy: int, r: int, c: int)
    requires
        (w == 64 && h == 32) || (w == 128 && h == 64),
        0 <= ox < w,
        0 <= oy < h,
        0 <= r < h,
        0 <= c < w,
    ensures
        0 <= ((oy + r) % h) * w + (ox + c) % w < w * h,
        ((((oy + r) % h) * w + (ox + c) % w) / w + h - oy) % h == r,
        ((((oy + r) % h) * w + (ox + c) % w) % w + w - ox) % w == c,
{
    let py = (oy + r) % h;
    let px = (ox + c) % w;
    assert(0 <= py < h);
    assert(0 <= px < w);
    assert((py * w + px) / w == py) by (nonlinear_arith)
        requires 0 <= px < w, 0 <= py, w > 0;
    assert((py * w + px) % w == px) by (nonlinear_arith)
        requires 0 <= px < w, 0 <= py, w > 0;
    assert(py * w + px < w * h) by (nonlinear_arith)
        requires 0 <= px < w, 0 <= py < h, w > 0;
}

/// Every pixel of the screen is where the cell that `pixel_row`/`pixel_col`
/// name lands.
pub proof fn lemma_pixel_cell_inverse(w: int, h: int, ox: int, oy: int, q: int)
    requires
        (w == 64 && h == 32) || (w == 128 && h == 64),
        0 <= ox < w,
        0 <= oy < h,
        0 <= q < w * h,
    ensures
        ((oy + (q / w + h - oy) % h) % h) * w + (ox + (q % w + w - ox) % w) % w == q,
{
    let py = q / w;
    let px = q % w;
    assert(q == py * w + px) by (nonlinear_arith)
        requires w > 0, py == q / w, px == q % w;
    assert(0 <= py < h) by (nonlinear_arith)
        requires w > 0, py == q / w, 0 <= q < w * h;
    assert((oy + (py + h - oy) % h) % h == py);
    assert((ox + (px + w - ox) % w) % w == px);
}

/// Inverting a pixel twice restores it, and a pixel stays 0 or 1.
pub proof fn lemma_flip(b: u8)
    ensures
        (b ^ 1u8) ^ 1u8 == b,
        b <= 1 ==> (b ^ 1u8) <= 1,
        b <= 1 ==> ((b ^ 1u8) == 1 <==> b == 0),
{
    assert((b ^ 1u8) ^ 1u8 == b) by (bit_vector);
    assert(b <= 1 ==> (b ^ 1u8) <= 1) by (bit_vector);
    assert(b <= 1 ==> ((b ^ 1u8) == 1 <==> b == 0)) by (bit_vector);
}

/// `DXYN`.
pub open spec fn draw(s: MachineState, x: u8, y: u8, n: u8) -> MachineState {
    MachineState {
        display: drawn_display(s, x, y, n),
        registers: s.registers.update(15, if collides(s, x, y, n) { 1u8 } else { 0u8 }),
        displayed: true,
        ..s
    }
}

// ---------------------------------------------------------------- keypad

/// The first key position from `k` on that is down in `keys` (16 when none is).
pub open spec fn first_down_from(keys: Seq<bool>, k: int) -> int
    decreases 16 - k,
{
    if k >= 16 {
        16
    } else if keys[k] {
        k
    } else {
        first_down_from(keys, k + 1)
    }
}

/// The first key position that is down in `keys` (16 when none is).
pub open spec fn first_down(keys: Seq<bool>) -> int {
    first_down_from(keys, 0)
}

/// `FX0A`: with no key down in the previous snapshot, stay on this instruction.
/// Otherwise latch the key held (or the first one down) and, once it goes from
/// down in the previous snapshot to up now, store its value in `VX`, clear the
/// latch and go on; until then stay on this instruction.
pub open spec fn wait_key(s: MachineState, x: u8) -> MachineState {
    if first_down(s.keypad_prev) >= 16 {
        MachineState { pc: prev_pc(s.pc), ..s }
    } else {
        let key: usize = match s.last_pressed_key {
            Some(k) => k,
            None => first_down(s.keypad_prev) as usize,
        };
        if !s.keypad[key as int] && s.keypad_prev[key as int] {
            MachineState {
                registers: s.registers.update(x as int, key_value(key as int)),
                last_pressed_key: None,
                ..s
            }
        } else {
            MachineState { pc: prev_pc(s.pc), last_pressed_key: Some(key), ..s }
        }
    }
}

// ---------------------------------------------------------------- memory

/// The offset of address `a` from `I`, modulo the memory size.
pub open spec fn offset_from_i(s: MachineState, a: int) -> int {
    (a - s.i as int) % (MEMORY_SIZE as int)
}

/// `FX33`: the hundreds, tens and ones digits of `VX` at `I`, `I + 1`, `I + 2`.
pub open spec fn store_bcd(s: MachineState, x: u8) -> MachineState {
    let v = s.registers[x as int];
    MachineState {
        memory: Seq::new(
            MEMORY_SIZE as nat,
            |a: int|
                if offset_from_i(s, a) == 0 {
                    v / 100
                } else if offset_from_i(s, a) == 1 {
                    (v / 10) % 10
                } else if offset_from_i(s, a) == 2 {
                    v % 10
                } else {
                    s.memory[a]
                },
        ),
        ..s
    }
}

/// `I` after `FX55`/`FX65`: advanced past the registers on CHIP-8 only.
pub open spec fn index_after_transfer(s: MachineState, x: u8) -> u16 {
    if s.variant == Variant::CHIP8 {
        ((s.i as int + x as int + 1) % 0x10000) as u16
    } else {
        s.i
    }
}

/// `FX55`: `V0..=VX` at `I..=I + X`.
pub open spec fn store_registers(s: MachineState, x: u8) -> MachineState {
    MachineState {
        memory: Seq::new(
            MEMORY_SIZE as nat,
            |a: int|
                if offset_from_i(s, a) <= x as int {
                    s.registers[offset_from_i(s, a)]
                } else {
                    s.memory[a]
                },
        ),
        i: index_after_transfer(s, x),
        ..s
    }
}

/// `FX65`: `V0..=VX` from `I..=I + X`.
pub open spec fn load_registers(s: MachineState, x: u8) -> MachineState {
    MachineState {
        registers: Seq::new(
            16,
            |k: int|
                if k <= x as int {
                    s.memory[(s.i as int + k) % (MEMORY_SIZE as int)]
                } else {
                    s.registers[k]
                },
        ),
        i: index_after_transfer(s, x),
        ..s
    }
}

/// `FX75`: `V0..=VX` into the flag registers (the first eight at most).
pub open spec fn save_flags(s: MachineState, x: u8) -> MachineState {
    MachineState {
        flags: Seq::new(8, |k: int| if k <= x as int { s.registers[k] } else { s.flags[k] }),
        ..s
    }
}

/// `FX85`: `V0..=VX` from the flag registers (the first eight at most).
pub open spec fn load_flags(s: MachineState, x: u8) -> MachineState {
    MachineState {
        registers: Seq::new(
            16,
            |k: int| if k <= x as int && k < 8 { s.flags[k] } else { s.registers[k] },
        ),
        ..s
    }
}

// ---------------------------------------------------------------- arithmetic

/// `VX = v`, then `VF = flag`.
pub open spec fn set_with_flag(s: MachineState, x: u8, v: u8, flag: u8) -> MachineState {
    set_reg(set_reg(s, x, v), 15, flag)
}

/// The source of a shift: `VY` on CHIP-8, `VX` on the other variants.
pub open spec fn shift_source(s: MachineState, x: u8, y: u8) -> u8 {
    if s.variant == Variant::CHIP8 { s.registers[y as int] } else { s.registers[x as int] }
}

/// A logical operation's result in `VX`; on CHIP-8 `VF` is then cleared.
pub open spec fn logic_result(s: MachineState, x: u8, v: u8) -> MachineState {
    if s.variant == Variant::CHIP8 { set_with_flag(s, x, v, 0) } else { set_reg(s, x, v) }
}

/// The register that `BNNN` adds to its address: `VX` on SCHIP, `V0` elsewhere.
pub open spec fn jump_offset_register(v: Variant, x: u8) -> int {
    if v == Variant::SCHIP1_0 || v == Variant::SCHIP1_1 { x as int } else { 0 }
}

// ---------------------------------------------------------------- execution

/// Display instructions.
pub open spec fn execute_display(s: MachineState, ins: Instruction, random: u8) -> MachineState {
    match ins {
        Instruction::ScrollDown { n } => MachineState {
            display: scrolled_down(s.display, n as int * cols(s.hires_mode)),
            ..s
        },
        Instruction::Clear => MachineState { display: blank_display(), ..s },
        Instruction::ScrollRight => MachineState {
            display: scrolled_right(s.display, cols(s.hires_mode), rows(s.hires_mode)),
            ..s
        },
        Instruction::ScrollLeft => MachineState {
            display: scrolled_left(s.display, cols(s.hires_mode), rows(s.hires_mode)),
            ..s
        },
        Instruction::LowRes => MachineState { hires_mode: false, ..s },
        Instruction::HighRes => MachineState { hires_mode: true, ..s },
        Instruction::Draw { x, y, n } => draw(s, x, y, n),
        _ => s,
    }
}

/// Jumps, calls, returns and skips.
pub open spec fn execute_flow(s: MachineState, ins: Instruction, random: u8) -> MachineState {
    match ins {
        Instruction::Return => if s.stack.len() > 0 {
            MachineState { pc: s.stack.last(), stack: s.stack.drop_last(), ..s }
        } else {
            MachineState { pc: PROGRAM_START, ..s }
        },
        Instruction::Jump { nnn } => MachineState { pc: nnn, ..s },
        Instruction::Call { nnn } => MachineState { pc: nnn, stack: s.stack.push(s.pc), ..s },
        Instruction::SkipEqImm { x, nn } => skip_if(s, s.registers[x as int] == nn),
        Instruction::SkipNeImm { x, nn } => skip_if(s, s.registers[x as int] != nn),
        Instruction::SkipEqReg { x, y } => skip_if(s, s.registers[x as int] == s.registers[y as int]),
        Instruction::SkipNeReg { x, y } => skip_if(s, s.registers[x as int] != s.registers[y as int]),
        Instruction::JumpOffset { x, nnn } => MachineState {
            pc: (nnn + s.registers[jump_offset_register(s.variant, x)]) as u16,
            ..s
        },
        Instruction::SkipKey { x } => skip_if(s, s.keypad[key_index(s.registers[x as int] as int % 16)]),
        Instruction::SkipNotKey { x } => skip_if(s, !s.keypad[key_index(s.registers[x as int] as int % 16)]),
        _ => s,
    }
}

/// Register loads and logic.
pub open spec fn execute_registers(s: MachineState, ins: Instruction, random: u8) -> MachineState {
    match ins {
        Instruction::SetImm { x, nn } => set_reg(s, x, nn),
        Instruction::AddImm { x, nn } => set_reg(s, x, ((s.registers[x as int] + nn) % 256) as u8),
        Instruction::Assign { x, y } => set_reg(s, x, s.registers[y as int]),
        Instruction::Random { x, nn } => set_reg(s, x, random & nn),
        Instruction::Or { x, y } => logic_result(s, x, s.registers[x as int] | s.registers[y as int]),
        Instruction::And { x, y } => logic_result(s, x, s.registers[x as int] & s.registers[y as int]),
        Instruction::Xor { x, y } => logic_result(s, x, s.registers[x as int] ^ s.registers[y as int]),
        _ => s,
    }
}

/// Arithmetic and shifts that leave a flag in `VF`.
pub open spec fn execute_flagged(s: MachineState, ins: Instruction, random: u8) -> MachineState {
    match ins {
        Instruction::AddReg { x, y } => set_with_flag(
            s,
            x,
            ((s.registers[x as int] + s.registers[y as int]) % 256) as u8,
            if s.registers[x as int] + s.registers[y as int] > 255 { 1 } else { 0 },
        ),
        Instruction::SubReg { x, y } => set_with_flag(
            s,
            x,
            ((s.registers[x as int] - s.registers[y as int] + 256) % 256) as u8,
            if s.registers[x as int] >= s.registers[y as int] { 1 } else { 0 },
        ),
        Instruction::ShiftRight { x, y } => set_with_flag(
            s,
            x,
            shift_source(s, x, y) / 2,
            shift_source(s, x, y) % 2,
        ),
        Instruction::SubRev { x, y } => set_with_flag(
            s,
            x,
            ((s.registers[y as int] - s.registers[x as int] + 256) % 256) as u8,
            if s.registers[y as int] >= s.registers[x as int] { 1 } else { 0 },
        ),
        Instruction::ShiftLeft { x, y } => set_with_flag(
            s,
            x,
            ((shift_source(s, x, y) * 2) % 256) as u8,
            shift_source(s, x, y) / 128,
        ),
        _ => s,
    }
}

/// Timers, keypad waits, the index register and memory transfers.
pub open spec fn execute_other(s: MachineState, ins: Instruction, random: u8) -> MachineState {
    match ins {
        Instruction::SetIndex { nnn } => MachineState { i: nnn, ..s },
        Instruction::GetDelay { x } => set_reg(s, x, s.delay_timer),
        Instruction::WaitKey { x } => wait_key(s, x),
        Instruction::SetDelay { x } => MachineState { delay_timer: s.registers[x as int], ..s },
        Instruction::SetSound { x } => MachineState { sound_timer: s.registers[x as int], ..s },
        Instruction::AddIndex { x } => MachineState {
            i: ((s.i + s.registers[x as int]) % 0x10000) as u16,
            ..s
        },
        Instruction::FontLow { x } => MachineState { i: (5 * (s.registers[x as int] % 16)) as u16, ..s },
        Instruction::FontHigh { x } => MachineState {
            i: (FONT_HIGH_START + 10 * (s.registers[x as int] % 16)) as u16,
            ..s
        },
        Instruction::Bcd { x } => store_bcd(s, x),
        Instruction::Store { x } => store_registers(s, x),
        Instruction::Load { x } => load_registers(s, x),
        Instruction::SaveFlags { x } => save_flags(s, x),
        Instruction::LoadFlags { x } => load_flags(s, x),
        Instruction::Unknown { .. } => s,
        _ => s,
    }
}

/// The effect of executing `ins` on `s` (the program counter already past it);
/// `random` is the byte that `CXNN` draws.
pub open spec fn execute(s: MachineState, ins: Instruction, random: u8) -> MachineState {
    match ins {
        Instruction::ScrollDown { .. }
        | Instruction::Clear
        | Instruction::ScrollRight
        | Instruction::ScrollLeft
        | Instruction::LowRes
        | Instruction::HighRes
        | Instruction::Draw { .. } => execute_display(s, ins, random),
        Instruction::Return
        | Instruction::Jump { .. }
        | Instruction::Call { .. }
        | Instruction::SkipEqImm { .. }
        | Instruction::SkipNeImm { .. }
        | Instruction::SkipEqReg { .. }
        | Instruction::SkipNeReg { .. }
        | Instruction::JumpOffset { .. }
        | Instruction::SkipKey { .. }
        | Instruction::SkipNotKey { .. } => execute_flow(s, ins, random),
        Instruction::SetImm { .. }
        | Instruction::AddImm { .. }
        | Instruction::Assign { .. }
        | Instruction::Random { .. }
        | Instruction::Or { .. }
        | Instruction::And { .. }
        | Instruction::Xor { .. } => execute_registers(s, ins, random),
        Instruction::AddReg { .. }
        | Instruction::SubReg { .. }
        | Instruction::ShiftRight { .. }
        | Instruction::SubRev { .. }
        | Instruction::ShiftLeft { .. } => execute_flagged(s, ins, random),
        Instruction::SetIndex { .. }
        | Instruction::GetDelay { .. }
        | Instruction::WaitKey { .. }
        | Instruction::SetDelay { .. }
        | Instruction::SetSound { .. }
        | Instruction::AddIndex { .. }
        | Instruction::FontLow { .. }
        | Instruction::FontHigh { .. }
        | Instruction::Bcd { .. }
        | Instruction::Store { .. }
        | Instruction::Load { .. }
        | Instruction::SaveFlags { .. }
        | Instruction::LoadFlags { .. }
        | Instruction::Unknown { .. } => execute_other(s, ins, random),
    }
}

/// Where the next instruction is fetched: `pc`, or the program start once
/// `pc` has run past the end of memory.
pub open spec fn fetch_address(s: MachineState) -> int {
    if s.pc as int >= MEMORY_SIZE { PROGRAM_START as int } else { s.pc as int }
}

/// The instruction at the fetch address (the word's second byte wraps around memory).
pub open spec fn fetched(s: MachineState) -> Instruction {
    let a = fetch_address(s);
    decode(s.memory[a], s.memory[(a + 1) % (MEMORY_SIZE as int)])
}

/// One step: fetch, move the program counter past the instruction, clear the
/// draw mark, execute, then snapshot the keypad for edge detection.
pub open spec fn step(s: MachineState, random: u8) -> MachineState {
    let s1 = MachineState { pc: (fetch_address(s) + 2) as u16, displayed: false, ..s };
    let s2 = execute(s1, fetched(s), random);
    MachineState { keypad_prev: s2.keypad, ..s2 }
}

// ---------------------------------------------------------------- session

/// A fresh session: memory, display, registers, timers and flags zero, `pc`
/// at the program start, empty stack, all keys up, low resolution.
pub open spec fn initial(variant: Variant) -> MachineState {
    MachineState {
        memory: Seq::new(MEMORY_SIZE as nat, |a: int| 0u8),
        display: blank_display(),
        pc: PROGRAM_START,
        i: 0,
        stack: Seq::empty(),
        delay_timer: 0,
        sound_timer: 0,
        registers: Seq::new(16, |k: int| 0u8),
        keypad: Seq::new(16, |k: int| false),
        keypad_prev: Seq::new(16, |k: int| false),
        last_pressed_key: None,
        displayed: false,
        variant,
        hires_mode: false,
        flags: Seq::new(8, |k: int| 0u8),
    }
}

/// Memory with the low-resolution glyphs at 0 and the high-resolution ones
/// at `FONT_HIGH_START`.
pub open spec fn with_font(s: MachineState) -> MachineState {
    MachineState {
        memory: Seq::new(
            MEMORY_SIZE as nat,
            |a: int|
                if a < FONT_HIGH_START {
                    font_low()[a]
                } else if a < FONT_HIGH_START + 160 {
                    font_high()[a - FONT_HIGH_START]
                } else {
                    s.memory[a]
                },
        ),
        ..s
    }
}

/// Memory with `rom` copied from the program start on; the bytes that would
/// fall past the end of memory are left out.
pub open spec fn with_rom(s: MachineState, rom: Seq<u8>) -> MachineState {
    MachineState {
        memory: Seq::new(
            MEMORY_SIZE as nat,
            |a: int|
                if PROGRAM_START <= a < PROGRAM_START + rom.len() {
                    rom[a - PROGRAM_START]
                } else {
                    s.memory[a]
                },
        ),
        ..s
    }
}

/// One frame tick: each nonzero timer goes down by one.
pub open spec fn tick(s: MachineState) -> MachineState {
    MachineState {
        delay_timer: if s.delay_timer > 0 { (s.delay_timer - 1) as u8 } else { 0 },
        sound_timer: if s.sound_timer > 0 { (s.sound_timer - 1) as u8 } else { 0 },
        ..s
    }
}

/// The state with key `index` down or up.
pub open spec fn with_key(s: MachineState, index: int, down: bool) -> MachineState {
    MachineState { keypad: s.keypad.update(index, down), ..s }
}

/// CHIP-8 and SCHIP 1.0 wait for the display after a draw: a frame ends
/// with the step that drew.
pub open spec fn waits_for_display(v: Variant) -> bool {
    v == Variant::CHIP8 || v == Variant::SCHIP1_0
}

/// One frame: a step for each byte of `randoms` (the byte `CXNN` draws in
/// that step), ending early after a step that drew on a variant that waits
/// for the display, then one timer tick.
#[verifier::opaque]
pub open spec fn frame(s: MachineState, randoms: Seq<u8>) -> MachineState
    decreases randoms.len(),
{
    if randoms.len() == 0 {
        tick(s)
    } else {
        let t = step(s, randoms[0]);
        if waits_for_display(t.variant) && t.displayed {
            tick(t)
        } else {
            frame(t, randoms.drop_first())
        }
    }
}

/// One step of a frame, unfolded.
pub proof fn lemma_frame_step(s: MachineState, randoms: Seq<u8>, t: MachineState)
    requires
        randoms.len() > 0,
        t == step(s, randoms[0]),
    ensures
        frame(s, randoms) == (if waits_for_display(t.variant) && t.displayed {
            tick(t)
        } else {
            frame(t, randoms.drop_first())
        }),
{
    reveal_with_fuel(frame, 1);
}

/// A frame with no steps left is one timer tick.
pub proof fn lemma_frame_end(s: MachineState, randoms: Seq<u8>)
    requires
        randoms.len() == 0,
    ensures
        frame(s, randoms) == tick(s),
{
    reveal_with_fuel(frame, 1);
}

/// The visible part of the pixel buffer: the first `cols × rows` cells, row by row.
pub open spec fn visible_display(s: MachineState) -> Seq<u8> {
    s.display.subrange(0, cols(s.hires_mode) * rows(s.hires_mode))
}

} // verus!
