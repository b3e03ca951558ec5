//! The interpreter session: one owned state record, stepped one instruction
//! at a time by its caller.
use vstd::prelude::*;
use crate::font::{low_glyphs, high_glyphs};
use crate::machine::{
    MachineState, Variant, MEMORY_SIZE, DISPLAY_SIZE, PROGRAM_START, initial, with_font, with_rom,
    tick, with_key, visible_display, cols, rows, scrolled_down, scrolled_right, scrolled_left,
    blank_display, set_with_flag, logic_result, shift_source, skip_if, store_bcd, offset_from_i,
    index_after_transfer, store_registers, load_registers, save_flags, load_flags, draw, origin_x,
    origin_y, sprite_width, sprite_height, sprite_row_bytes, clips, pixel_flipped, pixel_row,
    pixel_col, cell_lit, cell_pixel, collides_before, collides, drawn_display,
    lemma_cell_pixel_inverse, lemma_pixel_cell_inverse, lemma_flip, first_down, first_down_from,
    wait_key, execute, execute_display, execute_flow, execute_registers, execute_flagged,
    execute_other, step, frame, STEPS_PER_FRAME, lemma_frame_step,
    lemma_frame_end, FONT_HIGH_START, set_reg,
};
use crate::instruction::{Instruction, decode_word, well_formed};
use crate::keypad::{index_from_value, value_from_index};

verus! {

/// An interpreter session.
pub struct Chip8 {
    memory: [u8; 4096],
    display: [u8; 8192],
    pc: u16,
    i: u16,
    stack: Vec<u16>,
    delay_timer: u8,
    sound_timer: u8,
    registers: [u8; 16],
    keypad: [bool; 16],
    keypad_prev: [bool; 16],
    last_pressed_key: Option<usize>,
    displayed: bool,
    variant: Variant,
    hires_mode: bool,
    flags: [u8; 8],
}

/// Relies on `rand::random::<u8>`: some byte, drawn from the thread's generator.
#[verifier::external_body]
fn random_byte() -> (r: u8) {
    rand::random::<u8>()
}

/// `first_down_from(keys, k)` is `k` when `k` is 16 or key `k` is down.
proof fn lemma_first_down_here(keys: Seq<bool>, k: int)
    requires
        0 <= k <= 16,
        k < 16 ==> keys[k],
    ensures
        first_down_from(keys, k) == k,
{
}

impl View for Chip8 {
    type V = MachineState;

    closed spec fn view(&self) -> MachineState {
        MachineState {
            memory: self.memory@,
            display: self.display@,
            pc: self.pc,
            i: self.i,
            stack: self.stack@,
            delay_timer: self.delay_timer,
            sound_timer: self.sound_timer,
            registers: self.registers@,
            keypad: self.keypad@,
            keypad_prev: self.keypad_prev@,
            last_pressed_key: self.last_pressed_key,
            displayed: self.displayed,
            variant: self.variant,
            hires_mode: self.hires_mode,
            flags: self.flags@,
        }
    }
}

impl Chip8 {
    /// A new session of `variant`: `pc` at the program start, everything else zero.
    pub fn new(variant: Variant) -> (r: Chip8)
        ensures
            r@ == initial(variant),
            r@.wf(),
    {
        let r = Chip8 {
            memory: [0u8; 4096],
            display: [0u8; 8192],
            pc: PROGRAM_START,
            i: 0,
            stack: Vec::new(),
            delay_timer: 0,
            sound_timer: 0,
            registers: [0u8; 16],
            keypad: [false; 16],
            keypad_prev: [false; 16],
            last_pressed_key: None,
            displayed: false,
            variant,
            hires_mode: false,
            flags: [0u8; 8],
        };
        assert(r@.memory =~= initial(variant).memory);
        assert(r@.display =~= initial(variant).display);
        assert(r@.registers =~= initial(variant).registers);
        assert(r@.keypad =~= initial(variant).keypad);
        assert(r@.keypad_prev =~= initial(variant).keypad_prev);
        assert(r@.flags =~= initial(variant).flags);
        assert(r@.stack =~= initial(variant).stack);
        r
    }

    /// Copies the glyph tables into low memory: the low-resolution glyphs at
    /// 0, the high-resolution ones at `FONT_HIGH_START`.
    pub fn load_font(&mut self)
        requires
            old(self)@.wf(),
        ensures
            final(self)@ == with_font(old(self)@),
            final(self)@.wf(),
    {
        let low = low_glyphs();
        let high = high_glyphs();
        let ghost before = self@;
        let mut k: usize = 0;
        while k < 80
            invariant
                0 <= k <= 80,
                low@ == crate::font::font_low(),
                self@ == (MachineState { memory: self@.memory, ..before }),
                self@.memory.len() == MEMORY_SIZE,
                forall|a: int| 0 <= a < k ==> self@.memory[a] == low@[a],
                forall|a: int| k <= a < MEMORY_SIZE ==> self@.memory[a] == before.memory[a],
            decreases 80 - k,
        {
            self.memory[k] = low[k];
            k = k + 1;
        }
        let mut k: usize = 0;
        while k < 160
            invariant
                0 <= k <= 160,
                low@ == crate::font::font_low(),
                high@ == crate::font::font_high(),
                self@ == (MachineState { memory: self@.memory, ..before }),
                self@.memory.len() == MEMORY_SIZE,
                forall|a: int| 0 <= a < 80 ==> self@.memory[a] == low@[a],
                forall|a: int| 80 <= a < 80 + k ==> self@.memory[a] == high@[a - 80],
                forall|a: int| 80 + k <= a < MEMORY_SIZE ==> self@.memory[a] == before.memory[a],
            decreases 160 - k,
        {
            self.memory[80 + k] = high[k];
            k = k + 1;
        }
        assert(self@.memory =~= with_font(before).memory);
    }

    /// Copies `bytes` into memory from the program start on. A program
    /// longer than the memory above the program start is cut off there.
    pub fn load_rom_from_bytes(&mut self, bytes: Vec<u8>)
        requires
            old(self)@.wf(),
        ensures
            final(self)@ == with_rom(old(self)@, bytes@),
            final(self)@.wf(),
    {
        let ghost before = self@;
        let start: usize = PROGRAM_START as usize;
        let mut k: usize = 0;
        while k < bytes.len() && start + k < MEMORY_SIZE
            invariant
                0 <= k <= bytes.len(),
                start == PROGRAM_START,
                start + k <= MEMORY_SIZE,
                self@ == (MachineState { memory: self@.memory, ..before }),
                self@.memory.len() == MEMORY_SIZE,
                forall|a: int| start <= a < start + k ==> self@.memory[a] == bytes@[a - start],
                forall|a: int|
                    0 <= a < MEMORY_SIZE && !(start <= a < start + k) ==> self@.memory[a]
                        == before.memory[a],
            decreases bytes.len() - k,
        {
            self.memory[start + k] = bytes[k];
            k = k + 1;
        }
        assert(self@.memory =~= with_rom(before, bytes@).memory);
    }

    /// The visible pixels, row by row, each 0 or 1: 64 × 32 cells in low
    /// resolution, 128 × 64 in high resolution.
    pub fn get_display(&self) -> (r: Vec<u8>)
        requires
            self@.wf(),
        ensures
            r@ == visible_display(self@),
            forall|p: int| 0 <= p < r@.len() ==> #[trigger] r@[p] <= 1,
    {
        let n: usize = self.max_cols() * self.max_rows();
        let mut r: Vec<u8> = Vec::new();
        let mut k: usize = 0;
        while k < n
            invariant
                0 <= k <= n,
                n == cols(self@.hires_mode) * rows(self@.hires_mode),
                self@.wf(),
                r@ == self@.display.subrange(0, k as int),
            decreases n - k,
        {
            r.push(self.display[k]);
            k = k + 1;
            assert(r@ =~= self@.display.subrange(0, k as int));
        }
        r
    }

    /// Sets key `key_index` (a position `0..16` on the keypad) down or up.
    pub fn set_keypad_state(&mut self, key_index: u8, value: bool)
        requires
            old(self)@.wf(),
            key_index < 16,
        ensures
            final(self)@ == with_key(old(self)@, key_index as int, value),
            final(self)@.wf(),
    {
        self.keypad[key_index as usize] = value;
    }

    /// One frame tick: each nonzero timer goes down by one.
    pub fn decrement_timers(&mut self)
        requires
            old(self)@.wf(),
        ensures
            final(self)@ == tick(old(self)@),
            final(self)@.wf(),
    {
        if self.delay_timer > 0 {
            self.delay_timer = self.delay_timer - 1;
        }
        if self.sound_timer > 0 {
            self.sound_timer = self.sound_timer - 1;
        }
    }

    /// The sound timer; audio plays while it is nonzero.
    pub fn get_sound_timer(&self) -> (r: u8)
        ensures
            r == self@.sound_timer,
    {
        self.sound_timer
    }

    /// Whether the most recent step drew a sprite.
    pub fn displayed_this_frame(&self) -> (r: bool)
        ensures
            r == self@.displayed,
    {
        self.displayed
    }

    /// Whether the display is in high resolution (128 × 64).
    pub fn hires_mode(&self) -> (r: bool)
        ensures
            r == self@.hires_mode,
    {
        self.hires_mode
    }

    // ------------------------------------------------------------ keypad

    /// The first key position down in the previous snapshot (16 when none is).
    fn first_key_down_before(&self) -> (r: usize)
        requires
            self@.wf(),
        ensures
            r == first_down(self@.keypad_prev),
    {
        let mut k: usize = 0;
        while k < 16 && !self.keypad_prev[k]
            invariant
                0 <= k <= 16,
                self@.wf(),
                first_down(self@.keypad_prev) == first_down_from(self@.keypad_prev, k as int),
            decreases 16 - k,
        {
            k = k + 1;
        }
        proof {
            lemma_first_down_here(self@.keypad_prev, k as int);
        }
        k
    }

    /// `FX0A`.
    fn wait_key(&mut self, x: u8)
        requires
            old(self)@.wf(),
            x < 16,
        ensures
            final(self)@ == wait_key(old(self)@, x),
            final(self)@.wf(),
    {
        let first = self.first_key_down_before();
        if first >= 16 {
            self.pc = self.pc.wrapping_sub(2);
        } else {
            let key: usize = match self.last_pressed_key {
                Some(k) => k,
                None => first,
            };
            if !self.keypad[key] && self.keypad_prev[key] {
                self.registers[x as usize] = value_from_index(key as u8);
                self.last_pressed_key = None;
            } else {
                self.pc = self.pc.wrapping_sub(2);
                self.last_pressed_key = Some(key);
            }
        }
    }

    // ------------------------------------------------------------ execution

    /// Display instructions.
    fn execute_display(&mut self, ins: Instruction, random: u8)
        requires
            old(self)@.wf(),
            well_formed(ins),
            matches!(
                ins,
                Instruction::ScrollDown { .. }
                | Instruction::Clear
                | Instruction::ScrollRight
                | Instruction::ScrollLeft
                | Instruction::LowRes
                | Instruction::HighRes
                | Instruction::Draw { .. }
            ),
        ensures
            final(self)@ == execute_display(old(self)@, ins, random),
            final(self)@.wf(),
    {
        match ins {
            Instruction::ScrollDown { n } => self.scroll_down(n),
            Instruction::Clear => self.clear_display(),
            Instruction::ScrollRight => self.scroll_sideways(true),
            Instruction::ScrollLeft => self.scroll_sideways(false),
            Instruction::LowRes => self.hires_mode = false,
            Instruction::HighRes => self.hires_mode = true,
            Instruction::Draw { x, y, n } => self.draw(x, y, n),
            _ => {},
        }
    }

    /// Jumps, calls, returns and skips.
    fn execute_flow(&mut self, ins: Instruction, random: u8)
        requires
            old(self)@.wf(),
            well_formed(ins),
            matches!(
                ins,
                Instruction::Return
                | Instruction::Jump { .. }
                | Instruction::Call { .. }
                | Instruction::SkipEqImm { .. }
                | Instruction::SkipNeImm { .. }
                | Instruction::SkipEqReg { .. }
                | Instruction::SkipNeReg { .. }
                | Instruction::JumpOffset { .. }
                | Instruction::SkipKey { .. }
                | Instruction::SkipNotKey { .. }
            ),
        ensures
            final(self)@ == execute_flow(old(self)@, ins, random),
            final(self)@.wf(),
    {
        match ins {
            Instruction::Return => {
                match self.stack.pop() {
                    Some(addr) => self.pc = addr,
                    None => self.pc = PROGRAM_START,
                }
            },
            Instruction::Jump { nnn } => self.pc = nnn,
            Instruction::Call { nnn } => {
                self.stack.push(self.pc);
                self.pc = nnn;
            },
            Instruction::SkipEqImm { x, nn } => {
                let cond = self.registers[x as usize] == nn;
                self.skip_if(cond);
            },
            Instruction::SkipNeImm { x, nn } => {
                let cond = self.registers[x as usize] != nn;
                self.skip_if(cond);
            },
            Instruction::SkipEqReg { x, y } => {
                let cond = self.registers[x as usize] == self.registers[y as usize];
                self.skip_if(cond);
            },
            Instruction::SkipNeReg { x, y } => {
                let cond = self.registers[x as usize] != self.registers[y as usize];
                self.skip_if(cond);
            },
            Instruction::JumpOffset { x, nnn } => {
                let offset = if self.variant == Variant::SCHIP1_0 || self.variant == Variant::SCHIP1_1 {
                    self.registers[x as usize]
                } else {
                    self.registers[0]
                };
                self.pc = nnn + offset as u16;
            },
            Instruction::SkipKey { x } => {
                let index = index_from_value(self.registers[x as usize] % 16);
                let cond = self.keypad[index];
                self.skip_if(cond);
            },
            Instruction::SkipNotKey { x } => {
                let index = index_from_value(self.registers[x as usize] % 16);
                let cond = !self.keypad[index];
                self.skip_if(cond);
            },
            _ => {},
        }
    }

    /// Register loads and logic.
    fn execute_registers(&mut self, ins: Instruction, random: u8)
        requires
            old(self)@.wf(),
            well_formed(ins),
            matches!(
                ins,
                Instruction::SetImm { .. }
                | Instruction::AddImm { .. }
                | Instruction::Assign { .. }
                | Instruction::Random { .. }
                | Instruction::Or { .. }
                | Instruction::And { .. }
                | Instruction::Xor { .. }
            ),
        ensures
            final(self)@ == execute_registers(old(self)@, ins, random),
            final(self)@.wf(),
    {
        match ins {
            Instruction::SetImm { x, nn } => self.set_reg(x, nn),
            Instruction::AddImm { x, nn } => {
                let v = self.registers[x as usize].wrapping_add(nn);
                self.set_reg(x, v);
            },
            Instruction::Assign { x, y } => {
                let v = self.registers[y as usize];
                self.set_reg(x, v);
            },
            Instruction::Random { x, nn } => self.set_reg(x, random & nn),

            Instruction::Or { x, y } => {
                let v = self.registers[x as usize] | self.registers[y as usize];
                self.logic_result(x, v);
            },
            Instruction::And { x, y } => {
                let v = self.registers[x as usize] & self.registers[y as usize];
                self.logic_result(x, v);
            },
            Instruction::Xor { x, y } => {
                let v = self.registers[x as usize] ^ self.registers[y as usize];
                self.logic_result(x, v);
            },
            _ => {},
        }
    }

    /// Arithmetic and shifts that leave a flag in `VF`.
    fn execute_flagged(&mut self, ins: Instruction, random: u8)
        requires
            old(self)@.wf(),
            well_formed(ins),
            matches!(
                ins,
                Instruction::AddReg { .. }
                | Instruction::SubReg { .. }
                | Instruction::ShiftRight { .. }
                | Instruction::SubRev { .. }
                | Instruction::ShiftLeft { .. }
            ),
        ensures
            final(self)@ == execute_flagged(old(self)@, ins, random),
            final(self)@.wf(),
    {
        match ins {
            Instruction::AddReg { x, y } => {
                let vx = self.registers[x as usize];
                let vy = self.registers[y as usize];
                let carry: u8 = if vx as u16 + vy as u16 > 255 { 1 } else { 0 };
                self.set_with_flag(x, vx.wrapping_add(vy), carry);
            },
            Instruction::SubReg { x, y } => {
                let vx = self.registers[x as usize];
                let vy = self.registers[y as usize];
                let no_borrow: u8 = if vx >= vy { 1 } else { 0 };
                self.set_with_flag(x, vx.wrapping_sub(vy), no_borrow);
            },
            Instruction::ShiftRight { x, y } => {
                let v = self.shift_source(x, y);
                self.set_with_flag(x, v / 2, v % 2);
            },
            Instruction::SubRev { x, y } => {
                let vx = self.registers[x as usize];
                let vy = self.registers[y as usize];
                let no_borrow: u8 = if vy >= vx { 1 } else { 0 };
                self.set_with_flag(x, vy.wrapping_sub(vx), no_borrow);
            },
            Instruction::ShiftLeft { x, y } => {
                let v = self.shift_source(x, y);
                self.set_with_flag(x, v.wrapping_mul(2), v / 128);
            },
            _ => {},
        }
    }

    /// Timers, keypad waits, the index register and memory transfers.
    fn execute_other(&mut self, ins: Instruction, random: u8)
        requires
            old(self)@.wf(),
            well_formed(ins),
            matches!(
                ins,
                Instruction::SetIndex { .. }
                | Instruction::GetDelay { .. }
                | Instruction::WaitKey { .. }
                | Instruction::SetDelay { .. }
                | Instruction::SetSound { .. }
                | Instruction::AddIndex { .. }
                | Instruction::FontLow { .. }
                | Instruction::FontHigh { .. }
                | Instruction::Bcd { .. }
                | Instruction::Store { .. }
                | Instruction::Load { .. }
                | Instruction::SaveFlags { .. }
                | Instruction::LoadFlags { .. }
                | Instruction::Unknown { .. }
            ),
        ensures
            final(self)@ == execute_other(old(self)@, ins, random),
            final(self)@.wf(),
    {
        match ins {
            Instruction::SetIndex { nnn } => self.i = nnn,
            Instruction::GetDelay { x } => {
                let v = self.delay_timer;
                self.set_reg(x, v);
            },
            Instruction::WaitKey { x } => self.wait_key(x),
            Instruction::SetDelay { x } => self.delay_timer = self.registers[x as usize],
            Instruction::SetSound { x } => self.sound_timer = self.registers[x as usize],
            Instruction::AddIndex { x } => {
                self.i = self.i.wrapping_add(self.registers[x as usize] as u16);
            },
            Instruction::FontLow { x } => {
                self.i = 5 * (self.registers[x as usize] % 16) as u16;
            },
            Instruction::FontHigh { x } => {
                self.i = FONT_HIGH_START + 10 * (self.registers[x as usize] % 16) as u16;
            },
            Instruction::Bcd { x } => self.store_bcd(x),
            Instruction::Store { x } => self.store_registers(x),
            Instruction::Load { x } => self.load_registers(x),
            Instruction::SaveFlags { x } => self.save_flags(x),
            Instruction::LoadFlags { x } => self.load_flags(x),
            Instruction::Unknown { .. } => {},

            _ => {},
        }
    }

    /// Executes `ins`, the program counter already past it; `random` is the
    /// byte that `CXNN` draws.
    fn execute_instruction(&mut self, ins: Instruction, random: u8)
        requires
            old(self)@.wf(),
            well_formed(ins),
        ensures
            final(self)@ == execute(old(self)@, ins, random),
            final(self)@.wf(),
    {
        match ins {
            Instruction::ScrollDown { .. }
            | Instruction::Clear
            | Instruction::ScrollRight
            | Instruction::ScrollLeft
            | Instruction::LowRes
            | Instruction::HighRes
            | Instruction::Draw { .. } => self.execute_display(ins, random),
            Instruction::Return
            | Instruction::Jump { .. }
            | Instruction::Call { .. }
            | Instruction::SkipEqImm { .. }
            | Instruction::SkipNeImm { .. }
            | Instruction::SkipEqReg { .. }
            | Instruction::SkipNeReg { .. }
            | Instruction::JumpOffset { .. }
            | Instruction::SkipKey { .. }
            | Instruction::SkipNotKey { .. } => self.execute_flow(ins, random),
            Instruction::SetImm { .. }
            | Instruction::AddImm { .. }
            | Instruction::Assign { .. }
            | Instruction::Random { .. }
            | Instruction::Or { .. }
            | Instruction::And { .. }
            | Instruction::Xor { .. } => self.execute_registers(ins, random),
            Instruction::AddReg { .. }
            | Instruction::SubReg { .. }
            | Instruction::ShiftRight { .. }
            | Instruction::SubRev { .. }
            | Instruction::ShiftLeft { .. } => self.execute_flagged(ins, random),
            Instruction::SetIndex { .. }
            | Instruction::GetDelay { .. }
            | Instruction::WaitKey { .. }
            | Instruction::SetDelay { .. }
            | Instruction::SetSound { .. }
            | Instruction::AddIndex { .. }
            | Instruction::FontLow { .. }
            | Instruction::FontHigh { .. }
            | Instruction::Bcd { .. }
            | Instruction::Store { .. }
            | Instruction::Load { .. }
            | Instruction::SaveFlags { .. }
            | Instruction::LoadFlags { .. }
            | Instruction::Unknown { .. } => self.execute_other(ins, random),
        }
    }

    /// Executes the next instruction, with `random` as the byte that `CXNN`
    /// draws: fetches the word at `pc` (from the program start once `pc` has
    /// run past memory), moves `pc` past it, executes it, and snapshots the
    /// keypad for the next step's edge detection.
    pub fn run_with_random(&mut self, random: u8)
        requires
            old(self)@.wf(),
        ensures
            final(self)@ == step(old(self)@, random),
            final(self)@.wf(),
    {
        self.displayed = false;
        if self.pc as usize >= MEMORY_SIZE {
            self.pc = PROGRAM_START;
        }
        let hi = self.memory[self.pc as usize];
        let lo = self.memory[(self.pc as usize + 1) % MEMORY_SIZE];
        self.pc = self.pc + 2;
        let ins = decode_word(hi, lo);
        self.execute_instruction(ins, random);
        self.keypad_prev = self.keypad;
    }

    /// Executes the next instruction, drawing `CXNN`'s byte at random.
    pub fn run(&mut self)
        requires
            old(self)@.wf(),
        ensures
            exists|random: u8| final(self)@ == step(old(self)@, random),
            final(self)@.wf(),
    {
        let random = random_byte();
        self.run_with_random(random);
    }

    /// Runs one frame: a step for each byte of `randoms` (the byte `CXNN`
    /// draws in that step), ending early after a step that drew on CHIP-8 and
    /// SCHIP 1.0, then one timer tick.
    pub fn run_frame_with_random(&mut self, randoms: &Vec<u8>)
        requires
            old(self)@.wf(),
        ensures
            final(self)@ == frame(old(self)@, randoms@),
            final(self)@.wf(),
    {
        let ghost goal = frame(self@, randoms@);
        assert(randoms@.subrange(0, randoms@.len() as int) =~= randoms@);
        let mut k: usize = 0;
        let mut done = false;
        while k < randoms.len() && !done
            invariant
                0 <= k <= randoms.len(),
                self@.wf(),
                !done ==> goal == frame(self@, randoms@.subrange(k as int, randoms@.len() as int)),
                done ==> goal == tick(self@),
            decreases randoms.len() - k,
        {
            let ghost rest = randoms@.subrange(k as int, randoms@.len() as int);
            let ghost prev = self@;
            self.run_with_random(randoms[k]);
            proof {
                lemma_frame_step(prev, rest, self@);
                assert(rest.drop_first() =~= randoms@.subrange(k + 1, randoms@.len() as int));
            }
            k = k + 1;
            if (self.variant == Variant::CHIP8 || self.variant == Variant::SCHIP1_0) && self.displayed {
                done = true;
            }
        }
        proof {
            if !done {
                lemma_frame_end(self@, randoms@.subrange(k as int, randoms@.len() as int));
            }
        }
        self.decrement_timers();
    }

    /// Runs one frame of `STEPS_PER_FRAME` steps at most, `CXNN` drawing its
    /// bytes at random.
    pub fn run_frame(&mut self)
        requires
            old(self)@.wf(),
        ensures
            exists|randoms: Seq<u8>| randoms.len() == STEPS_PER_FRAME && final(self)@ == frame(old(self)@, randoms),
            final(self)@.wf(),
    {
        let mut randoms: Vec<u8> = Vec::new();
        let mut k: usize = 0;
        while k < STEPS_PER_FRAME
            invariant
                0 <= k <= STEPS_PER_FRAME,
                randoms@.len() == k,
            decreases STEPS_PER_FRAME - k,
        {
            randoms.push(random_byte());
            k = k + 1;
        }
        self.run_frame_with_random(&randoms);
    }

    // ------------------------------------------------------------ display

    /// `00CN`: the buffer moves down `n` rows, zeros coming in at the top.
    fn scroll_down(&mut self, n: u8)
        requires
            old(self)@.wf(),
            n < 16,
        ensures
            final(self)@ == (MachineState {
                display: scrolled_down(old(self)@.display, n as int * cols(old(self)@.hires_mode)),
                ..old(self)@
            }),
            final(self)@.wf(),
    {
        let ghost before = self@;
        let shift: usize = n as usize * self.max_cols();
        let old_display = self.display;
        let mut p: usize = 0;
        while p < DISPLAY_SIZE
            invariant
                0 <= p <= DISPLAY_SIZE,
                shift == n as int * cols(before.hires_mode),
                old_display@ == before.display,
                before.wf(),
                self@ == (MachineState { display: self@.display, ..before }),
                self@.display.len() == DISPLAY_SIZE,
                forall|q: int| 0 <= q < p ==> self@.display[q] == scrolled_down(before.display, shift as int)[q],
                forall|q: int| p <= q < DISPLAY_SIZE ==> self@.display[q] <= 1,
            decreases DISPLAY_SIZE - p,
        {
            if p < shift {
                self.display[p] = 0;
            } else {
                self.display[p] = old_display[p - shift];
            }
            p = p + 1;
        }
        assert(self@.display =~= scrolled_down(before.display, shift as int));
    }

    /// `00FB`/`00FC`: each visible row moves four columns right (or left),
    /// zeros coming in.
    fn scroll_sideways(&mut self, right: bool)
        requires
            old(self)@.wf(),
        ensures
            final(self)@ == (MachineState {
                display: if right {
                    scrolled_right(old(self)@.display, cols(old(self)@.hires_mode), rows(old(self)@.hires_mode))
                } else {
                    scrolled_left(old(self)@.display, cols(old(self)@.hires_mode), rows(old(self)@.hires_mode))
                },
                ..old(self)@
            }),
            final(self)@.wf(),
    {
        let ghost before = self@;
        let w: usize = self.max_cols();
        let visible: usize = w * self.max_rows();
        let ghost target = if right {
            scrolled_right(before.display, w as int, visible as int / w as int)
        } else {
            scrolled_left(before.display, w as int, visible as int / w as int)
        };
        assert(visible as int / w as int == rows(before.hires_mode));
        let old_display = self.display;
        let mut p: usize = 0;
        while p < DISPLAY_SIZE
            invariant
                0 <= p <= DISPLAY_SIZE,
                w == cols(before.hires_mode),
                visible == w * rows(before.hires_mode),
                visible as int / w as int == rows(before.hires_mode),
                target == (if right {
                    scrolled_right(before.display, w as int, visible as int / w as int)
                } else {
                    scrolled_left(before.display, w as int, visible as int / w as int)
                }),
                old_display@ == before.display,
                before.wf(),
                self@ == (MachineState { display: self@.display, ..before }),
                self@.display.len() == DISPLAY_SIZE,
                forall|q: int| 0 <= q < p ==> self@.display[q] == target[q],
                forall|q: int| p <= q < DISPLAY_SIZE ==> self@.display[q] <= 1,
            decreases DISPLAY_SIZE - p,
        {
            if p < visible {
                if right {
                    if p % w < 4 {
                        self.display[p] = 0;
                    } else {
                        self.display[p] = old_display[p - 4];
                    }
                } else {
                    if p % w < w - 4 {
                        self.display[p] = old_display[p + 4];
                    } else {
                        self.display[p] = 0;
                    }
                }
            } else {
                self.display[p] = old_display[p];
            }
            p = p + 1;
        }
        assert(self@.display =~= target);
    }

    /// `00E0`.
    fn clear_display(&mut self)
        requires
            old(self)@.wf(),
        ensures
            final(self)@ == (MachineState { display: blank_display(), ..old(self)@ }),
            final(self)@.wf(),
    {
        self.display = [0u8; 8192];
        assert(self@.display =~= blank_display());
    }

    /// `DXYN`: inverts each pixel that a set cell of the sprite at `I` lands
    /// on, with `VF` telling whether one of them was lit.
    #[verifier::rlimit(50)]
    fn draw(&mut self, x: u8, y: u8, n: u8)
        requires
            old(self)@.wf(),
            x < 16,
            y < 16,
            n < 16,
        ensures
            final(self)@ == draw(old(self)@, x, y, n),
            final(self)@.wf(),
    {
        let ghost s = self@;
        let w: usize = self.max_cols();
        let h: usize = self.max_rows();
        let ox: usize = self.registers[x as usize] as usize % w;
        let oy: usize = self.registers[y as usize] as usize % h;
        let big = n == 0 && self.variant != Variant::CHIP8;
        let width: usize = if big { 16 } else { 8 };
        let height: usize = if big { 16 } else { n as usize };
        let row_bytes: usize = if big { 2 } else { 1 };
        let clip = self.variant == Variant::CHIP8 || self.variant == Variant::SCHIP1_0;
        let base: usize = self.i as usize;
        let mut collided = false;
        let mut r: usize = 0;
        while r < height
            invariant
                s.wf(),
                x < 16 && y < 16 && n < 16,
                w == cols(s.hires_mode),
                h == rows(s.hires_mode),
                ox == origin_x(s, x),
                oy == origin_y(s, y),
                width == sprite_width(s.variant, n),
                height == sprite_height(s.variant, n),
                row_bytes == sprite_row_bytes(s.variant, n),
                clip == clips(s.variant),
                base == s.i,
                0 <= r <= height,
                self@ == (MachineState { display: self@.display, ..s }),
                self@.display.len() == DISPLAY_SIZE,
                forall|q: int|
                    0 <= q < DISPLAY_SIZE ==> #[trigger] self@.display[q] == if pixel_flipped(s, x, y, n, q)
                        && pixel_row(s, y, q) < r {
                        s.display[q] ^ 1u8
                    } else {
                        s.display[q]
                    },
                collided == collides_before(s, x, y, n, r as int, 0),
            decreases height - r,
        {
            let mut c: usize = 0;
            while c < width
                invariant
                    s.wf(),
                    x < 16 && y < 16 && n < 16,
                    w == cols(s.hires_mode),
                    h == rows(s.hires_mode),
                    ox == origin_x(s, x),
                    oy == origin_y(s, y),
                    width == sprite_width(s.variant, n),
                    height == sprite_height(s.variant, n),
                    row_bytes == sprite_row_bytes(s.variant, n),
                    clip == clips(s.variant),
                    base == s.i,
                    0 <= r < height,
                    0 <= c <= width,
                    self@ == (MachineState { display: self@.display, ..s }),
                    self@.display.len() == DISPLAY_SIZE,
                    forall|q: int|
                        0 <= q < DISPLAY_SIZE ==> #[trigger] self@.display[q] == if pixel_flipped(s, x, y, n, q)
                            && (pixel_row(s, y, q) < r || (pixel_row(s, y, q) == r && pixel_col(s, x, q) < c)) {
                            s.display[q] ^ 1u8
                        } else {
                            s.display[q]
                        },
                    collided == collides_before(s, x, y, n, r as int, c as int),
                decreases width - c,
            {
                let ghost lit = cell_lit(s, x, y, n, r as int, c as int);
                let ghost before_cell = self@.display;
                if !clip || (ox + c < w && oy + r < h) {
                    let byte = self.memory[(base + r * row_bytes + c / 8) % MEMORY_SIZE];
                    if byte & (0x80u8 >> ((c % 8) as u8)) != 0 {
                        assert(lit);
                        let p: usize = ((oy + r) % h) * w + (ox + c) % w;
                        proof {
                            lemma_cell_pixel_inverse(w as int, h as int, ox as int, oy as int, r as int, c as int);
                            assert(p == cell_pixel(s, x, y, r as int, c as int));
                            assert(pixel_flipped(s, x, y, n, p as int));
                        }
                        if self.display[p] == 1 {
                            collided = true;
                        }
                        self.display[p] = self.display[p] ^ 1;
                        proof {
                            assert forall|q: int| 0 <= q < DISPLAY_SIZE && q != p implies
                                !(pixel_flipped(s, x, y, n, q) && pixel_row(s, y, q) == r && pixel_col(s, x, q) == c) by {
                                if pixel_flipped(s, x, y, n, q) && pixel_row(s, y, q) == r && pixel_col(s, x, q) == c {
                                    lemma_pixel_cell_inverse(w as int, h as int, ox as int, oy as int, q);
                                }
                            }
                        }
                    } else {
                        assert(!lit);
                    }
                } else {
                    assert(!lit);
                }
                proof {
                    if lit {
                        let p = cell_pixel(s, x, y, r as int, c as int);
                        lemma_cell_pixel_inverse(w as int, h as int, ox as int, oy as int, r as int, c as int);
                        assert(before_cell[p] == s.display[p]);
                        if s.display[p] == 1 {
                            assert(collides_before(s, x, y, n, r as int, c + 1));
                        }
                    }
                    if collides_before(s, x, y, n, r as int, c + 1) && !collides_before(s, x, y, n, r as int, c as int) {
                        let (r2, c2) = choose|r2: int, c2: int|
                            (r2 < r || (r2 == r && c2 < c + 1)) && #[trigger] cell_lit(s, x, y, n, r2, c2)
                                && s.display[cell_pixel(s, x, y, r2, c2)] == 1;
                        assert(r2 == r && c2 == c);
                    }
                }
                c = c + 1;
            }
            proof {
                if collides_before(s, x, y, n, r as int, width as int) != collides_before(s, x, y, n, r + 1, 0) {
                    if collides_before(s, x, y, n, r + 1, 0) {
                        let (r2, c2) = choose|r2: int, c2: int|
                            (r2 < r + 1 || (r2 == r + 1 && c2 < 0)) && #[trigger] cell_lit(s, x, y, n, r2, c2)
                                && s.display[cell_pixel(s, x, y, r2, c2)] == 1;
                        assert(r2 < r || (r2 == r && c2 < width));
                    }
                }
            }
            r = r + 1;
        }
        self.registers[15] = if collided { 1 } else { 0 };
        self.displayed = true;
        proof {
            if collides_before(s, x, y, n, height as int, 0) != collides(s, x, y, n) {
                if collides(s, x, y, n) {
                    let (r2, c2) = choose|r2: int, c2: int|
                        #[trigger] cell_lit(s, x, y, n, r2, c2) && s.display[cell_pixel(s, x, y, r2, c2)] == 1;
                    assert(r2 < height);
                }
            }
            assert forall|q: int| 0 <= q < DISPLAY_SIZE implies #[trigger] self@.display[q] <= 1 by {
                assert(s.display[q] <= 1);
                lemma_flip(s.display[q]);
            }
        }
        assert(self@.display =~= drawn_display(s, x, y, n));
    }

    // ------------------------------------------------------------ registers

    /// `VX = v`.
    fn set_reg(&mut self, x: u8, v: u8)
        requires
            old(self)@.wf(),
            x < 16,
        ensures
            final(self)@ == set_reg(old(self)@, x, v),
            final(self)@.wf(),
    {
        self.registers[x as usize] = v;
    }

    /// `VX = v`, then `VF = flag`.
    fn set_with_flag(&mut self, x: u8, v: u8, flag: u8)
        requires
            old(self)@.wf(),
            x < 16,
        ensures
            final(self)@ == set_with_flag(old(self)@, x, v, flag),
            final(self)@.wf(),
    {
        self.registers[x as usize] = v;
        self.registers[15] = flag;
    }

    /// `8XY1`/`8XY2`/`8XY3`: `VX = v`, and on CHIP-8 `VF` cleared.
    fn logic_result(&mut self, x: u8, v: u8)
        requires
            old(self)@.wf(),
            x < 16,
        ensures
            final(self)@ == logic_result(old(self)@, x, v),
            final(self)@.wf(),
    {
        self.registers[x as usize] = v;
        if self.variant == Variant::CHIP8 {
            self.registers[15] = 0;
        }
    }

    /// `8XY6`/`8XYE`: the register shifted, `VY` on CHIP-8 and `VX` elsewhere.
    fn shift_source(&self, x: u8, y: u8) -> (r: u8)
        requires
            x < 16,
            y < 16,
            self@.wf(),
        ensures
            r == shift_source(self@, x, y),
    {
        if self.variant == Variant::CHIP8 { self.registers[y as usize] } else { self.registers[x as usize] }
    }

    /// `PC += 2` when `cond` holds.
    fn skip_if(&mut self, cond: bool)
        requires
            old(self)@.wf(),
        ensures
            final(self)@ == skip_if(old(self)@, cond),
            final(self)@.wf(),
    {
        if cond {
            self.pc = self.pc.wrapping_add(2);
        }
    }

    // ------------------------------------------------------------ memory

    /// `FX33`.
    fn store_bcd(&mut self, x: u8)
        requires
            old(self)@.wf(),
            x < 16,
        ensures
            final(self)@ == store_bcd(old(self)@, x),
            final(self)@.wf(),
    {
        let ghost before = self@;
        let v = self.registers[x as usize];
        let base = self.i as usize;
        self.memory[base % MEMORY_SIZE] = v / 100;
        self.memory[(base + 1) % MEMORY_SIZE] = (v / 10) % 10;
        self.memory[(base + 2) % MEMORY_SIZE] = v % 10;
        assert(self@.memory =~= store_bcd(before, x).memory);
    }

    /// `I` after `FX55`/`FX65`.
    fn index_after_transfer(&self, x: u8) -> (r: u16)
        requires
            x < 16,
        ensures
            r == index_after_transfer(self@, x),
    {
        if self.variant == Variant::CHIP8 {
            self.i.wrapping_add(x as u16 + 1)
        } else {
            self.i
        }
    }

    /// `FX55`.
    fn store_registers(&mut self, x: u8)
        requires
            old(self)@.wf(),
            x < 16,
        ensures
            final(self)@ == store_registers(old(self)@, x),
            final(self)@.wf(),
    {
        let ghost before = self@;
        let base = self.i as usize;
        let mut k: usize = 0;
        while k <= x as usize
            invariant
                0 <= k <= x + 1,
                x < 16,
                base == before.i,
                before.wf(),
                self@ == (MachineState { memory: self@.memory, ..before }),
                self@.memory.len() == MEMORY_SIZE,
                forall|a: int|
                    0 <= a < MEMORY_SIZE ==> #[trigger] self@.memory[a] == if offset_from_i(before, a) < k {
                        before.registers[offset_from_i(before, a)]
                    } else {
                        before.memory[a]
                    },
            decreases x + 1 - k,
        {
            let a = (base + k) % MEMORY_SIZE;
            assert(offset_from_i(before, a as int) == k);
            self.memory[a] = self.registers[k];
            k = k + 1;
        }
        self.i = self.index_after_transfer(x);
        assert(self@.memory =~= store_registers(before, x).memory);
    }

    /// `FX65`.
    fn load_registers(&mut self, x: u8)
        requires
            old(self)@.wf(),
            x < 16,
        ensures
            final(self)@ == load_registers(old(self)@, x),
            final(self)@.wf(),
    {
        let ghost before = self@;
        let base = self.i as usize;
        let mut k: usize = 0;
        while k <= x as usize
            invariant
                0 <= k <= x + 1,
                x < 16,
                base == before.i,
                before.wf(),
                self@ == (MachineState { registers: self@.registers, ..before }),
                self@.registers.len() == 16,
                forall|j: int|
                    0 <= j < 16 ==> #[trigger] self@.registers[j] == if j < k {
                        before.memory[(base + j) % (MEMORY_SIZE as int)]
                    } else {
                        before.registers[j]
                    },
            decreases x + 1 - k,
        {
            self.registers[k] = self.memory[(base + k) % MEMORY_SIZE];
            k = k + 1;
        }
        self.i = self.index_after_transfer(x);
        assert(self@.registers =~= load_registers(before, x).registers);
    }

    /// `FX75`.
    fn save_flags(&mut self, x: u8)
        requires
            old(self)@.wf(),
            x < 16,
        ensures
            final(self)@ == save_flags(old(self)@, x),
            final(self)@.wf(),
    {
        let ghost before = self@;
        let mut k: usize = 0;
        while k <= x as usize && k < 8
            invariant
                0 <= k <= 8,
                k <= x + 1,
                x < 16,
                before.wf(),
                self@ == (MachineState { flags: self@.flags, ..before }),
                self@.flags.len() == 8,
                forall|j: int|
                    0 <= j < 8 ==> #[trigger] self@.flags[j] == if j < k {
                        before.registers[j]
                    } else {
                        before.flags[j]
                    },
            decreases 8 - k,
        {
            self.flags[k] = self.registers[k];
            k = k + 1;
        }
        assert(self@.flags =~= save_flags(before, x).flags);
    }

    /// `FX85`.
    fn load_flags(&mut self, x: u8)
        requires
            old(self)@.wf(),
            x < 16,
        ensures
            final(self)@ == load_flags(old(self)@, x),
            final(self)@.wf(),
    {
        let ghost before = self@;
        let mut k: usize = 0;
        while k <= x as usize && k < 8
            invariant
                0 <= k <= 8,
                k <= x + 1,
                x < 16,
                before.wf(),
                self@ == (MachineState { registers: self@.registers, ..before }),
                self@.registers.len() == 16,
                forall|j: int|
                    0 <= j < 16 ==> #[trigger] self@.registers[j] == if j < k {
                        before.flags[j]
                    } else {
                        before.registers[j]
                    },
            decreases 8 - k,
        {
            self.registers[k] = self.flags[k];
            k = k + 1;
        }
        assert(self@.registers =~= load_flags(before, x).registers);
    }

    /// Register `VX`.
    pub fn get_register(&self, x: u8) -> (r: u8)
        requires
            self@.wf(),
            x < 16,
        ensures
            r == self@.registers[x as int],
    {
        self.registers[x as usize]
    }

    /// The program counter.
    pub fn get_pc(&self) -> (r: u16)
        ensures
            r == self@.pc,
    {
        self.pc
    }

    /// The index register `I`.
    pub fn get_index(&self) -> (r: u16)
        ensures
            r == self@.i,
    {
        self.i
    }

    /// The delay timer.
    pub fn get_delay_timer(&self) -> (r: u8)
        ensures
            r == self@.delay_timer,
    {
        self.delay_timer
    }

    /// The byte at `address`, taken modulo the memory size.
    pub fn read_memory(&self, address: u16) -> (r: u8)
        requires
            self@.wf(),
        ensures
            r == self@.memory[address as int % MEMORY_SIZE as int],
    {
        self.memory[address as usize % MEMORY_SIZE]
    }

    /// Number of rows of the active resolution.
    fn max_rows(&self) -> (r: usize)
        ensures
            r == rows(self@.hires_mode),
    {
        if self.hires_mode { 64 } else { 32 }
    }

    /// Number of columns of the active resolution.
    fn max_cols(&self) -> (r: usize)
        ensures
            r == cols(self@.hires_mode),
    {
        if self.hires_mode { 128 } else { 64 }
    }
}

} // verus!
