//! The CPU core: owns memory, registers, stack, timers, keypad and display,
//! and drives fetch, decode, dispatch and execute. `run_cycle_once` is the
//! sole synchronous entry point; its whole effect is pinned down by
//! `state::step_rel`.

use crate::clock;
use crate::memory::{font_installed, loaded, Memory};
use crate::opcode::Opcode;
use crate::rng;
use crate::state::{
    collides, covered, cycle_ok, draw_ok, fetched, instr_ok, instr_rel, next_op, rows_read,
    scan_keys, sprite_pixel, step_rel, State,
};
use crate::timer::{ticked, Timer};
use crate::{DISPLAY_HEIGHT, DISPLAY_WIDTH, FONT_START, MEMORY_SIZE, PROGRAM_START};
use vstd::prelude::*;

verus! {

/// The machine. One instance owns all core state; the driver outside the
/// crate calls `run_cycle_once` at its chosen rate, `update_timers` at a
/// fixed 60 Hz, and `update_keypad` on key events, and polls `display` and
/// the sound timer.
pub struct Chip8 {
    pub memory: Memory,
    /// The 64 by 32 cell display, row-major.
    pub display: Vec<bool>,
    pub program_counter: u16,
    pub index: u16,
    /// The 16-level call stack.
    pub stack: Vec<u16>,
    pub stack_pointer: u8,
    /// The general-purpose registers `V0..VF`.
    pub v_reg: Vec<u8>,
    pub delay_timer: Timer,
    pub sound_timer: Timer,
    /// The state of the 16 keys.
    pub keypad: Vec<bool>,
    /// The key remembered by a pending `Fx0A` wait.
    pub temp_key: Option<u8>,
    /// When the last successful draw ran, for the draw-rate gate.
    pub prev_draw_instant: std::time::Instant,
}

impl View for Chip8 {
    type V = State;

    open spec fn view(&self) -> State {
        State {
            mem: self.memory@,
            disp: self.display@,
            pc: self.program_counter,
            index: self.index,
            stack: self.stack@,
            sp: self.stack_pointer,
            v: self.v_reg@,
            delay: self.delay_timer.current_time,
            sound: self.sound_timer.current_time,
            keys: self.keypad@,
            latched: self.temp_key,
        }
    }
}

/// A vector of `n` cleared cells.
fn false_vec(n: usize) -> (v: Vec<bool>)
    ensures
        v@ == Seq::new(n as nat, |i: int| false),
{
    let mut v: Vec<bool> = Vec::new();
    while v.len() < n
        invariant
            v@.len() <= n,
            forall|i: int| 0 <= i < v@.len() ==> !v@[i],
        decreases n - v@.len(),
    {
        v.push(false);
    }
    proof {
        assert(v@ =~= Seq::new(n as nat, |i: int| false));
    }
    v
}

/// A vector of `n` zeroed bytes.
fn zero_bytes(n: usize) -> (v: Vec<u8>)
    ensures
        v@ == Seq::new(n as nat, |i: int| 0u8),
{
    let mut v: Vec<u8> = Vec::new();
    while v.len() < n
        invariant
            v@.len() <= n,
            forall|i: int| 0 <= i < v@.len() ==> v@[i] == 0,
        decreases n - v@.len(),
    {
        v.push(0);
    }
    proof {
        assert(v@ =~= Seq::new(n as nat, |i: int| 0u8));
    }
    v
}

/// A vector of `n` zeroed words.
fn zero_words(n: usize) -> (v: Vec<u16>)
    ensures
        v@ == Seq::new(n as nat, |i: int| 0u16),
{
    let mut v: Vec<u16> = Vec::new();
    while v.len() < n
        invariant
            v@.len() <= n,
            forall|i: int| 0 <= i < v@.len() ==> v@[i] == 0,
        decreases n - v@.len(),
    {
        v.push(0);
    }
    proof {
        assert(v@ =~= Seq::new(n as nat, |i: int| 0u16));
    }
    v
}

impl Chip8 {
    /// The machine at power-on: memory holds only the font table, the
    /// program counter stands at `PROGRAM_START`, both timers start at 60,
    /// and display, registers, stack and keypad are clear.
    pub fn new() -> (c: Self)
        ensures
            c@.wf(),
            c@.pc == PROGRAM_START,
            c@.index == 0,
            c@.sp == 0,
            c@.delay == 60,
            c@.sound == 60,
            c@.latched is None,
            font_installed(c@.mem),
            forall|i: int|
                0 <= i < MEMORY_SIZE && !(FONT_START <= i < FONT_START + 80) ==> c@.mem[i] == 0,
            forall|i: int| 0 <= i < DISPLAY_WIDTH * DISPLAY_HEIGHT ==> !c@.disp[i],
            forall|i: int| 0 <= i < 16 ==> c@.stack[i] == 0,
            forall|i: int| 0 <= i < 16 ==> c@.v[i] == 0,
            forall|i: int| 0 <= i < 16 ==> !c@.keys[i],
    {
        Chip8 {
            memory: Memory::new(),
            display: false_vec(DISPLAY_WIDTH * DISPLAY_HEIGHT),
            program_counter: 0x200,
            index: 0,
            stack: zero_words(16),
            stack_pointer: 0,
            v_reg: zero_bytes(16),
            delay_timer: Timer::new(60),
            sound_timer: Timer::new(60),
            keypad: false_vec(16),
            temp_key: None,
            prev_draw_instant: clock::instant_now(),
        }
    }

    /// Copy a program image into memory at `PROGRAM_START`. The caller
    /// sources the bytes; an image too large for the store is a caller
    /// defect.
    pub fn load_program(&mut self, program: &[u8])
        requires
            old(self)@.wf(),
            program@.len() <= MEMORY_SIZE - PROGRAM_START,
        ensures
            final(self)@.wf(),
            final(self)@ == (State { mem: loaded(old(self)@.mem, program@), ..old(self)@ }),
    {
        self.memory.load_program(program);
    }

    /// Record that key `key` is now pressed or released. Last write wins;
    /// a key index above 15 is a caller defect.
    pub fn update_keypad(&mut self, key: usize, value: bool)
        requires
            old(self)@.wf(),
            key < 16,
        ensures
            final(self)@.wf(),
            final(self)@ == (State {
                keys: old(self)@.keys.update(key as int, value),
                ..old(self)@
            }),
    {
        self.keypad[key] = value;
    }

    /// One 60 Hz tick: both timers count down, floored at zero. Driven by
    /// the external fixed-rate clock, never by the instruction rate.
    pub fn update_timers(&mut self)
        ensures
            final(self)@ == (State {
                delay: ticked(old(self)@.delay),
                sound: ticked(old(self)@.sound),
                ..old(self)@
            }),
    {
        self.delay_timer.tick();
        self.sound_timer.tick();
    }

    /// Read the two instruction bytes at the program counter and advance it
    /// past them, before dispatch, so that jump and call targets are not
    /// perturbed.
    fn fetch(&mut self) -> (o: Opcode)
        requires
            old(self)@.wf(),
            old(self)@.pc + 1 < MEMORY_SIZE,
        ensures
            final(self)@ == fetched(old(self)@),
            o == next_op(old(self)@),
            o.valid(),
    {
        let first_byte = self.memory.read_byte(self.program_counter as usize);
        let second_byte = self.memory.read_byte((self.program_counter + 1) as usize);
        self.program_counter = self.program_counter + 2;
        Opcode::new(first_byte, second_byte)
    }

    /// `00E0`: every display cell off.
    fn clear_display(&mut self)
        requires
            old(self)@.wf(),
        ensures
            final(self)@.wf(),
            final(self)@ == old(self)@.cleared(),
    {
        let ghost pre = self@;
        let mut i: usize = 0;
        while i < DISPLAY_WIDTH * DISPLAY_HEIGHT
            invariant
                i <= DISPLAY_WIDTH * DISPLAY_HEIGHT,
                self@ == (State { disp: self.display@, ..pre }),
                self.display@.len() == DISPLAY_WIDTH * DISPLAY_HEIGHT,
                forall|j: int| 0 <= j < i ==> !self.display@[j],
            decreases DISPLAY_WIDTH * DISPLAY_HEIGHT - i,
        {
            self.display[i] = false;
            i = i + 1;
        }
        proof {
            assert(self.display@ =~= pre.cleared().disp);
        }
    }

    /// `00EE`: pop the return address. An empty stack is a program defect.
    fn return_from_subroutine(&mut self)
        requires
            old(self)@.wf(),
            old(self)@.sp >= 1,
        ensures
            final(self)@.wf(),
            final(self)@ == old(self)@.returned(),
    {
        self.program_counter = self.stack[self.stack_pointer as usize];
        self.stack_pointer = self.stack_pointer - 1;
    }

    /// `1nnn` and `Bnnn`: jump to `nnn`, for `Bnnn` offset by `V0`.
    fn jump(&mut self, opcode: Opcode)
        requires
            old(self)@.wf(),
            opcode.valid(),
            opcode.a == 0x1 || opcode.a == 0xB,
        ensures
            final(self)@.wf(),
            final(self)@ == if opcode.a == 0x1 {
                old(self)@.with_pc(opcode.nnn)
            } else {
                old(self)@.with_pc((opcode.nnn + old(self)@.v[0]) as u16)
            },
    {
        if opcode.a == 0x1 {
            self.program_counter = opcode.nnn;
        } else {
            self.program_counter = opcode.nnn + (self.v_reg[0] as u16);
        }
    }

    /// `2nnn`: push the incremented program counter, then jump to `nnn`.
    /// A full stack is a program defect.
    fn call(&mut self, opcode: Opcode)
        requires
            old(self)@.wf(),
            opcode.valid(),
            old(self)@.sp < 15,
        ensures
            final(self)@.wf(),
            final(self)@ == old(self)@.called(opcode.nnn),
    {
        self.stack_pointer = self.stack_pointer + 1;
        self.stack[self.stack_pointer as usize] = self.program_counter;
        self.program_counter = opcode.nnn;
    }

    /// The conditional skips `3xnn`, `4xnn`, `5xy0`, `9xy0`, `Ex9E` and
    /// `ExA1`: advance the program counter by one more instruction when the
    /// condition holds.
    fn skip(&mut self, opcode: Opcode)
        requires
            old(self)@.wf(),
            opcode.valid(),
            opcode.a == 0x3 || opcode.a == 0x4 || opcode.a == 0x5 || opcode.a == 0x9 || opcode.a
                == 0xE,
            old(self)@.pc + 2 <= u16::MAX,
            opcode.a == 0xE && (opcode.nn == 0x9E || opcode.nn == 0xA1) ==> old(self)@.v[
                opcode.x as int
            ] < 16,
        ensures
            final(self)@.wf(),
            ({
                let s = old(self)@;
                let f = final(self)@;
                if opcode.a == 0x3 {
                    f == s.skipped(s.v[opcode.x as int] == opcode.nn)
                } else if opcode.a == 0x4 {
                    f == s.skipped(s.v[opcode.x as int] != opcode.nn)
                } else if opcode.a == 0x5 {
                    f == s.skipped(s.v[opcode.x as int] == s.v[opcode.y as int])
                } else if opcode.a == 0x9 {
                    f == s.skipped(s.v[opcode.x as int] != s.v[opcode.y as int])
                } else if opcode.nn == 0x9E {
                    f == s.skipped(s.keys[s.v[opcode.x as int] as int])
                } else if opcode.nn == 0xA1 {
                    f == s.skipped(!s.keys[s.v[opcode.x as int] as int])
                } else {
                    f == s
                }
            }),
    {
        if opcode.a == 0x3 {
            if self.v_reg[opcode.x as usize] == opcode.nn {
                self.program_counter = self.program_counter + 2;
            }
        } else if opcode.a == 0x4 {
            if self.v_reg[opcode.x as usize] != opcode.nn {
                self.program_counter = self.program_counter + 2;
            }
        } else if opcode.a == 0x5 {
            if self.v_reg[opcode.x as usize] == self.v_reg[opcode.y as usize] {
                self.program_counter = self.program_counter + 2;
            }
        } else if opcode.a == 0x9 {
            if self.v_reg[opcode.x as usize] != self.v_reg[opcode.y as usize] {
                self.program_counter = self.program_counter + 2;
            }
        } else {
            if opcode.nn == 0x9E {
                if self.keypad[self.v_reg[opcode.x as usize] as usize] {
                    self.program_counter = self.program_counter + 2;
                }
            } else if opcode.nn == 0xA1 {
                if !self.keypad[self.v_reg[opcode.x as usize] as usize] {
                    self.program_counter = self.program_counter + 2;
                }
            }
        }
    }

    /// `7xnn`: add the immediate to `Vx`, wrapping on overflow, with no flag
    /// change.
    fn add_to_register(&mut self, opcode: Opcode)
        requires
            old(self)@.wf(),
            opcode.valid(),
        ensures
            final(self)@.wf(),
            final(self)@ == old(self)@.with_v(
                opcode.x as int,
                ((old(self)@.v[opcode.x as int] + opcode.nn) % 256) as u8,
            ),
    {
        let i = opcode.x as usize;
        let sum: u16 = (self.v_reg[i] as u16) + (opcode.nn as u16);
        self.v_reg[i] = (sum % 256) as u8;
    }

    /// `Annn`, `Fx1E` and `Fx29`: load, bump or point the index register.
    /// For `Fx1E`, an index overflowing 16 bits is a program defect.
    fn set_index_register(&mut self, opcode: Opcode)
        requires
            old(self)@.wf(),
            opcode.valid(),
            opcode.a == 0xA || (opcode.a == 0xF && (opcode.nn == 0x1E || opcode.nn == 0x29)),
            opcode.a == 0xF && opcode.nn == 0x1E ==> old(self)@.index + old(self)@.v[
                opcode.x as int
            ] <= u16::MAX,
        ensures
            final(self)@.wf(),
            final(self)@ == if opcode.a == 0xA {
                old(self)@.with_index(opcode.nnn)
            } else if opcode.nn == 0x1E {
                old(self)@.with_index((old(self)@.index + old(self)@.v[opcode.x as int]) as u16)
            } else {
                old(self)@.with_index(((old(self)@.v[opcode.x as int] % 16) * 5) as u16)
            },
    {
        if opcode.a == 0xA {
            self.index = opcode.nnn;
        } else if opcode.nn == 0x1E {
            self.index = self.index + (self.v_reg[opcode.x as usize] as u16);
        } else {
            // The sprite for the digit held in Vx: each font glyph is 5
            // bytes, and the table starts at address 0.
            let letter = self.v_reg[opcode.x as usize] % 16;
            self.index = (letter as u16) * 5;
        }
    }

    /// `Dxyn`: draw an `n`-row sprite from memory at `index` with top-left
    /// corner `(Vx mod 64, Vy mod 32)`, XORing it onto the display, clipped
    /// at the right and bottom edges; `VF` reports whether a lit cell was
    /// hit. The instruction is rate-limited: when less wall-clock time than
    /// one tick interval has passed since the last successful draw, it
    /// rewinds the program counter and draws nothing, so it is refetched
    /// and retried. Sprite reads past the top of memory are a program
    /// defect.
    fn draw(&mut self, opcode: Opcode)
        requires
            old(self)@.wf(),
            opcode.valid(),
            old(self)@.pc >= 2,
            draw_ok(old(self)@, opcode.x as int, opcode.y as int, opcode.n),
        ensures
            final(self)@.wf(),
            final(self)@ == old(self)@.rewound() || final(self)@ == old(self)@.drawn(
                opcode.x as int,
                opcode.y as int,
                opcode.n,
            ),
    {
        if !clock::tick_elapsed(&self.prev_draw_instant) {
            self.program_counter = self.program_counter - 2;
            return ;
        }
        let ghost pre = self@;
        let x_coord = self.v_reg[opcode.x as usize] % 64;
        let y_coord = self.v_reg[opcode.y as usize] % 32;
        let ghost x0 = x_coord as int;
        let ghost y0 = y_coord as int;
        let ghost nr = opcode.n as int;
        let ghost idx = pre.index as int;
        self.v_reg[0xF] = 0;
        let mut row: u8 = 0;
        while row < opcode.n
            invariant_except_break
                y0 + row <= 32,
            invariant
                row <= opcode.n,
                pre.wf(),
                opcode.valid(),
                x_coord == pre.v[opcode.x as int] % 64,
                y_coord == pre.v[opcode.y as int] % 32,
                x0 == x_coord as int,
                y0 == y_coord as int,
                idx == pre.index as int,
                nr == opcode.n as int,
                self.index == pre.index,
                nr == 0 || idx + rows_read(y0, nr) <= MEMORY_SIZE,
                self@ == (State { disp: self.display@, v: self.v_reg@, ..pre }),
                self.display@.len() == DISPLAY_WIDTH * DISPLAY_HEIGHT,
                self.v_reg@ == pre.v.update(
                    0xF,
                    if collides(pre.mem, idx, x0, y0, row as int, pre.disp) {
                        1u8
                    } else {
                        0u8
                    },
                ),
                forall|c: int|
                    0 <= c < DISPLAY_WIDTH * DISPLAY_HEIGHT ==> self.display@[c] == (pre.disp[c]
                        != covered(pre.mem, idx, x0, y0, row as int, c)),
            ensures
                self@ == (State { disp: self.display@, v: self.v_reg@, ..pre }),
                self.display@.len() == DISPLAY_WIDTH * DISPLAY_HEIGHT,
                self.v_reg@ == pre.v.update(
                    0xF,
                    if collides(pre.mem, idx, x0, y0, nr, pre.disp) {
                        1u8
                    } else {
                        0u8
                    },
                ),
                forall|c: int|
                    0 <= c < DISPLAY_WIDTH * DISPLAY_HEIGHT ==> self.display@[c] == (pre.disp[c]
                        != covered(pre.mem, idx, x0, y0, nr, c)),
            decreases opcode.n - row,
        {
            proof {
                assert(row < rows_read(y0, nr));
            }
            let addr = self.index + (row as u16);
            let sprite_row = self.memory.read_byte(addr as usize);
            let y = y_coord + row;
            if y >= 32 {
                proof {
                    assert forall|c: int| 0 <= c < DISPLAY_WIDTH * DISPLAY_HEIGHT implies covered(
                        pre.mem,
                        idx,
                        x0,
                        y0,
                        nr,
                        c,
                    ) == covered(pre.mem, idx, x0, y0, row as int, c) by {
                        crate::state::lemma_covered_clip(pre.mem, idx, x0, y0, row as int, nr, c);
                    }
                    crate::state::lemma_collides_clip(
                        pre.mem,
                        idx,
                        x0,
                        y0,
                        row as int,
                        nr,
                        pre.disp,
                    );
                }
                break ;
            }
            proof {
                assert forall|c: int| 0 <= c < DISPLAY_WIDTH * DISPLAY_HEIGHT implies
                    !crate::state::row_covered_upto(
                    pre.mem,
                    idx,
                    x0,
                    y0,
                    row as int,
                    0,
                    c,
                ) by {}
                assert(!crate::state::row_collides_upto(
                    pre.mem,
                    idx,
                    x0,
                    y0,
                    row as int,
                    0,
                    pre.disp,
                ));
            }
            let mut bit: u8 = 0;
            #[verifier::loop_isolation(false)]
            while bit < 8
                invariant
                    bit <= 8,
                    y0 + row < 32,
                    sprite_row == pre.mem[idx + row],
                    self@ == (State { disp: self.display@, v: self.v_reg@, ..pre }),
                    self.display@.len() == DISPLAY_WIDTH * DISPLAY_HEIGHT,
                    self.v_reg@ == pre.v.update(
                        0xF,
                        if collides(pre.mem, idx, x0, y0, row as int, pre.disp)
                            || crate::state::row_collides_upto(
                            pre.mem,
                            idx,
                            x0,
                            y0,
                            row as int,
                            bit as int,
                            pre.disp,
                        ) {
                            1u8
                        } else {
                            0u8
                        },
                    ),
                    forall|c: int|
                        0 <= c < DISPLAY_WIDTH * DISPLAY_HEIGHT ==> self.display@[c] == (pre.disp[c]
                            != (covered(pre.mem, idx, x0, y0, row as int, c)
                            || crate::state::row_covered_upto(
                            pre.mem,
                            idx,
                            x0,
                            y0,
                            row as int,
                            bit as int,
                            c,
                        ))),
                decreases 8 - bit,
            {
                let ghost b = bit as int;
                let ghost cell = (y0 + row) * 64 + (x0 + b);
                let x = x_coord + bit;
                proof {
                    assert(((7 - b) as u8) == 7 - bit);
                    crate::state::lemma_row_collides_bit(
                        pre.mem,
                        idx,
                        x0,
                        y0,
                        row as int,
                        b,
                        pre.disp,
                    );
                    assert forall|c: int| 0 <= c < DISPLAY_WIDTH * DISPLAY_HEIGHT implies
                        crate::state::row_covered_upto(
                        pre.mem,
                        idx,
                        x0,
                        y0,
                        row as int,
                        b + 1,
                        c,
                    ) == (crate::state::row_covered_upto(pre.mem, idx, x0, y0, row as int, b, c) || (
                    c == cell && x0 + b < 64 && sprite_pixel(pre.mem[idx + row], b))) by {
                        crate::state::lemma_row_covered_bit(pre.mem, idx, x0, y0, row as int, b, c);
                    }
                }
                if x < 64 {
                    let sprite_pix = (sprite_row >> (7 - bit)) & 1;
                    let display_index = (y as usize) * 64 + (x as usize);
                    proof {
                        assert(display_index == cell);
                        vstd::arithmetic::div_mod::lemma_fundamental_div_mod_converse(
                            cell,
                            64,
                            y0 + row,
                            x0 + b,
                        );
                        assert(!covered(pre.mem, idx, x0, y0, row as int, cell));
                        assert(!crate::state::row_covered_upto(
                            pre.mem,
                            idx,
                            x0,
                            y0,
                            row as int,
                            b,
                            cell,
                        ));
                        assert(self.display@[cell] == pre.disp[cell]);
                        assert((sprite_pix == 1) == sprite_pixel(sprite_row, b));
                    }
                    if sprite_pix == 1 {
                        if self.display[display_index] {
                            self.v_reg[0xF] = 1;
                        }
                        let cur = self.display[display_index];
                        self.display[display_index] = !cur;
                    }
                }
                bit = bit + 1;
            }
            proof {
                assert forall|c: int| 0 <= c < DISPLAY_WIDTH * DISPLAY_HEIGHT implies covered(
                    pre.mem,
                    idx,
                    x0,
                    y0,
                    row + 1,
                    c,
                ) == (covered(pre.mem, idx, x0, y0, row as int, c) || crate::state::row_covered_upto(
                    pre.mem,
                    idx,
                    x0,
                    y0,
                    row as int,
                    8,
                    c,
                )) by {
                    crate::state::lemma_covered_split(pre.mem, idx, x0, y0, row as int, c);
                }
                crate::state::lemma_collides_split(pre.mem, idx, x0, y0, row as int, pre.disp);
            }
            row = row + 1;
        }
        self.prev_draw_instant = clock::instant_now();
        proof {
            let d = pre.drawn(opcode.x as int, opcode.y as int, opcode.n);
            assert(self.display@ =~= d.disp);
            assert(self@ == d);
        }
    }

    /// `Fx15`: the delay timer set from `Vx`.
    fn set_delay_timer(&mut self, opcode: Opcode)
        requires
            old(self)@.wf(),
            opcode.valid(),
        ensures
            final(self)@.wf(),
            final(self)@ == old(self)@.with_delay(old(self)@.v[opcode.x as int]),
    {
        self.delay_timer.current_time = self.v_reg[opcode.x as usize];
    }

    /// `Fx18`: the sound timer set from `Vx`.
    fn set_sound_timer(&mut self, opcode: Opcode)
        requires
            old(self)@.wf(),
            opcode.valid(),
        ensures
            final(self)@.wf(),
            final(self)@ == old(self)@.with_sound(old(self)@.v[opcode.x as int]),
    {
        self.sound_timer.current_time = self.v_reg[opcode.x as usize];
    }

    /// `6xnn`, the `8xyn` ALU group, `Cxnn` and `Fx07`: loads and
    /// register-register arithmetic into `Vx`. The ALU group keeps the
    /// original machine's quirks: the logical operations clear `VF`, and
    /// both shifts source from `Vy`. `Cxnn` masks a random byte, so only
    /// the mask is promised of it.
    fn set_register(&mut self, opcode: Opcode)
        requires
            old(self)@.wf(),
            opcode.valid(),
            opcode.a == 0x6 || opcode.a == 0x7 || opcode.a == 0x8 || opcode.a == 0xC || opcode.a
                == 0xF,
        ensures
            final(self)@.wf(),
            ({
                let s = old(self)@;
                let f = final(self)@;
                let x = opcode.x as int;
                if opcode.a == 0x6 {
                    f == s.with_v(x, opcode.nn)
                } else if opcode.a == 0x7 {
                    f == s.with_v(x, ((s.v[x] + opcode.nn) % 256) as u8)
                } else if opcode.a == 0x8 {
                    f == s.alu(x, opcode.y as int, opcode.n)
                } else if opcode.a == 0xC {
                    exists|b: u8| f == s.with_v(x, b & opcode.nn)
                } else if opcode.nn == 0x07 {
                    f == s.with_v(x, s.delay)
                } else {
                    f == s
                }
            }),
    {
        let x = opcode.x as usize;
        let y = opcode.y as usize;
        if opcode.a == 0x6 {
            self.v_reg[x] = opcode.nn;
        } else if opcode.a == 0x7 {
            let sum: u16 = (self.v_reg[x] as u16) + (opcode.nn as u16);
            self.v_reg[x] = (sum % 256) as u8;
        } else if opcode.a == 0x8 {
            let vx = self.v_reg[x];
            let vy = self.v_reg[y];
            if opcode.n == 0x0 {
                self.v_reg[x] = vy;
            } else if opcode.n == 0x1 {
                self.v_reg[x] = vx | vy;
                self.v_reg[0xF] = 0;
            } else if opcode.n == 0x2 {
                self.v_reg[x] = vx & vy;
                self.v_reg[0xF] = 0;
            } else if opcode.n == 0x3 {
                self.v_reg[x] = vx ^ vy;
                self.v_reg[0xF] = 0;
            } else if opcode.n == 0x4 {
                let sum: u16 = (vx as u16) + (vy as u16);
                self.v_reg[x] = (sum % 256) as u8;
                self.v_reg[0xF] = if sum > 255 {
                    1
                } else {
                    0
                };
            } else if opcode.n == 0x5 {
                let diff: u16 = (vx as u16) + 256 - (vy as u16);
                self.v_reg[x] = (diff % 256) as u8;
                self.v_reg[0xF] = if vx < vy {
                    0
                } else {
                    1
                };
            } else if opcode.n == 0x6 {
                self.v_reg[x] = vy / 2;
                self.v_reg[0xF] = vy % 2;
            } else if opcode.n == 0x7 {
                let diff: u16 = (vy as u16) + 256 - (vx as u16);
                self.v_reg[x] = (diff % 256) as u8;
                self.v_reg[0xF] = if vy < vx {
                    0
                } else {
                    1
                };
            } else if opcode.n == 0xE {
                let dbl: u16 = (vy as u16) * 2;
                self.v_reg[x] = (dbl % 256) as u8;
                self.v_reg[0xF] = vy / 128;
            }
        } else if opcode.a == 0xC {
            let b = rng::random_byte();
            self.v_reg[x] = b & opcode.nn;
            proof {
                assert(self@ == old(self)@.with_v(opcode.x as int, b & opcode.nn));
            }
        } else {
            if opcode.nn == 0x07 {
                self.v_reg[x] = self.delay_timer.current_time;
            }
        }
    }

    /// `Fx0A`, one cycle of the key wait: scan and latch, retry while the
    /// latched key stays pressed, and commit its code to `Vx` once it is
    /// released.
    fn wait(&mut self, opcode: Opcode)
        requires
            old(self)@.wf(),
            opcode.valid(),
            old(self)@.pc >= 2,
        ensures
            final(self)@.wf(),
            final(self)@ == old(self)@.waited(opcode.x as int),
    {
        let ghost pre = self@;
        let mut found = false;
        if let Some(pressed) = self.temp_key {
            if !self.keypad[pressed as usize] {
                self.v_reg[opcode.x as usize] = pressed;
                self.temp_key = None;
                found = true;
            }
        } else {
            let mut i: usize = 0;
            while i < 16
                invariant
                    i <= 16,
                    self@ == (State { latched: self.temp_key, ..pre }),
                    self.keypad@.len() == 16,
                    self.temp_key == scan_keys(pre.keys, i as int),
                decreases 16 - i,
            {
                if self.keypad[i] {
                    self.temp_key = Some(i as u8);
                }
                i = i + 1;
            }
            proof {
                crate::state::lemma_scan_keys_bound(pre.keys, 16);
            }
        }
        if !found {
            self.program_counter = self.program_counter - 2;
        }
    }

    /// `Fx55`: copy `V0..Vx` to memory starting at `index`, advancing
    /// `index` by the count copied. Writes past the top of memory are a
    /// program defect.
    fn store_mem(&mut self, opcode: Opcode)
        requires
            old(self)@.wf(),
            opcode.valid(),
            old(self)@.index + opcode.x < MEMORY_SIZE,
        ensures
            final(self)@.wf(),
            final(self)@ == old(self)@.regs_stored(opcode.x as int),
    {
        let ghost pre = self@;
        let x = opcode.x as usize;
        let mut i = self.index as usize;
        let mut j: usize = 0;
        while j <= x
            invariant
                j <= x + 1,
                x < 16,
                pre.wf(),
                pre.index + x < MEMORY_SIZE,
                i == pre.index + j,
                self.index == pre.index + j,
                self@ == (State { mem: self.memory@, index: self.index, ..pre }),
                self.memory@.len() == MEMORY_SIZE,
                forall|a: int|
                    pre.index <= a < pre.index + j ==> self.memory@[a] == pre.v[a - pre.index],
                forall|a: int|
                    0 <= a < MEMORY_SIZE && !(pre.index <= a < pre.index + j) ==> self.memory@[a]
                        == pre.mem[a],
            decreases x + 1 - j,
        {
            self.memory.write_byte(i, self.v_reg[j]);
            i = i + 1;
            self.index = self.index + 1;
            j = j + 1;
        }
        proof {
            assert(self.memory@ =~= pre.regs_stored(opcode.x as int).mem);
        }
    }

    /// `Fx65`: load `V0..Vx` from memory starting at `index`, advancing
    /// `index` by the count loaded. Reads past the top of memory are a
    /// program defect.
    fn read_mem(&mut self, opcode: Opcode)
        requires
            old(self)@.wf(),
            opcode.valid(),
            old(self)@.index + opcode.x < MEMORY_SIZE,
        ensures
            final(self)@.wf(),
            final(self)@ == old(self)@.regs_loaded(opcode.x as int),
    {
        let ghost pre = self@;
        let x = opcode.x as usize;
        let mut i = self.index as usize;
        let mut j: usize = 0;
        while j <= x
            invariant
                j <= x + 1,
                x < 16,
                pre.wf(),
                pre.index + x < MEMORY_SIZE,
                i == pre.index + j,
                self.index == pre.index + j,
                self@ == (State { v: self.v_reg@, index: self.index, ..pre }),
                self.v_reg@.len() == 16,
                forall|k: int| 0 <= k < j ==> self.v_reg@[k] == pre.mem[pre.index + k],
                forall|k: int| j <= k < 16 ==> self.v_reg@[k] == pre.v[k],
            decreases x + 1 - j,
        {
            self.v_reg[j] = self.memory.read_byte(i);
            i = i + 1;
            self.index = self.index + 1;
            j = j + 1;
        }
        proof {
            assert(self.v_reg@ =~= pre.regs_loaded(opcode.x as int).v);
        }
    }

    /// `Fx33`: store the three decimal digits of `Vx` at `index`,
    /// `index + 1` and `index + 2`. Writes past the top of memory are a
    /// program defect.
    fn store_bcd_mem(&mut self, opcode: Opcode)
        requires
            old(self)@.wf(),
            opcode.valid(),
            old(self)@.index + 2 < MEMORY_SIZE,
        ensures
            final(self)@.wf(),
            final(self)@ == old(self)@.bcd_stored(opcode.x as int),
    {
        let value = self.v_reg[opcode.x as usize];
        let hunds = value / 100;
        let tens = (value / 10) % 10;
        let ones = value % 10;
        let i = self.index as usize;
        self.memory.write_byte(i, hunds);
        self.memory.write_byte(i + 1, tens);
        self.memory.write_byte(i + 2, ones);
    }

    /// Dispatch one decoded instruction on its top nibble, with a secondary
    /// dispatch on `nn` or `n` for the `0x0`, `0x8` and `0xF` groups. An
    /// unrecognized pattern is non-fatal: the instruction already consumed
    /// its two bytes, and nothing else happens.
    fn decode_execute(&mut self, opcode: Opcode)
        requires
            opcode.valid(),
            instr_ok(old(self)@, opcode),
        ensures
            final(self)@.wf(),
            instr_rel(old(self)@, opcode, final(self)@),
    {
        if opcode.a == 0x0 {
            if opcode.nn == 0xE0 {
                self.clear_display();
            } else if opcode.nn == 0xEE {
                self.return_from_subroutine();
            }
        } else if opcode.a == 0x1 || opcode.a == 0xB {
            self.jump(opcode);
        } else if opcode.a == 0x2 {
            self.call(opcode);
        } else if opcode.a == 0x3 || opcode.a == 0x4 || opcode.a == 0x5 || opcode.a == 0x9
            || opcode.a == 0xE {
            self.skip(opcode);
        } else if opcode.a == 0x6 || opcode.a == 0x8 || opcode.a == 0xC {
            self.set_register(opcode);
        } else if opcode.a == 0x7 {
            self.add_to_register(opcode);
        } else if opcode.a == 0xA {
            self.set_index_register(opcode);
        } else if opcode.a == 0xD {
            self.draw(opcode);
        } else if opcode.a == 0xF {
            if opcode.nn == 0x07 {
                self.set_register(opcode);
            } else if opcode.nn == 0x0A {
                self.wait(opcode);
            } else if opcode.nn == 0x15 {
                self.set_delay_timer(opcode);
            } else if opcode.nn == 0x18 {
                self.set_sound_timer(opcode);
            } else if opcode.nn == 0x1E || opcode.nn == 0x29 {
                self.set_index_register(opcode);
            } else if opcode.nn == 0x33 {
                self.store_bcd_mem(opcode);
            } else if opcode.nn == 0x55 {
                self.store_mem(opcode);
            } else if opcode.nn == 0x65 {
                self.read_mem(opcode);
            }
        }
    }

    /// Execute one instruction: fetch the word at the program counter,
    /// advance the counter past it, decode and dispatch. The whole effect
    /// is `step_rel`; `cycle_ok` excludes the program defects the machine
    /// does not recover from.
    pub fn run_cycle_once(&mut self)
        requires
            cycle_ok(old(self)@),
        ensures
            final(self)@.wf(),
            step_rel(old(self)@, final(self)@),
    {
        let current_opcode = self.fetch();
        self.decode_execute(current_opcode);
    }

    /// Whether the next `run_cycle_once` is safe: the fetch stays in bounds
    /// and the next instruction hits no program defect. A driver can test
    /// this before each cycle and treat `false` as the fatal fault it is.
    pub fn cycle_safe(&self) -> (ok: bool)
        requires
            self@.wf(),
        ensures
            ok == cycle_ok(self@),
    {
        if !((self.program_counter as usize) < MEMORY_SIZE - 1) {
            return false;
        }
        let hi = self.memory.read_byte(self.program_counter as usize);
        let lo = self.memory.read_byte((self.program_counter + 1) as usize);
        let op = Opcode::new(hi, lo);
        if op.a == 0x0 {
            !(op.nn == 0xEE) || self.stack_pointer >= 1
        } else if op.a == 0x2 {
            self.stack_pointer < 15
        } else if op.a == 0xD {
            if op.n == 0 {
                true
            } else {
                let y0 = self.v_reg[op.y as usize] % 32;
                let rows: u16 = if (op.n as u16) < 33 - (y0 as u16) {
                    op.n as u16
                } else {
                    33 - (y0 as u16)
                };
                (self.index as usize) + (rows as usize) <= MEMORY_SIZE
            }
        } else if op.a == 0xE {
            !(op.nn == 0x9E || op.nn == 0xA1) || self.v_reg[op.x as usize] < 16
        } else if op.a == 0xF {
            if op.nn == 0x1E {
                (self.index as u32) + (self.v_reg[op.x as usize] as u32) <= 0xFFFF
            } else if op.nn == 0x33 {
                (self.index as usize) + 2 < MEMORY_SIZE
            } else if op.nn == 0x55 || op.nn == 0x65 {
                (self.index as usize) + (op.x as usize) < MEMORY_SIZE
            } else {
                true
            }
        } else {
            true
        }
    }
}

} // verus!
