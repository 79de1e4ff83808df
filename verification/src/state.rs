//! The mathematical model of the machine: a ghost `State`, one spec
//! transition per instruction, the step relation that `Chip8::run_cycle_once`
//! is proved to satisfy, and the safety condition `cycle_ok` under which a
//! cycle cannot fault.

use crate::opcode::{decode, Opcode};
use crate::{DISPLAY_HEIGHT, DISPLAY_WIDTH, MEMORY_SIZE};
use vstd::prelude::*;

verus! {

/// The machine state the contracts speak of: every register, the memory,
/// the display and the key-wait latch, as mathematical values.
pub ghost struct State {
    /// The byte-addressable store.
    pub mem: Seq<u8>,
    /// The display cells, row-major: cell `(cx, cy)` is `disp[cy * 64 + cx]`.
    pub disp: Seq<bool>,
    /// The program counter.
    pub pc: u16,
    /// The index register.
    pub index: u16,
    /// The sixteen return addresses of the call stack.
    pub stack: Seq<u16>,
    /// The stack pointer.
    pub sp: u8,
    /// The sixteen general-purpose registers `V0..VF`.
    pub v: Seq<u8>,
    /// The delay timer's value.
    pub delay: u8,
    /// The sound timer's value.
    pub sound: u8,
    /// The sixteen keypad flags.
    pub keys: Seq<bool>,
    /// The key remembered by a pending `Fx0A` wait, if any.
    pub latched: Option<u8>,
}

/// The key the ascending keypad scan of `Fx0A` ends on: the highest index
/// below `j` whose key is pressed.
pub open spec fn scan_keys(keys: Seq<bool>, j: int) -> Option<u8>
    decreases j,
{
    if j <= 0 {
        None
    } else if keys[j - 1] {
        Some((j - 1) as u8)
    } else {
        scan_keys(keys, j - 1)
    }
}

/// Whether bit `b` of a sprite row is set, most-significant bit first.
pub open spec fn sprite_pixel(row: u8, b: int) -> bool {
    (row >> ((7 - b) as u8)) & 1 == 1
}

/// Whether a sprite of `rows` rows, drawn from memory address `index` with
/// top-left corner `(x0, y0)`, puts a set bit on display cell `i`. Bits past
/// the right edge and rows past the bottom edge cover nothing: a cell index
/// never wraps.
pub open spec fn covered(mem: Seq<u8>, index: int, x0: int, y0: int, rows: int, i: int) -> bool {
    let cx = i % 64;
    let cy = i / 64;
    &&& x0 <= cx < x0 + 8
    &&& y0 <= cy < y0 + rows
    &&& sprite_pixel(mem[index + (cy - y0)], cx - x0)
}

/// Whether such a sprite meets a cell of `disp` that is already lit.
pub open spec fn collides(
    mem: Seq<u8>,
    index: int,
    x0: int,
    y0: int,
    rows: int,
    disp: Seq<bool>,
) -> bool {
    exists|i: int|
        0 <= i < DISPLAY_WIDTH * DISPLAY_HEIGHT && covered(mem, index, x0, y0, rows, i) && disp[i]
}

/// Like `covered`, but only by the first `bits` bits of sprite row `r`: the
/// part of that row a partly finished draw has blitted.
pub open spec fn row_covered_upto(
    mem: Seq<u8>,
    index: int,
    x0: int,
    y0: int,
    r: int,
    bits: int,
    i: int,
) -> bool {
    let cx = i % 64;
    let cy = i / 64;
    &&& cy == y0 + r
    &&& x0 <= cx < x0 + bits
    &&& sprite_pixel(mem[index + r], cx - x0)
}

/// Whether the first `bits` bits of sprite row `r` meet a lit cell of
/// `disp`.
pub open spec fn row_collides_upto(
    mem: Seq<u8>,
    index: int,
    x0: int,
    y0: int,
    r: int,
    bits: int,
    disp: Seq<bool>,
) -> bool {
    exists|i: int|
        0 <= i < DISPLAY_WIDTH * DISPLAY_HEIGHT && row_covered_upto(mem, index, x0, y0, r, bits, i)
            && disp[i]
}

/// Coverage by `r + 1` whole rows is coverage by `r` rows or by all eight
/// bits of row `r`.
pub proof fn lemma_covered_split(mem: Seq<u8>, index: int, x0: int, y0: int, r: int, c: int)
    requires
        0 <= r,
    ensures
        covered(mem, index, x0, y0, r + 1, c) == (covered(mem, index, x0, y0, r, c)
            || row_covered_upto(mem, index, x0, y0, r, 8, c)),
{
}

/// The collision of `r + 1` whole rows splits the same way.
pub proof fn lemma_collides_split(
    mem: Seq<u8>,
    index: int,
    x0: int,
    y0: int,
    r: int,
    disp: Seq<bool>,
)
    requires
        0 <= r,
    ensures
        collides(mem, index, x0, y0, r + 1, disp) == (collides(mem, index, x0, y0, r, disp)
            || row_collides_upto(mem, index, x0, y0, r, 8, disp)),
{
    let cells = DISPLAY_WIDTH * DISPLAY_HEIGHT;
    if collides(mem, index, x0, y0, r + 1, disp) {
        let i = choose|i: int|
            0 <= i < cells && covered(mem, index, x0, y0, r + 1, i) && disp[i];
        lemma_covered_split(mem, index, x0, y0, r, i);
        assert(collides(mem, index, x0, y0, r, disp) || row_collides_upto(
            mem,
            index,
            x0,
            y0,
            r,
            8,
            disp,
        ));
    }
    if collides(mem, index, x0, y0, r, disp) {
        let i = choose|i: int| 0 <= i < cells && covered(mem, index, x0, y0, r, i) && disp[i];
        lemma_covered_split(mem, index, x0, y0, r, i);
        assert(covered(mem, index, x0, y0, r + 1, i));
        assert(collides(mem, index, x0, y0, r + 1, disp));
    }
    if row_collides_upto(mem, index, x0, y0, r, 8, disp) {
        let i = choose|i: int|
            0 <= i < cells && row_covered_upto(mem, index, x0, y0, r, 8, i) && disp[i];
        lemma_covered_split(mem, index, x0, y0, r, i);
        assert(covered(mem, index, x0, y0, r + 1, i));
        assert(collides(mem, index, x0, y0, r + 1, disp));
    }
}

/// Coverage by the first `b + 1` bits of row `r` is coverage by the first
/// `b` bits, or bit `b` itself landing (unclipped) on exactly the cell
/// `(x0 + b, y0 + r)`.
pub proof fn lemma_row_covered_bit(
    mem: Seq<u8>,
    index: int,
    x0: int,
    y0: int,
    r: int,
    b: int,
    c: int,
)
    requires
        0 <= b,
        0 <= x0,
        0 <= c < DISPLAY_WIDTH * DISPLAY_HEIGHT,
    ensures
        row_covered_upto(mem, index, x0, y0, r, b + 1, c) == (row_covered_upto(
            mem,
            index,
            x0,
            y0,
            r,
            b,
            c,
        ) || (c == (y0 + r) * 64 + (x0 + b) && x0 + b < 64 && 0 <= y0 + r < 32 && sprite_pixel(
            mem[index + r],
            b,
        ))),
{
    vstd::arithmetic::div_mod::lemma_fundamental_div_mod(c, 64);
    if c == (y0 + r) * 64 + (x0 + b) && x0 + b < 64 && 0 <= y0 + r < 32 {
        vstd::arithmetic::div_mod::lemma_fundamental_div_mod_converse(c, 64, y0 + r, x0 + b);
    }
}

/// The partial-row collision splits the same way: bit `b` adds a collision
/// exactly when it lands on a lit cell.
pub proof fn lemma_row_collides_bit(
    mem: Seq<u8>,
    index: int,
    x0: int,
    y0: int,
    r: int,
    b: int,
    disp: Seq<bool>,
)
    requires
        0 <= b,
        0 <= x0,
        disp.len() == DISPLAY_WIDTH * DISPLAY_HEIGHT,
    ensures
        row_collides_upto(mem, index, x0, y0, r, b + 1, disp) == (row_collides_upto(
            mem,
            index,
            x0,
            y0,
            r,
            b,
            disp,
        ) || (x0 + b < 64 && 0 <= y0 + r < 32 && sprite_pixel(mem[index + r], b) && disp[(y0 + r)
            * 64 + (x0 + b)])),
{
    let cells = DISPLAY_WIDTH * DISPLAY_HEIGHT;
    if row_collides_upto(mem, index, x0, y0, r, b + 1, disp) {
        let i = choose|i: int|
            0 <= i < cells && row_covered_upto(mem, index, x0, y0, r, b + 1, i) && disp[i];
        lemma_row_covered_bit(mem, index, x0, y0, r, b, i);
    }
    if row_collides_upto(mem, index, x0, y0, r, b, disp) {
        let i = choose|i: int|
            0 <= i < cells && row_covered_upto(mem, index, x0, y0, r, b, i) && disp[i];
        lemma_row_covered_bit(mem, index, x0, y0, r, b, i);
        assert(row_covered_upto(mem, index, x0, y0, r, b + 1, i));
    }
    if x0 + b < 64 && 0 <= y0 + r < 32 && sprite_pixel(mem[index + r], b) && disp[(y0 + r) * 64 + (
    x0 + b)] {
        let i = (y0 + r) * 64 + (x0 + b);
        lemma_row_covered_bit(mem, index, x0, y0, r, b, i);
        assert(row_covered_upto(mem, index, x0, y0, r, b + 1, i));
        assert(row_collides_upto(mem, index, x0, y0, r, b + 1, disp));
    }
}

/// Once a row reaches the bottom edge, the remaining rows cover no cell:
/// coverage by `n` rows equals coverage by the `r` rows already drawn.
pub proof fn lemma_covered_clip(
    mem: Seq<u8>,
    index: int,
    x0: int,
    y0: int,
    r: int,
    n: int,
    c: int,
)
    requires
        0 <= r <= n,
        y0 + r >= 32,
        0 <= c < DISPLAY_WIDTH * DISPLAY_HEIGHT,
    ensures
        covered(mem, index, x0, y0, n, c) == covered(mem, index, x0, y0, r, c),
{
    assert(c / 64 < 32);
}

/// The collision flag clips the same way.
pub proof fn lemma_collides_clip(
    mem: Seq<u8>,
    index: int,
    x0: int,
    y0: int,
    r: int,
    n: int,
    disp: Seq<bool>,
)
    requires
        0 <= r <= n,
        y0 + r >= 32,
    ensures
        collides(mem, index, x0, y0, n, disp) == collides(mem, index, x0, y0, r, disp),
{
    let cells = DISPLAY_WIDTH * DISPLAY_HEIGHT;
    if collides(mem, index, x0, y0, n, disp) {
        let i = choose|i: int| 0 <= i < cells && covered(mem, index, x0, y0, n, i) && disp[i];
        lemma_covered_clip(mem, index, x0, y0, r, n, i);
        assert(collides(mem, index, x0, y0, r, disp));
    }
    if collides(mem, index, x0, y0, r, disp) {
        let i = choose|i: int| 0 <= i < cells && covered(mem, index, x0, y0, r, i) && disp[i];
        lemma_covered_clip(mem, index, x0, y0, r, n, i);
        assert(collides(mem, index, x0, y0, n, disp));
    }
}

/// How many sprite rows the draw instruction reads from memory: it stops
/// after the first row whose y-coordinate reaches the bottom edge, but that
/// row is read before the check.
pub open spec fn rows_read(y0: int, n: int) -> int {
    if n < 33 - y0 {
        n
    } else {
        33 - y0
    }
}

impl State {
    /// Structural soundness: the sizes of the stores, the stack pointer in
    /// range, and any latched key a real key index.
    pub open spec fn wf(self) -> bool {
        &&& self.mem.len() == MEMORY_SIZE
        &&& self.disp.len() == DISPLAY_WIDTH * DISPLAY_HEIGHT
        &&& self.stack.len() == 16
        &&& self.v.len() == 16
        &&& self.keys.len() == 16
        &&& self.sp < 16
        &&& (self.latched matches Some(k) ==> k < 16)
    }

    /// The same state with the program counter at `pc`.
    pub open spec fn with_pc(self, pc: u16) -> State {
        State { pc, ..self }
    }

    /// The same state with register `x` holding `val`.
    pub open spec fn with_v(self, x: int, val: u8) -> State {
        State { v: self.v.update(x, val), ..self }
    }

    /// The same state with the index register at `index`.
    pub open spec fn with_index(self, index: u16) -> State {
        State { index, ..self }
    }

    /// The same state with the delay timer at `t`.
    pub open spec fn with_delay(self, t: u8) -> State {
        State { delay: t, ..self }
    }

    /// The same state with the sound timer at `t`.
    pub open spec fn with_sound(self, t: u8) -> State {
        State { sound: t, ..self }
    }

    /// `00E0`: every display cell off.
    pub open spec fn cleared(self) -> State {
        State { disp: Seq::new(self.disp.len(), |i: int| false), ..self }
    }

    /// `00EE`: the program counter popped from the stack.
    pub open spec fn returned(self) -> State {
        State { pc: self.stack[self.sp as int], sp: (self.sp - 1) as u8, ..self }
    }

    /// `2nnn`: the incremented program counter pushed, then a jump to `t`.
    pub open spec fn called(self, t: u16) -> State {
        State {
            sp: (self.sp + 1) as u8,
            stack: self.stack.update(self.sp + 1, self.pc),
            pc: t,
            ..self
        }
    }

    /// A conditional skip: the program counter advances by one more
    /// instruction when `cond` holds.
    pub open spec fn skipped(self, cond: bool) -> State {
        if cond {
            self.with_pc((self.pc + 2) as u16)
        } else {
            self
        }
    }

    /// The self-retrying instructions: the program counter rewound by one
    /// instruction, so the same instruction is fetched again next cycle.
    pub open spec fn rewound(self) -> State {
        self.with_pc((self.pc - 2) as u16)
    }

    /// `8xyn`: the register-register ALU group. Reads happen before any
    /// write, and the flag register is written last.
    pub open spec fn alu(self, x: int, y: int, n: u8) -> State {
        let vx = self.v[x];
        let vy = self.v[y];
        if n == 0x0 {
            self.with_v(x, vy)
        } else if n == 0x1 {
            self.with_v(x, vx | vy).with_v(0xF, 0)
        } else if n == 0x2 {
            self.with_v(x, vx & vy).with_v(0xF, 0)
        } else if n == 0x3 {
            self.with_v(x, vx ^ vy).with_v(0xF, 0)
        } else if n == 0x4 {
            self.with_v(x, ((vx + vy) % 256) as u8).with_v(
                0xF,
                if vx + vy > 255 {
                    1
                } else {
                    0
                },
            )
        } else if n == 0x5 {
            self.with_v(x, ((vx + 256 - vy) % 256) as u8).with_v(
                0xF,
                if vx < vy {
                    0
                } else {
                    1
                },
            )
        } else if n == 0x6 {
            self.with_v(x, (vy / 2) as u8).with_v(0xF, (vy % 2) as u8)
        } else if n == 0x7 {
            self.with_v(x, ((vy + 256 - vx) % 256) as u8).with_v(
                0xF,
                if vy < vx {
                    0
                } else {
                    1
                },
            )
        } else if n == 0xE {
            self.with_v(x, ((vy * 2) % 256) as u8).with_v(0xF, (vy / 128) as u8)
        } else {
            self
        }
    }

    /// `Dxyn` once the rate gate lets it run: the sprite is XORed onto the
    /// display, clipped at the right and bottom edges, and `VF` reports
    /// whether any lit cell was hit.
    pub open spec fn drawn(self, x: int, y: int, n: u8) -> State {
        let x0 = (self.v[x] % 64) as int;
        let y0 = (self.v[y] % 32) as int;
        State {
            disp: Seq::new(
                self.disp.len(),
                |i: int| self.disp[i] != covered(self.mem, self.index as int, x0, y0, n as int, i),
            ),
            v: self.v.update(
                0xF,
                if collides(self.mem, self.index as int, x0, y0, n as int, self.disp) {
                    1
                } else {
                    0
                },
            ),
            ..self
        }
    }

    /// `Fx0A`, one cycle of the two-phase key wait. With no key latched, the
    /// keypad is scanned, the highest pressed key (if any) is latched, and
    /// the instruction retries. With a key latched and still pressed, the
    /// instruction retries. Once the latched key is released, its code is
    /// committed to `Vx` and the program counter advances normally.
    pub open spec fn waited(self, x: int) -> State {
        match self.latched {
            Some(k) => {
                if !self.keys[k as int] {
                    State { v: self.v.update(x, k), latched: None, ..self }
                } else {
                    self.rewound()
                }
            },
            None => State { latched: scan_keys(self.keys, 16), ..self }.rewound(),
        }
    }

    /// `Fx33`: the three decimal digits of `Vx` stored at `index`,
    /// `index + 1`, `index + 2`.
    pub open spec fn bcd_stored(self, x: int) -> State {
        let val = self.v[x];
        State {
            mem: self.mem.update(self.index as int, (val / 100) as u8).update(
                self.index + 1,
                ((val / 10) % 10) as u8,
            ).update(self.index + 2, (val % 10) as u8),
            ..self
        }
    }

    /// `Fx55`: registers `V0..Vx` copied to memory at `index`, which then
    /// advances by the count copied.
    pub open spec fn regs_stored(self, x: int) -> State {
        State {
            mem: Seq::new(
                self.mem.len(),
                |a: int|
                    if self.index <= a <= self.index + x {
                        self.v[a - self.index]
                    } else {
                        self.mem[a]
                    },
            ),
            index: (self.index + x + 1) as u16,
            ..self
        }
    }

    /// `Fx65`: registers `V0..Vx` loaded from memory at `index`, which then
    /// advances by the count loaded.
    pub open spec fn regs_loaded(self, x: int) -> State {
        State {
            v: Seq::new(
                self.v.len(),
                |j: int|
                    if 0 <= j <= x {
                        self.mem[self.index + j]
                    } else {
                        self.v[j]
                    },
            ),
            index: (self.index + x + 1) as u16,
            ..self
        }
    }
}

/// What each decoded instruction does to the machine, as a relation between
/// the state `s` after the fetch (program counter already advanced) and the
/// state after the instruction. The relation is a function of `s` but for
/// the two nondeterministic instructions: `Cxnn` masks a random byte, and
/// `Dxyn` either draws or, when the rate gate refuses, rewinds and retries.
/// An unrecognized pattern is a no-op: the fetch already consumed its two
/// bytes.
pub open spec fn instr_rel(s: State, op: Opcode, post: State) -> bool {
    if op.a == 0x0 {
        if op.nn == 0xE0 {
            post == s.cleared()
        } else if op.nn == 0xEE {
            post == s.returned()
        } else {
            post == s
        }
    } else if op.a == 0x1 {
        post == s.with_pc(op.nnn)
    } else if op.a == 0x2 {
        post == s.called(op.nnn)
    } else if op.a == 0x3 {
        post == s.skipped(s.v[op.x as int] == op.nn)
    } else if op.a == 0x4 {
        post == s.skipped(s.v[op.x as int] != op.nn)
    } else if op.a == 0x5 {
        post == s.skipped(s.v[op.x as int] == s.v[op.y as int])
    } else if op.a == 0x6 {
        post == s.with_v(op.x as int, op.nn)
    } else if op.a == 0x7 {
        post == s.with_v(op.x as int, ((s.v[op.x as int] + op.nn) % 256) as u8)
    } else if op.a == 0x8 {
        post == s.alu(op.x as int, op.y as int, op.n)
    } else if op.a == 0x9 {
        post == s.skipped(s.v[op.x as int] != s.v[op.y as int])
    } else if op.a == 0xA {
        post == s.with_index(op.nnn)
    } else if op.a == 0xB {
        post == s.with_pc((op.nnn + s.v[0]) as u16)
    } else if op.a == 0xC {
        exists|b: u8| post == s.with_v(op.x as int, b & op.nn)
    } else if op.a == 0xD {
        post == s.rewound() || post == s.drawn(op.x as int, op.y as int, op.n)
    } else if op.a == 0xE {
        if op.nn == 0x9E {
            post == s.skipped(s.keys[s.v[op.x as int] as int])
        } else if op.nn == 0xA1 {
            post == s.skipped(!s.keys[s.v[op.x as int] as int])
        } else {
            post == s
        }
    } else if op.a == 0xF {
        if op.nn == 0x07 {
            post == s.with_v(op.x as int, s.delay)
        } else if op.nn == 0x0A {
            post == s.waited(op.x as int)
        } else if op.nn == 0x15 {
            post == s.with_delay(s.v[op.x as int])
        } else if op.nn == 0x18 {
            post == s.with_sound(s.v[op.x as int])
        } else if op.nn == 0x1E {
            post == s.with_index((s.index + s.v[op.x as int]) as u16)
        } else if op.nn == 0x29 {
            post == s.with_index(((s.v[op.x as int] % 16) * 5) as u16)
        } else if op.nn == 0x33 {
            post == s.bcd_stored(op.x as int)
        } else if op.nn == 0x55 {
            post == s.regs_stored(op.x as int)
        } else if op.nn == 0x65 {
            post == s.regs_loaded(op.x as int)
        } else {
            post == s
        }
    } else {
        post == s
    }
}

/// The addresses the draw instruction reads are all in bounds.
pub open spec fn draw_ok(s: State, x: int, y: int, n: u8) -> bool {
    n == 0 || s.index + rows_read((s.v[y] % 32) as int, n as int) <= MEMORY_SIZE
}

/// What must hold of the state `s` after the fetch for the decoded
/// instruction to execute without faulting. Stack underflow and overflow,
/// out-of-bounds memory traffic and index-register overflow are program
/// defects the machine does not recover from, so they are excluded here.
pub open spec fn instr_ok(s: State, op: Opcode) -> bool {
    &&& s.wf()
    &&& 2 <= s.pc
    &&& s.pc + 2 <= u16::MAX
    &&& if op.a == 0x0 {
        op.nn == 0xEE ==> s.sp >= 1
    } else if op.a == 0x2 {
        s.sp < 15
    } else if op.a == 0xD {
        draw_ok(s, op.x as int, op.y as int, op.n)
    } else if op.a == 0xE {
        (op.nn == 0x9E || op.nn == 0xA1) ==> s.v[op.x as int] < 16
    } else if op.a == 0xF {
        if op.nn == 0x1E {
            s.index + s.v[op.x as int] <= u16::MAX
        } else if op.nn == 0x33 {
            s.index + 2 < MEMORY_SIZE
        } else if op.nn == 0x55 || op.nn == 0x65 {
            s.index + op.x < MEMORY_SIZE
        } else {
            true
        }
    } else {
        true
    }
}

/// The instruction word the next cycle will fetch, still as its two bytes.
pub open spec fn next_op(s: State) -> Opcode {
    decode(s.mem[s.pc as int], s.mem[s.pc + 1])
}

/// The state after the fetch: the program counter advanced past the
/// instruction word, before the instruction runs.
pub open spec fn fetched(s: State) -> State {
    s.with_pc((s.pc + 2) as u16)
}

/// `run_cycle_once` cannot fault: the fetch itself stays in bounds and the
/// fetched instruction satisfies `instr_ok`.
pub open spec fn cycle_ok(s: State) -> bool {
    &&& s.wf()
    &&& s.pc + 1 < MEMORY_SIZE
    &&& instr_ok(fetched(s), next_op(s))
}

/// One whole cycle: fetch the word at the program counter, advance the
/// counter past it, then relate the outcome by `instr_rel`.
pub open spec fn step_rel(pre: State, post: State) -> bool {
    instr_rel(fetched(pre), next_op(pre), post)
}

/// The keypad scan returns only real key indices.
pub proof fn lemma_scan_keys_bound(keys: Seq<bool>, j: int)
    requires
        j <= 16,
    ensures
        scan_keys(keys, j) matches Some(k) ==> k < 16,
    decreases j,
{
    if j > 0 && !keys[j - 1] {
        lemma_scan_keys_bound(keys, j - 1);
    }
}

} // verus!
