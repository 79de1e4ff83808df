//! Machine-level laws: properties of whole instructions, proved from the
//! spec transitions in `state`, for any program and any starting state.

use crate::memory::{font_installed, font_table, loaded};
use crate::state::{covered, cycle_ok, next_op, scan_keys, step_rel, State};
use crate::{DISPLAY_HEIGHT, DISPLAY_WIDTH, FONT_START, MEMORY_SIZE, PROGRAM_START};
use vstd::prelude::*;

verus! {

/// Loading a program never moves the program counter and never touches the
/// font table: whatever the image holds, a machine that had the counter at
/// `PROGRAM_START` and the font installed still does afterwards.
pub proof fn lemma_load_preserves_boot(s: State, p: Seq<u8>)
    requires
        s.wf(),
        s.pc == PROGRAM_START,
        font_installed(s.mem),
        p.len() <= MEMORY_SIZE - PROGRAM_START,
    ensures
        (State { mem: loaded(s.mem, p), ..s }).pc == PROGRAM_START,
        font_installed(loaded(s.mem, p)),
{
    assert forall|i: int| 0 <= i < 80 implies loaded(s.mem, p)[FONT_START + i] == font_table()[i] by {
        assert(FONT_START + i < PROGRAM_START);
    }
}

/// Executing `00E0` leaves every display cell off, whatever the display
/// held before.
pub proof fn lemma_clear_display_all_off(pre: State, post: State)
    requires
        cycle_ok(pre),
        step_rel(pre, post),
        pre.mem[pre.pc as int] == 0x00,
        pre.mem[pre.pc + 1] == 0xE0,
    ensures
        post.disp.len() == DISPLAY_WIDTH * DISPLAY_HEIGHT,
        forall|i: int| 0 <= i < post.disp.len() ==> !post.disp[i],
{
    assert(next_op(pre).a == 0x0);
    assert(next_op(pre).nn == 0xE0);
}

/// `7xnn` adds the immediate with wraparound and touches no flag: the new
/// `Vx` is the low eight bits of the sum and every other register is kept.
pub proof fn lemma_add_immediate_wraps(pre: State, post: State)
    requires
        cycle_ok(pre),
        step_rel(pre, post),
        next_op(pre).a == 0x7,
    ensures
        post.v[next_op(pre).x as int] == (pre.v[next_op(pre).x as int] + next_op(pre).nn) % 256,
        forall|r: int| 0 <= r < 16 && r != next_op(pre).x ==> post.v[r] == pre.v[r],
{
}

/// `8xy4` sets `VF` to 1 exactly when the unsigned sum of the two registers
/// exceeds 255, and (unless `x` is the flag register itself, which the flag
/// write overrules) leaves `Vx` holding the low eight bits of the sum.
pub proof fn lemma_add_with_carry(pre: State, post: State)
    requires
        cycle_ok(pre),
        step_rel(pre, post),
        next_op(pre).a == 0x8,
        next_op(pre).n == 0x4,
    ensures
        post.v[0xF] == if pre.v[next_op(pre).x as int] + pre.v[next_op(pre).y as int] > 255 {
            1u8
        } else {
            0u8
        },
        next_op(pre).x != 0xF ==> post.v[next_op(pre).x as int] == (pre.v[next_op(pre).x as int]
            + pre.v[next_op(pre).y as int]) % 256,
{
}

/// XOR drawing is an involution: drawing the identical sprite at the
/// identical coordinates twice restores the display exactly, and the second
/// draw's collision flag reports whether the sprite covers any cell that
/// was off before the first draw (those are the cells the first draw lit).
pub proof fn lemma_draw_twice(s: State, x: int, y: int, n: u8)
    requires
        s.wf(),
        0 <= x < 16,
        0 <= y < 16,
        x != 0xF,
        y != 0xF,
    ensures
        ({
            let s1 = s.drawn(x, y, n);
            let s2 = s1.drawn(x, y, n);
            &&& forall|i: int| 0 <= i < s.disp.len() ==> s2.disp[i] == s.disp[i]
            &&& s2.v[0xF] == if exists|i: int|
                0 <= i < DISPLAY_WIDTH * DISPLAY_HEIGHT && covered(
                    s.mem,
                    s.index as int,
                    (s.v[x] % 64) as int,
                    (s.v[y] % 32) as int,
                    n as int,
                    i,
                ) && !s.disp[i] {
                1u8
            } else {
                0u8
            }
        }),
{
    let s1 = s.drawn(x, y, n);
    let s2 = s1.drawn(x, y, n);
    let cells = DISPLAY_WIDTH * DISPLAY_HEIGHT;
    let idx = s.index as int;
    let x0 = (s.v[x] % 64) as int;
    let y0 = (s.v[y] % 32) as int;
    assert(s1.v[x] == s.v[x] && s1.v[y] == s.v[y]);
    assert forall|i: int| 0 <= i < s.disp.len() implies s2.disp[i] == s.disp[i] by {
        assert(s1.disp[i] == (s.disp[i] != covered(s.mem, idx, x0, y0, n as int, i)));
    }
    let hit = |i: int|
        0 <= i < cells && covered(s.mem, idx, x0, y0, n as int, i) && !s.disp[i];
    if exists|i: int| #[trigger] hit(i) {
        let i = choose|i: int| #[trigger] hit(i);
        assert(s1.disp[i]);
        assert(crate::state::collides(s.mem, idx, x0, y0, n as int, s1.disp));
    }
    if crate::state::collides(s.mem, idx, x0, y0, n as int, s1.disp) {
        let i = choose|i: int|
            0 <= i < cells && covered(s.mem, idx, x0, y0, n as int, i) && s1.disp[i];
        assert(hit(i));
    }
}

/// The involution at the instruction level: two consecutive `Dxyn` cycles
/// that both take the drawing branch (the rate gate let both run) with the
/// same operands restore the display to its state before the first, and
/// the second leaves `VF` reporting whether the sprite covers any cell the
/// first draw lit.
pub proof fn lemma_draw_twice_instructions(pre: State, mid: State, post: State, x: int, y: int, n: u8)
    requires
        pre.wf(),
        0 <= x < 16,
        0 <= y < 16,
        x != 0xF,
        y != 0xF,
        mid == crate::state::fetched(pre).drawn(x, y, n),
        post == crate::state::fetched(mid).drawn(x, y, n),
    ensures
        forall|i: int| 0 <= i < pre.disp.len() ==> post.disp[i] == pre.disp[i],
        post.v[0xF] == if exists|i: int|
            0 <= i < DISPLAY_WIDTH * DISPLAY_HEIGHT && covered(
                pre.mem,
                pre.index as int,
                (pre.v[x] % 64) as int,
                (pre.v[y] % 32) as int,
                n as int,
                i,
            ) && !pre.disp[i] {
            1u8
        } else {
            0u8
        },
{
    let s = crate::state::fetched(pre);
    lemma_draw_twice(s, x, y, n);
    let s1 = s.drawn(x, y, n);
    let s2 = s1.drawn(x, y, n);
    assert forall|i: int| 0 <= i < pre.disp.len() implies post.disp[i] == s2.disp[i] by {
        assert(crate::state::fetched(mid).disp == s1.disp);
    }
    assert(post.v == s2.v);
}

/// Clipping: a cell left of the sprite's corner, at or past eight columns
/// to its right, above it, or at or past `n` rows below it is never
/// touched by the draw. Columns do not wrap: a cell's column is its index
/// modulo 64, so nothing past the right edge exists to be written.
pub proof fn lemma_draw_clips(s: State, x: int, y: int, n: u8, i: int)
    requires
        s.wf(),
        0 <= x < 16,
        0 <= y < 16,
        0 <= i < s.disp.len(),
        ({
            let x0 = (s.v[x] % 64) as int;
            let y0 = (s.v[y] % 32) as int;
            i % 64 < x0 || i % 64 >= x0 + 8 || i / 64 < y0 || i / 64 >= y0 + n
        }),
    ensures
        s.drawn(x, y, n).disp[i] == s.disp[i],
{
}

/// With no key pressed and no key latched, a `Fx0A` cycle leaves both the
/// program counter and every register exactly where they were: the
/// instruction busy-waits by retrying itself.
pub proof fn lemma_wait_no_key(pre: State, post: State)
    requires
        cycle_ok(pre),
        step_rel(pre, post),
        next_op(pre).a == 0xF,
        next_op(pre).nn == 0x0A,
        pre.latched is None,
        forall|k: int| 0 <= k < 16 ==> !pre.keys[k],
    ensures
        post.pc == pre.pc,
        post.v == pre.v,
        post.latched is None,
{
    lemma_scan_keys_none(pre.keys, 16);
}

/// A keypad with nothing pressed scans to no key.
proof fn lemma_scan_keys_none(keys: Seq<bool>, j: int)
    requires
        j <= 16,
        forall|k: int| 0 <= k < 16 ==> !keys[k],
    ensures
        scan_keys(keys, j) is None,
    decreases j,
{
    if j > 0 {
        lemma_scan_keys_none(keys, j - 1);
    }
}

} // verus!

