//! The flat byte-addressable store: 4056 cells holding the fixed font table
//! and the loaded program image.

use crate::{FONT_START, MEMORY_SIZE, PROGRAM_START};
use vstd::prelude::*;

verus! {

/// The machine's memory. Constructed once at power-on with the font table
/// installed at `FONT_START`; the program image is copied in at
/// `PROGRAM_START` and everything is mutated only through `write_byte`.
pub struct Memory {
    pub data: Vec<u8>,
}

impl View for Memory {
    type V = Seq<u8>;

    open spec fn view(&self) -> Seq<u8> {
        self.data@
    }
}

/// The fixed font table: 16 glyphs for the digits 0 to F, 5 bytes each.
pub open spec fn font_table() -> Seq<u8> {
    seq![
        0xF0u8, 0x90, 0x90, 0x90, 0xF0, // 0
        0x20, 0x60, 0x20, 0x20, 0x70, // 1
        0xF0, 0x10, 0xF0, 0x80, 0xF0, // 2
        0xF0, 0x10, 0xF0, 0x10, 0xF0, // 3
        0x90, 0x90, 0xF0, 0x10, 0x10, // 4
        0xF0, 0x80, 0xF0, 0x10, 0xF0, // 5
        0xF0, 0x80, 0xF0, 0x90, 0xF0, // 6
        0xF0, 0x10, 0x20, 0x40, 0x40, // 7
        0xF0, 0x90, 0xF0, 0x90, 0xF0, // 8
        0xF0, 0x90, 0xF0, 0x10, 0xF0, // 9
        0xF0, 0x90, 0xF0, 0x90, 0x90, // A
        0xE0, 0x90, 0xE0, 0x90, 0xE0, // B
        0xF0, 0x80, 0x80, 0x80, 0xF0, // C
        0xE0, 0x90, 0x90, 0x90, 0xE0, // D
        0xF0, 0x80, 0xF0, 0x80, 0xF0, // E
        0xF0, 0x80, 0xF0, 0x80, 0x80, // F
    ]
}

/// The font table stands at `FONT_START`.
pub open spec fn font_installed(m: Seq<u8>) -> bool {
    forall|i: int| 0 <= i < 80 ==> m[FONT_START + i] == font_table()[i]
}

/// Memory after copying `p` in at `PROGRAM_START`, all other cells kept.
pub open spec fn loaded(m: Seq<u8>, p: Seq<u8>) -> Seq<u8> {
    Seq::new(
        m.len(),
        |i: int|
            if PROGRAM_START <= i < PROGRAM_START + p.len() {
                p[i - PROGRAM_START]
            } else {
                m[i]
            },
    )
}

/// The font bytes as an executable vector, equal to `font_table`.
fn font_bytes() -> (v: Vec<u8>)
    ensures
        v@ == font_table(),
{
    let v: Vec<u8> = vec![
        0xF0u8, 0x90, 0x90, 0x90, 0xF0, // 0
        0x20, 0x60, 0x20, 0x20, 0x70, // 1
        0xF0, 0x10, 0xF0, 0x80, 0xF0, // 2
        0xF0, 0x10, 0xF0, 0x10, 0xF0, // 3
        0x90, 0x90, 0xF0, 0x10, 0x10, // 4
        0xF0, 0x80, 0xF0, 0x10, 0xF0, // 5
        0xF0, 0x80, 0xF0, 0x90, 0xF0, // 6
        0xF0, 0x10, 0x20, 0x40, 0x40, // 7
        0xF0, 0x90, 0xF0, 0x90, 0xF0, // 8
        0xF0, 0x90, 0xF0, 0x10, 0xF0, // 9
        0xF0, 0x90, 0xF0, 0x90, 0x90, // A
        0xE0, 0x90, 0xE0, 0x90, 0xE0, // B
        0xF0, 0x80, 0x80, 0x80, 0xF0, // C
        0xE0, 0x90, 0x90, 0x90, 0xE0, // D
        0xF0, 0x80, 0xF0, 0x80, 0xF0, // E
        0xF0, 0x80, 0xF0, 0x80, 0x80, // F
    ];
    proof {
        assert(v@ =~= font_table());
    }
    v
}

impl Memory {
    /// The store always holds exactly `MEMORY_SIZE` cells.
    pub open spec fn wf(self) -> bool {
        self@.len() == MEMORY_SIZE
    }

    /// Memory at power-on: all cells zero but for the font table.
    pub fn new() -> (m: Self)
        ensures
            m.wf(),
            font_installed(m@),
            forall|i: int|
                0 <= i < MEMORY_SIZE && !(FONT_START <= i < FONT_START + 80) ==> m@[i] == 0,
    {
        let mut data: Vec<u8> = Vec::new();
        while data.len() < MEMORY_SIZE
            invariant
                data@.len() <= MEMORY_SIZE,
                forall|i: int| 0 <= i < data@.len() ==> data@[i] == 0,
            decreases MEMORY_SIZE - data@.len(),
        {
            data.push(0);
        }
        let mut mem = Memory { data };
        mem.load_fonts();
        mem
    }

    /// Install the font table at `FONT_START`, leaving every other cell as
    /// it was.
    fn load_fonts(&mut self)
        requires
            old(self).wf(),
        ensures
            final(self).wf(),
            font_installed(final(self)@),
            forall|i: int|
                0 <= i < MEMORY_SIZE && !(FONT_START <= i < FONT_START + 80) ==> final(self)@[i]
                    == old(self)@[i],
    {
        let font = font_bytes();
        let mut i: usize = 0;
        while i < 80
            invariant
                i <= 80,
                font@ == font_table(),
                self.wf(),
                forall|j: int| 0 <= j < i ==> self@[FONT_START + j] == font_table()[j],
                forall|j: int|
                    0 <= j < MEMORY_SIZE && !(FONT_START <= j < FONT_START + 80) ==> self@[j]
                        == old(self)@[j],
            decreases 80 - i,
        {
            self.data[FONT_START + i] = font[i];
            i = i + 1;
        }
    }

    /// Read the byte at `address`. An out-of-bounds address is a caller
    /// defect, excluded here rather than handled.
    pub fn read_byte(&self, address: usize) -> (b: u8)
        requires
            self.wf(),
            address < MEMORY_SIZE,
        ensures
            b == self@[address as int],
    {
        self.data[address]
    }

    /// Write `byte` at `address`. An out-of-bounds address is a caller
    /// defect, excluded here rather than handled.
    pub fn write_byte(&mut self, address: usize, byte: u8)
        requires
            old(self).wf(),
            address < MEMORY_SIZE,
        ensures
            final(self).wf(),
            final(self)@ == old(self)@.update(address as int, byte),
    {
        self.data[address] = byte;
    }

    /// Copy `program` in, starting at `PROGRAM_START`, overwriting any prior
    /// program. A program too large for the store is a caller defect.
    pub fn load_program(&mut self, program: &[u8])
        requires
            old(self).wf(),
            program@.len() <= MEMORY_SIZE - PROGRAM_START,
        ensures
            final(self).wf(),
            final(self)@ == loaded(old(self)@, program@),
    {
        let mut i: usize = 0;
        while i < program.len()
            invariant
                i <= program@.len(),
                program@.len() <= MEMORY_SIZE - PROGRAM_START,
                self.wf(),
                forall|j: int| 0 <= j < i ==> self@[PROGRAM_START + j] == program@[j],
                forall|j: int|
                    0 <= j < MEMORY_SIZE && !(PROGRAM_START <= j < PROGRAM_START + i) ==> self@[j]
                        == old(self)@[j],
            decreases program@.len() - i,
        {
            self.data[PROGRAM_START + i] = program[i];
            i = i + 1;
        }
        proof {
            assert(self@ =~= loaded(old(self)@, program@));
        }
    }
}

} // verus!
