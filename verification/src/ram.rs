//! Memory: 4 KiB of bytes, with the hexadecimal font at the bottom.
//!
//! Addresses are 16 bits wide and the address space is 4096 bytes, so every
//! access reduces its address modulo 4096: reads and writes are total, and
//! an address past the end wraps around to the start.

use vstd::prelude::*;

verus! {

/// Number of bytes of memory.
pub const MEMORY_SIZE: usize = 4096;

/// Number of bytes of the font: sixteen glyphs of five rows each.
pub const FONT_SIZE: usize = 80;

/// Address at which programs are loaded and start.
pub const START_FROM: u16 = 0x200;

pub struct Ram {
    pub mem: [u8; 4096],
}

/// The glyphs of the hexadecimal digits 0 to F, five sprite rows each.
pub open spec fn font_set() -> Seq<u8> {
    seq![
        0xF0u8, 0x90u8, 0x90u8, 0x90u8, 0xF0u8,
        0x20u8, 0x60u8, 0x20u8, 0x20u8, 0x70u8,
        0xF0u8, 0x10u8, 0xF0u8, 0x80u8, 0xF0u8,
        0xF0u8, 0x10u8, 0xF0u8, 0x10u8, 0xF0u8,
        0x90u8, 0x90u8, 0xF0u8, 0x10u8, 0x10u8,
        0xF0u8, 0x80u8, 0xF0u8, 0x10u8, 0xF0u8,
        0xF0u8, 0x80u8, 0xF0u8, 0x90u8, 0xF0u8,
        0xF0u8, 0x10u8, 0x20u8, 0x40u8, 0x40u8,
        0xF0u8, 0x90u8, 0xF0u8, 0x90u8, 0xF0u8,
        0xF0u8, 0x90u8, 0xF0u8, 0x10u8, 0xF0u8,
        0xF0u8, 0x90u8, 0xF0u8, 0x90u8, 0x90u8,
        0xE0u8, 0x90u8, 0xE0u8, 0x90u8, 0xE0u8,
        0xF0u8, 0x80u8, 0x80u8, 0x80u8, 0xF0u8,
        0xE0u8, 0x90u8, 0x90u8, 0x90u8, 0xE0u8,
        0xF0u8, 0x80u8, 0xF0u8, 0x80u8, 0xF0u8,
        0xF0u8, 0x80u8, 0xF0u8, 0x80u8, 0x80u8,
    ]
}

/// Memory as it is before a program is loaded: the font, then zeros.
pub open spec fn initial_memory() -> Seq<u8> {
    Seq::new(4096, |addr: int| if addr < 80 { font_set()[addr] } else { 0u8 })
}

/// The cell that an address selects.
pub open spec fn cell(addr: int) -> int {
    addr % 4096
}

impl Ram {
    /// Memory holding the font at addresses 0 to 79 and zeros above.
    pub fn new() -> (r: Ram)
        ensures
            r.mem@ == initial_memory(),
    {
        let font: [u8; 80] = [
            0xF0, 0x90, 0x90, 0x90, 0xF0,
            0x20, 0x60, 0x20, 0x20, 0x70,
            0xF0, 0x10, 0xF0, 0x80, 0xF0,
            0xF0, 0x10, 0xF0, 0x10, 0xF0,
            0x90, 0x90, 0xF0, 0x10, 0x10,
            0xF0, 0x80, 0xF0, 0x10, 0xF0,
            0xF0, 0x80, 0xF0, 0x90, 0xF0,
            0xF0, 0x10, 0x20, 0x40, 0x40,
            0xF0, 0x90, 0xF0, 0x90, 0xF0,
            0xF0, 0x90, 0xF0, 0x10, 0xF0,
            0xF0, 0x90, 0xF0, 0x90, 0x90,
            0xE0, 0x90, 0xE0, 0x90, 0xE0,
            0xF0, 0x80, 0x80, 0x80, 0xF0,
            0xE0, 0x90, 0x90, 0x90, 0xE0,
            0xF0, 0x80, 0xF0, 0x80, 0xF0,
            0xF0, 0x80, 0xF0, 0x80, 0x80,
        ];
        assert(font@ =~= font_set());
        let mut r = Ram { mem: [0u8;4096] };
        let mut addr: usize = 0;
        while addr < 80
            invariant
                addr <= 80,
                font@ == font_set(),
                forall|a: int| 0 <= a < addr ==> #[trigger] r.mem@[a] == font_set()[a],
                forall|a: int| addr <= a < 4096 ==> #[trigger] r.mem@[a] == 0,
            decreases 80 - addr,
        {
            r.mem[addr] = font[addr];
            addr += 1;
        }
        assert(r.mem@ =~= initial_memory());
        r
    }

    /// The byte at `addr`, taken modulo the size of memory.
    pub fn read_byte(&self, addr: u16) -> (value: u8)
        ensures
            value == self.mem@[cell(addr as int)],
    {
        self.mem[(addr as usize) % MEMORY_SIZE]
    }

    /// Stores `value` at `addr`, taken modulo the size of memory, and
    /// leaves every other cell as it was.
    pub fn write_byte(&mut self, addr: u16, value: u8)
        ensures
            final(self).mem@ == old(self).mem@.update(cell(addr as int), value),
    {
        self.mem[(addr as usize) % MEMORY_SIZE] = value;
    }
}

} // verus!
