use vstd::prelude::*;

verus! {

/// The number of bytes of CHIP-8 memory.
pub const MEMORY_SIZE: usize = 0x1000;

/// The bytes of the built-in sprite of hexadecimal digit `digit` (five rows of
/// four pixels, the pixels in the high nibble of each byte).
pub open spec fn font_glyph(digit: int) -> Seq<u8> {
    if digit == 0x0 {
        seq![0xF0u8, 0x90, 0x90, 0x90, 0xF0]
    } else if digit == 0x1 {
        seq![0x20u8, 0x60, 0x20, 0x20, 0x70]
    } else if digit == 0x2 {
        seq![0xF0u8, 0x10, 0xF0, 0x80, 0xF0]
    } else if digit == 0x3 {
        seq![0xF0u8, 0x10, 0xF0, 0x10, 0xF0]
    } else if digit == 0x4 {
        seq![0x90u8, 0x90, 0xF0, 0x10, 0x10]
    } else if digit == 0x5 {
        seq![0xF0u8, 0x80, 0xF0, 0x10, 0xF0]
    } else if digit == 0x6 {
        seq![0xF0u8, 0x80, 0xF0, 0x90, 0xF0]
    } else if digit == 0x7 {
        seq![0xF0u8, 0x10, 0x20, 0x40, 0x40]
    } else if digit == 0x8 {
        seq![0xF0u8, 0x90, 0xF0, 0x90, 0xF0]
    } else if digit == 0x9 {
        seq![0xF0u8, 0x90, 0xF0, 0x10, 0xF0]
    } else if digit == 0xA {
        seq![0xF0u8, 0x90, 0xF0, 0x90, 0x90]
    } else if digit == 0xB {
        seq![0xE0u8, 0x90, 0xE0, 0x90, 0xE0]
    } else if digit == 0xC {
        seq![0xF0u8, 0x80, 0x80, 0x80, 0xF0]
    } else if digit == 0xD {
        seq![0xE0u8, 0x90, 0x90, 0x90, 0xE0]
    } else if digit == 0xE {
        seq![0xF0u8, 0x80, 0xF0, 0x80, 0xF0]
    } else {
        seq![0xF0u8, 0x80, 0xF0, 0x80, 0x80]
    }
}

/// The byte at `addr` of freshly initialised memory: the sprite of digit `d`
/// occupies addresses `5 * d .. 5 * d + 5`, everything else is zero.
pub open spec fn initial_byte(addr: int) -> u8 {
    if 0 <= addr < 80 {
        font_glyph(addr / 5)[addr % 5]
    } else {
        0
    }
}

/// Memory at power-on.
pub open spec fn initial_memory() -> Seq<u8> {
    Seq::new(MEMORY_SIZE as nat, |a: int| initial_byte(a))
}

/// `mem` with `values` copied over it from address `pointer` on.
pub open spec fn bytes_written(mem: Seq<u8>, pointer: int, values: Seq<u8>) -> Seq<u8> {
    Seq::new(
        mem.len(),
        |a: int| if pointer <= a < pointer + values.len() { values[a - pointer] } else { mem[a] },
    )
}

/// The sprite of hexadecimal digit `digit`.
fn font_sprite(digit: usize) -> (r: [u8; 5])
    requires
        digit < 16,
    ensures
        r@ == font_glyph(digit as int),
{
    let r = match digit {
        0x0 => [0xF0, 0x90, 0x90, 0x90, 0xF0],
        0x1 => [0x20, 0x60, 0x20, 0x20, 0x70],
        0x2 => [0xF0, 0x10, 0xF0, 0x80, 0xF0],
        0x3 => [0xF0, 0x10, 0xF0, 0x10, 0xF0],
        0x4 => [0x90, 0x90, 0xF0, 0x10, 0x10],
        0x5 => [0xF0, 0x80, 0xF0, 0x10, 0xF0],
        0x6 => [0xF0, 0x80, 0xF0, 0x90, 0xF0],
        0x7 => [0xF0, 0x10, 0x20, 0x40, 0x40],
        0x8 => [0xF0, 0x90, 0xF0, 0x90, 0xF0],
        0x9 => [0xF0, 0x90, 0xF0, 0x10, 0xF0],
        0xA => [0xF0, 0x90, 0xF0, 0x90, 0x90],
        0xB => [0xE0, 0x90, 0xE0, 0x90, 0xE0],
        0xC => [0xF0, 0x80, 0x80, 0x80, 0xF0],
        0xD => [0xE0, 0x90, 0x90, 0x90, 0xE0],
        0xE => [0xF0, 0x80, 0xF0, 0x80, 0xF0],
        _ => [0xF0, 0x80, 0xF0, 0x80, 0x80],
    };
    assert(r@ =~= font_glyph(digit as int));
    r
}

/// The 4 KiB address space of the machine.
pub struct Memory {
    pub data: [u8; 0x1000],
}

impl Memory {
    pub open spec fn view(&self) -> Seq<u8> {
        self.data@
    }

    /// Memory with the sixteen digit sprites at its start and zeros elsewhere.
    pub fn new() -> (r: Self)
        ensures
            r@ == initial_memory(),
    {
        let mut memory = Self { data: [0; 0x1000] };
        let mut idx: usize = 0;
        while idx < 16
            invariant
                idx <= 16,
                memory@.len() == MEMORY_SIZE,
                forall|a: int|
                    0 <= a < MEMORY_SIZE ==> #[trigger] memory@[a] == if a < 5 * idx {
                        initial_byte(a)
                    } else {
                        0
                    },
            decreases 16 - idx,
        {
            let offset = idx * 5;
            let character_data = font_sprite(idx);
            memory.write_bytes(offset, &character_data);
            assert forall|a: int| 0 <= a < MEMORY_SIZE implies #[trigger] memory@[a] == if a < 5 * (
            idx + 1) {
                initial_byte(a)
            } else {
                0
            } by {
                if offset <= a < offset + 5 {
                    assert(a / 5 == idx);
                    assert(a % 5 == a - offset);
                }
            }
            idx += 1;
        }
        assert(memory@ =~= initial_memory());
        memory
    }

    /// The byte at `pointer`.
    pub fn read_byte(&self, pointer: usize) -> (r: u8)
        requires
            pointer < MEMORY_SIZE,
        ensures
            r == self@[pointer as int],
    {
        self.data[pointer]
    }

    /// Stores `value` at `pointer`; every other byte stays as it was.
    pub fn write_byte(&mut self, pointer: usize, value: u8)
        requires
            pointer < MEMORY_SIZE,
        ensures
            final(self)@ == old(self)@.update(pointer as int, value),
    {
        self.data[pointer] = value;
    }

    /// The `len` bytes starting at `pointer`.
    pub fn read_bytes(&self, pointer: usize, len: usize) -> (r: &[u8])
        requires
            pointer + len <= MEMORY_SIZE,
        ensures
            r@ == self@.subrange(pointer as int, pointer + len),
    {
        &self.data[pointer..pointer + len]
    }

    /// Copies `values` into memory starting at `pointer`; every byte outside
    /// that range stays as it was.
    pub fn write_bytes(&mut self, pointer: usize, values: &[u8])
        requires
            pointer + values@.len() <= MEMORY_SIZE,
        ensures
            final(self)@ == bytes_written(old(self)@, pointer as int, values@),
    {
        let mut idx: usize = 0;
        while idx < values.len()
            invariant
                idx <= values@.len(),
                pointer + values@.len() <= MEMORY_SIZE,
                self@.len() == MEMORY_SIZE,
                forall|a: int|
                    0 <= a < MEMORY_SIZE ==> #[trigger] self@[a] == if pointer <= a < pointer + idx {
                        values@[a - pointer]
                    } else {
                        old(self)@[a]
                    },
            decreases values@.len() - idx,
        {
            self.data[pointer + idx] = values[idx];
            idx += 1;
        }
        assert(self@ =~= bytes_written(old(self)@, pointer as int, values@));
    }

    /// The big-endian 16-bit word made of the bytes at `pointer` and
    /// `pointer + 1`.
    pub fn read_word(&self, pointer: usize) -> (r: u16)
        requires
            pointer + 1 < MEMORY_SIZE,
        ensures
            r == self@[pointer as int] * 256 + self@[pointer + 1],
    {
        let hi = self.data[pointer];
        let lo = self.data[pointer + 1];
        assert(((hi as u16) << 8 | lo as u16) == hi * 256 + lo) by (bit_vector);
        (hi as u16) << 8 | lo as u16
    }
}

} // verus!
