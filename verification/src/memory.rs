use vstd::prelude::*;

use crate::Fault;

verus! {

/// Number of addressable bytes.
pub const CAPACITY: usize = 4096;
/// Offset at which a program image is placed; everything below it is
/// reserved for the font table.
pub const OFFSET: usize = 512;

/// The byte a freshly loaded font table holds at offset `k` (`0 <= k < 80`):
/// sixteen 5-byte glyphs, one per hexadecimal digit.
pub open spec fn font_byte(k: int) -> u8 {
    // glyph 0
    if k == 0 {
        0xF0
    } else if k == 1 {
        0x90
    } else if k == 2 {
        0x90
    } else if k == 3 {
        0x90
    } else if k == 4 {
        0xF0
    // glyph 1
    } else if k == 5 {
        0x20
    } else if k == 6 {
        0x60
    } else if k == 7 {
        0x20
    } else if k == 8 {
        0x20
    } else if k == 9 {
        0x70
    // glyph 2
    } else if k == 10 {
        0xF0
    } else if k == 11 {
        0x10
    } else if k == 12 {
        0xF0
    } else if k == 13 {
        0x80
    } else if k == 14 {
        0xF0
    // glyph 3
    } else if k == 15 {
        0xF0
    } else if k == 16 {
        0x10
    } else if k == 17 {
        0xF0
    } else if k == 18 {
        0x10
    } else if k == 19 {
        0xF0
    // glyph 4
    } else if k == 20 {
        0x90
    } else if k == 21 {
        0x90
    } else if k == 22 {
        0xF0
    } else if k == 23 {
        0x10
    } else if k == 24 {
        0x10
    // glyph 5
    } else if k == 25 {
        0xF0
    } else if k == 26 {
        0x80
    } else if k == 27 {
        0xF0
    } else if k == 28 {
        0x10
    } else if k == 29 {
        0xF0
    // glyph 6
    } else if k == 30 {
        0xF0
    } else if k == 31 {
        0x80
    } else if k == 32 {
        0xF0
    } else if k == 33 {
        0x90
    } else if k == 34 {
        0xF0
    // glyph 7
    } else if k == 35 {
        0xF0
    } else if k == 36 {
        0x10
    } else if k == 37 {
        0x20
    } else if k == 38 {
        0x40
    } else if k == 39 {
        0x40
    // glyph 8
    } else if k == 40 {
        0xF0
    } else if k == 41 {
        0x90
    } else if k == 42 {
        0xF0
    } else if k == 43 {
        0x90
    } else if k == 44 {
        0xF0
    // glyph 9
    } else if k == 45 {
        0xF0
    } else if k == 46 {
        0x90
    } else if k == 47 {
        0xF0
    } else if k == 48 {
        0x10
    } else if k == 49 {
        0xF0
    // glyph A
    } else if k == 50 {
        0xF0
    } else if k == 51 {
        0x90
    } else if k == 52 {
        0xF0
    } else if k == 53 {
        0x90
    } else if k == 54 {
        0x90
    // glyph B
    } else if k == 55 {
        0xE0
    } else if k == 56 {
        0x90
    } else if k == 57 {
        0xE0
    } else if k == 58 {
        0x90
    } else if k == 59 {
        0xE0
    // glyph C
    } else if k == 60 {
        0xF0
    } else if k == 61 {
        0x80
    } else if k == 62 {
        0x80
    } else if k == 63 {
        0x80
    } else if k == 64 {
        0xF0
    // glyph D
    } else if k == 65 {
        0xE0
    } else if k == 66 {
        0x90
    } else if k == 67 {
        0x90
    } else if k == 68 {
        0x90
    } else if k == 69 {
        0xE0
    // glyph E
    } else if k == 70 {
        0xF0
    } else if k == 71 {
        0x80
    } else if k == 72 {
        0xF0
    } else if k == 73 {
        0x80
    } else if k == 74 {
        0xF0
    // glyph F
    } else if k == 75 {
        0xF0
    } else if k == 76 {
        0x80
    } else if k == 77 {
        0xF0
    } else if k == 78 {
        0x80
    } else if k == 79 {
        0x80
    } else {
        0
    }
}

/// Returns the font-table byte for offset `k`.
fn font_value(k: usize) -> (b: u8)
    requires
        k < 80,
    ensures
        b == font_byte(k as int),
{
    match k {
        // glyph 0
        0 => 0xF0,
        1 => 0x90,
        2 => 0x90,
        3 => 0x90,
        4 => 0xF0,
        // glyph 1
        5 => 0x20,
        6 => 0x60,
        7 => 0x20,
        8 => 0x20,
        9 => 0x70,
        // glyph 2
        10 => 0xF0,
        11 => 0x10,
        12 => 0xF0,
        13 => 0x80,
        14 => 0xF0,
        // glyph 3
        15 => 0xF0,
        16 => 0x10,
        17 => 0xF0,
        18 => 0x10,
        19 => 0xF0,
        // glyph 4
        20 => 0x90,
        21 => 0x90,
        22 => 0xF0,
        23 => 0x10,
        24 => 0x10,
        // glyph 5
        25 => 0xF0,
        26 => 0x80,
        27 => 0xF0,
        28 => 0x10,
        29 => 0xF0,
        // glyph 6
        30 => 0xF0,
        31 => 0x80,
        32 => 0xF0,
        33 => 0x90,
        34 => 0xF0,
        // glyph 7
        35 => 0xF0,
        36 => 0x10,
        37 => 0x20,
        38 => 0x40,
        39 => 0x40,
        // glyph 8
        40 => 0xF0,
        41 => 0x90,
        42 => 0xF0,
        43 => 0x90,
        44 => 0xF0,
        // glyph 9
        45 => 0xF0,
        46 => 0x90,
        47 => 0xF0,
        48 => 0x10,
        49 => 0xF0,
        // glyph A
        50 => 0xF0,
        51 => 0x90,
        52 => 0xF0,
        53 => 0x90,
        54 => 0x90,
        // glyph B
        55 => 0xE0,
        56 => 0x90,
        57 => 0xE0,
        58 => 0x90,
        59 => 0xE0,
        // glyph C
        60 => 0xF0,
        61 => 0x80,
        62 => 0x80,
        63 => 0x80,
        64 => 0xF0,
        // glyph D
        65 => 0xE0,
        66 => 0x90,
        67 => 0x90,
        68 => 0x90,
        69 => 0xE0,
        // glyph E
        70 => 0xF0,
        71 => 0x80,
        72 => 0xF0,
        73 => 0x80,
        74 => 0xF0,
        // glyph F
        75 => 0xF0,
        76 => 0x80,
        77 => 0xF0,
        78 => 0x80,
        79 => 0x80,
        _ => 0,
    }
}

/// A fixed-size addressable byte space holding the font table and the
/// loaded program image.
pub struct Memory {
    pub buffer: Vec<u8>,
}

impl Memory {
    /// A memory is well formed when it spans exactly `CAPACITY` bytes.
    pub open spec fn wf(&self) -> bool {
        self.buffer@.len() == CAPACITY
    }

    pub fn new() -> (m: Memory)
        ensures
            m.wf(),
            forall|k: int| 0 <= k < CAPACITY ==> m.buffer@[k] == 0u8,
    {
        let mut buffer: Vec<u8> = Vec::new();
        let mut k: usize = 0;
        while k < CAPACITY
            invariant
                k <= CAPACITY,
                buffer@.len() == k,
                forall|j: int| 0 <= j < k ==> buffer@[j] == 0u8,
            decreases CAPACITY - k,
        {
            buffer.push(0);
            k = k + 1;
        }
        Memory { buffer }
    }

    /// Reads the byte at `address`; an address at or past `CAPACITY` is an
    /// addressing fault, never a silent wrap.
    pub fn read(&self, address: u16) -> (r: Result<u8, Fault>)
        requires
            self.wf(),
        ensures
            address < CAPACITY ==> r == Ok::<u8, Fault>(self.buffer@[address as int]),
            address >= CAPACITY ==> r == Err::<u8, Fault>(Fault::AddressFault),
    {
        if (address as usize) < CAPACITY {
            Ok(self.buffer[address as usize])
        } else {
            Err(Fault::AddressFault)
        }
    }

    /// Writes `byte` at `address`; an address at or past `CAPACITY` is an
    /// addressing fault and leaves the memory untouched.
    pub fn write(&mut self, address: u16, byte: u8) -> (r: Result<(), Fault>)
        requires
            old(self).wf(),
        ensures
            final(self).wf(),
            address < CAPACITY ==> r == Ok::<(), Fault>(())
                && final(self).buffer@ == old(self).buffer@.update(address as int, byte),
            address >= CAPACITY ==> r == Err::<(), Fault>(Fault::AddressFault)
                && final(self).buffer@ == old(self).buffer@,
    {
        if (address as usize) < CAPACITY {
            self.buffer[address as usize] = byte;
            Ok(())
        } else {
            Err(Fault::AddressFault)
        }
    }

    /// Writes the sixteen fixed 5-byte font glyphs at offsets 0 to 79,
    /// leaving every other byte as it was.
    pub fn load_font_table(&mut self)
        requires
            old(self).wf(),
        ensures
            final(self).wf(),
            forall|k: int| 0 <= k < 80 ==> final(self).buffer@[k] == font_byte(k),
            forall|k: int| 80 <= k < CAPACITY ==> final(self).buffer@[k] == old(self).buffer@[k],
    {
        let mut k: usize = 0;
        while k < 80
            invariant
                k <= 80,
                self.buffer@.len() == CAPACITY,
                forall|j: int| 0 <= j < k ==> self.buffer@[j] == font_byte(j),
                forall|j: int| k <= j < CAPACITY ==> self.buffer@[j] == old(self).buffer@[j],
            decreases 80 - k,
        {
            let b = font_value(k);
            self.buffer[k] = b;
            k = k + 1;
        }
    }

    /// Copies `program` into memory starting at `OFFSET`; bytes that would
    /// land past `CAPACITY` are silently truncated.
    pub fn load_program(&mut self, program: &Vec<u8>)
        requires
            old(self).wf(),
        ensures
            final(self).wf(),
            forall|k: int|
                0 <= k < program@.len() && OFFSET + k < CAPACITY
                    ==> final(self).buffer@[OFFSET + k] == program@[k],
            forall|k: int|
                0 <= k < CAPACITY && !(OFFSET <= k < OFFSET + program@.len())
                    ==> final(self).buffer@[k] == old(self).buffer@[k],
    {
        let mut idx: usize = 0;
        while idx < program.len()
            invariant
                idx <= program@.len(),
                self.buffer@.len() == CAPACITY,
                forall|k: int|
                    0 <= k < idx && OFFSET + k < CAPACITY
                        ==> self.buffer@[OFFSET + k] == program@[k],
                forall|k: int|
                    0 <= k < CAPACITY && !(OFFSET <= k < OFFSET + idx)
                        ==> self.buffer@[k] == old(self).buffer@[k],
            decreases program@.len() - idx,
        {
            if idx < CAPACITY - OFFSET {
                self.buffer[OFFSET + idx] = program[idx];
            }
            idx = idx + 1;
        }
    }

    /// The number of addressable bytes.
    pub fn get_cap() -> (c: usize)
        ensures
            c == CAPACITY,
    {
        CAPACITY
    }

    /// The offset of the program image.
    pub fn get_offset() -> (o: usize)
        ensures
            o == OFFSET,
    {
        OFFSET
    }
}

} // verus!
