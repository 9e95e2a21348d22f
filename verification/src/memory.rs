//! The flat byte-addressable memory of the machine, with its built-in
//! glyph table and bounds-checked access.

use vstd::prelude::*;

use crate::error::InterpreterError;

verus! {

/// Size of the address space in bytes.
pub const MEMORY_SIZE: usize = 4096;
/// Byte offset at which program images are loaded.
pub const ROM_OFFSET: usize = 512;
/// Byte offset of the built-in glyph table.
pub const FONT_OFFSET: usize = 80;
/// Length of the built-in glyph table: 16 glyphs of 5 bytes each.
pub const FONT_LEN: usize = 80;

/// The built-in glyph table: one 5-byte glyph per hexadecimal digit 0-F.
pub open spec fn spec_font() -> Seq<u8> {
    seq![
        0xF0u8, 0x90, 0x90, 0x90, 0xF0, // 0
        0x20, 0x60, 0x20, 0x20, 0x70, // 1
        0xF0, 0x10, 0xF0, 0x80, 0xF0, // 2
        0xF0, 0x10, 0xF0, 0x10, 0xF0, // 3
        0x90, 0x90, 0xF0, 0x10, 0x10, // 4
        0xF0, 0x80, 0xF0, 0x10, 0xF0, // 5
        0xF0, 0x80, 0xF0, 0x90, 0xF0, // 6
        0xF0, 0x10, 0x20, 0x40, 0x40, // 7
        0xF0, 0x90, 0xF0, 0x90, 0xF0, // 8
        0xF0, 0x90, 0xF0, 0x10, 0xF0, // 9
        0xF0, 0x90, 0xF0, 0x90, 0x90, // A
        0xE0, 0x90, 0xE0, 0x90, 0xE0, // B
        0xF0, 0x80, 0x80, 0x80, 0xF0, // C
        0xE0, 0x90, 0x90, 0x90, 0xE0, // D
        0xF0, 0x80, 0xF0, 0x80, 0xF0, // E
        0xF0, 0x80, 0xF0, 0x80, 0x80, // F
    ]
}

/// Memory contents of a machine that was just constructed or reset:
/// all zero except for the glyph table.
pub open spec fn spec_fresh_memory() -> Seq<u8> {
    Seq::new(
        MEMORY_SIZE as nat,
        |k: int|
            if FONT_OFFSET <= k < FONT_OFFSET + FONT_LEN {
                spec_font()[k - FONT_OFFSET]
            } else {
                0u8
            },
    )
}

/// What reading `len` bytes at `addr` returns: the bytes when the whole
/// range lies inside memory, the address error otherwise.
pub open spec fn spec_read(m: Seq<u8>, addr: usize, len: usize) -> Result<
    Seq<u8>,
    InterpreterError,
> {
    if addr + len <= MEMORY_SIZE {
        Ok(m.subrange(addr as int, addr + len))
    } else {
        Err(InterpreterError::InvalidAddressError(addr))
    }
}

/// What reading one byte at `addr` returns.
pub open spec fn spec_read_byte(m: Seq<u8>, addr: usize) -> Result<u8, InterpreterError> {
    if addr < MEMORY_SIZE {
        Ok(m[addr as int])
    } else {
        Err(InterpreterError::InvalidAddressError(addr))
    }
}

/// `m` with `data` laid over it starting at `addr`; bytes outside the
/// written range keep their old values.
pub open spec fn spec_overwrite(m: Seq<u8>, addr: int, data: Seq<u8>) -> Seq<u8> {
    Seq::new(
        m.len(),
        |k: int|
            if addr <= k < addr + data.len() {
                data[k - addr]
            } else {
                m[k]
            },
    )
}

/// Memory and result after writing `data` at `addr`: unchanged with the
/// address error when the range does not fit, overwritten otherwise.
pub open spec fn spec_write(m: Seq<u8>, addr: usize, data: Seq<u8>) -> (Seq<u8>, Result<
    (),
    InterpreterError,
>) {
    if addr + data.len() > MEMORY_SIZE {
        (m, Err(InterpreterError::InvalidAddressError(addr)))
    } else {
        (spec_overwrite(m, addr as int, data), Ok(()))
    }
}

/// Memory and result after writing one byte at `addr`.
pub open spec fn spec_write_byte(m: Seq<u8>, addr: usize, byte: u8) -> (Seq<u8>, Result<
    (),
    InterpreterError,
>) {
    if addr >= MEMORY_SIZE {
        (m, Err(InterpreterError::InvalidAddressError(addr)))
    } else {
        (m.update(addr as int, byte), Ok(()))
    }
}

/// The flat 4096-byte store.  Bytes `0x50..0xA0` hold the glyph table
/// after construction or reset; programs are loaded at `0x200`.
pub struct Memory {
    mem: Vec<u8>,
}

impl View for Memory {
    type V = Seq<u8>;

    closed spec fn view(&self) -> Seq<u8> {
        self.mem@
    }
}

impl Memory {
    /// The memory always spans exactly the 4096-byte address space.
    pub open spec fn wf(&self) -> bool {
        self@.len() == MEMORY_SIZE
    }

    /// Reads `len` bytes starting at `addr`.
    pub fn read(&self, addr: usize, len: usize) -> (r: Result<&[u8], InterpreterError>)
        requires
            self.wf(),
            addr + len <= usize::MAX,
        ensures
            match r {
                Ok(bytes) => spec_read(self@, addr, len) == Ok::<Seq<u8>, InterpreterError>(
                    bytes@,
                ),
                Err(e) => spec_read(self@, addr, len) == Err::<Seq<u8>, InterpreterError>(e),
            },
    {
        let end = addr + len;
        if end <= MEMORY_SIZE {
            Ok(vstd::slice::slice_subrange(self.mem.as_slice(), addr, end))
        } else {
            Err(InterpreterError::InvalidAddressError(addr))
        }
    }

    /// Reads the byte at `addr`.
    pub fn read_byte(&self, addr: usize) -> (r: Result<u8, InterpreterError>)
        requires
            self.wf(),
        ensures
            r == spec_read_byte(self@, addr),
    {
        if addr < MEMORY_SIZE {
            Ok(self.mem[addr])
        } else {
            Err(InterpreterError::InvalidAddressError(addr))
        }
    }

    /// Writes `data` starting at `addr`; out-of-range writes change nothing.
    pub fn write(&mut self, addr: usize, data: &[u8]) -> (r: Result<(), InterpreterError>)
        requires
            old(self).wf(),
            addr + data@.len() <= usize::MAX,
        ensures
            final(self).wf(),
            (final(self)@, r) == spec_write(old(self)@, addr, data@),
    {
        if addr + data.len() > MEMORY_SIZE {
            Err(InterpreterError::InvalidAddressError(addr))
        } else {
            let n = data.len();
            let mut idx: usize = 0;
            while idx < n
                invariant
                    self@.len() == MEMORY_SIZE,
                    n == data@.len(),
                    addr + n <= MEMORY_SIZE,
                    idx <= n,
                    forall|k: int|
                        0 <= k < MEMORY_SIZE ==> self@[k] == (if addr <= k < addr + idx {
                            data@[k - addr]
                        } else {
                            old(self)@[k]
                        }),
                decreases n - idx,
            {
                self.mem[addr + idx] = data[idx];
                idx += 1;
            }
            proof {
                assert(self@ =~= spec_overwrite(old(self)@, addr as int, data@));
            }
            Ok(())
        }
    }

    /// Writes one byte at `addr`; an out-of-range write changes nothing.
    pub fn write_byte(&mut self, addr: usize, byte: u8) -> (r: Result<(), InterpreterError>)
        requires
            old(self).wf(),
        ensures
            final(self).wf(),
            (final(self)@, r) == spec_write_byte(old(self)@, addr, byte),
    {
        if addr >= MEMORY_SIZE {
            Err(InterpreterError::InvalidAddressError(addr))
        } else {
            self.mem[addr] = byte;
            Ok(())
        }
    }

    /// Loads a program image verbatim at the program offset `0x200`.
    pub fn load_rom(&mut self, rom: &[u8]) -> (r: Result<(), InterpreterError>)
        requires
            old(self).wf(),
            ROM_OFFSET + rom@.len() <= usize::MAX,
        ensures
            final(self).wf(),
            (final(self)@, r) == spec_write(old(self)@, ROM_OFFSET, rom@),
    {
        self.write(ROM_OFFSET, rom)?;
        Ok(())
    }

    /// Re-zeroes the whole memory and re-seeds the glyph table.
    pub fn reset(&mut self)
        ensures
            final(self).wf(),
            final(self)@ == spec_fresh_memory(),
    {
        self.mem = vec![0u8; MEMORY_SIZE];
        self.load_font();
        proof {
            assert(self@ =~= spec_fresh_memory());
        }
    }

    /// Copies the glyph table into `FONT_OFFSET..FONT_OFFSET + FONT_LEN`.
    fn load_font(&mut self)
        requires
            old(self).wf(),
        ensures
            final(self).wf(),
            final(self)@ == spec_overwrite(old(self)@, FONT_OFFSET as int, spec_font()),
    {
        let font = chip8_font();
        let n = font.len();
        let mut idx: usize = 0;
        while idx < n
            invariant
                self@.len() == MEMORY_SIZE,
                n == spec_font().len(),
                font@ == spec_font(),
                idx <= n,
                forall|k: int|
                    0 <= k < MEMORY_SIZE ==> self@[k] == (if FONT_OFFSET <= k < FONT_OFFSET + idx {
                        spec_font()[k - FONT_OFFSET]
                    } else {
                        old(self)@[k]
                    }),
            decreases n - idx,
        {
            self.mem[FONT_OFFSET + idx] = font[idx];
            idx += 1;
        }
        proof {
            assert(self@ =~= spec_overwrite(old(self)@, FONT_OFFSET as int, spec_font()));
        }
    }
}

impl Default for Memory {
    /// A fresh memory: zeroed, with the glyph table seeded.
    fn default() -> (m: Memory)
        ensures
            m.wf(),
            m@ == spec_fresh_memory(),
    {
        let mut m = Memory { mem: vec![0u8; MEMORY_SIZE] };
        m.load_font();
        proof {
            assert(m@ =~= spec_fresh_memory());
        }
        m
    }
}

/// The glyph table as a byte vector, row by row.
fn chip8_font() -> (v: Vec<u8>)
    ensures
        v@ == spec_font(),
{
    let mut v: Vec<u8> = Vec::new();
    v.push(0xF0);
    v.push(0x90);
    v.push(0x90);
    v.push(0x90);
    v.push(0xF0);
    v.push(0x20);
    v.push(0x60);
    v.push(0x20);
    v.push(0x20);
    v.push(0x70);
    v.push(0xF0);
    v.push(0x10);
    v.push(0xF0);
    v.push(0x80);
    v.push(0xF0);
    v.push(0xF0);
    v.push(0x10);
    v.push(0xF0);
    v.push(0x10);
    v.push(0xF0);
    v.push(0x90);
    v.push(0x90);
    v.push(0xF0);
    v.push(0x10);
    v.push(0x10);
    v.push(0xF0);
    v.push(0x80);
    v.push(0xF0);
    v.push(0x10);
    v.push(0xF0);
    v.push(0xF0);
    v.push(0x80);
    v.push(0xF0);
    v.push(0x90);
    v.push(0xF0);
    v.push(0xF0);
    v.push(0x10);
    v.push(0x20);
    v.push(0x40);
    v.push(0x40);
    v.push(0xF0);
    v.push(0x90);
    v.push(0xF0);
    v.push(0x90);
    v.push(0xF0);
    v.push(0xF0);
    v.push(0x90);
    v.push(0xF0);
    v.push(0x10);
    v.push(0xF0);
    v.push(0xF0);
    v.push(0x90);
    v.push(0xF0);
    v.push(0x90);
    v.push(0x90);
    v.push(0xE0);
    v.push(0x90);
    v.push(0xE0);
    v.push(0x90);
    v.push(0xE0);
    v.push(0xF0);
    v.push(0x80);
    v.push(0x80);
    v.push(0x80);
    v.push(0xF0);
    v.push(0xE0);
    v.push(0x90);
    v.push(0x90);
    v.push(0x90);
    v.push(0xE0);
    v.push(0xF0);
    v.push(0x80);
    v.push(0xF0);
    v.push(0x80);
    v.push(0xF0);
    v.push(0xF0);
    v.push(0x80);
    v.push(0xF0);
    v.push(0x80);
    v.push(0x80);
    proof {
        assert(v@ =~= spec_font());
    }
    v
}

/// Writing a byte in range and reading it back yields exactly that byte;
/// bytes at every other address keep their old values.
pub proof fn lemma_write_read_byte(m: Seq<u8>, addr: usize, byte: u8)
    requires
        m.len() == MEMORY_SIZE,
        addr < MEMORY_SIZE,
    ensures
        spec_write_byte(m, addr, byte).1 == Ok::<(), InterpreterError>(()),
        spec_read_byte(spec_write_byte(m, addr, byte).0, addr) == Ok::<u8, InterpreterError>(byte),
        forall|other: usize|
            other < MEMORY_SIZE && other != addr ==> #[trigger] spec_read_byte(
                spec_write_byte(m, addr, byte).0,
                other,
            ) == spec_read_byte(m, other),
{
}

/// Every access at or beyond the end of memory fails with the address
/// error, and an out-of-range write leaves the memory unchanged.
pub proof fn lemma_out_of_range_access(m: Seq<u8>, addr: usize, byte: u8)
    requires
        addr >= MEMORY_SIZE,
    ensures
        spec_read_byte(m, addr) == Err::<u8, InterpreterError>(
            InterpreterError::InvalidAddressError(addr),
        ),
        spec_write_byte(m, addr, byte) == (m, Err::<(), InterpreterError>(
            InterpreterError::InvalidAddressError(addr),
        )),
{
}

/// Loading a program whose length `L` fits the remaining memory writes
/// its bytes unchanged into `[0x200, 0x200 + L)` and leaves every byte
/// outside that range as it was.
pub proof fn lemma_load_program(m: Seq<u8>, rom: Seq<u8>)
    requires
        m.len() == MEMORY_SIZE,
        ROM_OFFSET + rom.len() <= MEMORY_SIZE,
    ensures
        spec_write(m, ROM_OFFSET, rom).1 == Ok::<(), InterpreterError>(()),
        spec_write(m, ROM_OFFSET, rom).0.len() == MEMORY_SIZE,
        forall|k: int|
            0 <= k < rom.len() ==> spec_write(m, ROM_OFFSET, rom).0[ROM_OFFSET + k] == rom[k],
        forall|k: int|
            0 <= k < MEMORY_SIZE && !(ROM_OFFSET <= k < ROM_OFFSET + rom.len()) ==> spec_write(
                m,
                ROM_OFFSET,
                rom,
            ).0[k] == m[k],
{
}

} // verus!
