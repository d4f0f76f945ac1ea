//! The memory store: a fixed 4096-byte array whose low region below the
//! program-start boundary is protected and holds the built-in font table.
use vstd::prelude::*;

use crate::errors::Chip8Error;

verus! {

/// Total memory capacity in bytes.
pub const RAM_SIZE: usize = 4096;

/// First writable address: everything below it is protected.
pub const RAM_START: u16 = 0x200;

/// Bytes occupied by the font table: 16 digits of 5 bytes each.
pub const FONT_SIZE: usize = 80;

/// The built-in bitmap table for the hexadecimal digits 0-F, each digit
/// occupying exactly 5 consecutive bytes.
pub open spec fn font_table() -> Seq<u8> {
    seq![
        0xF0u8, 0x90, 0x90, 0x90, 0xF0,
        0x20, 0x60, 0x20, 0x20, 0x70,
        0xF0, 0x10, 0xF0, 0x80, 0xF0,
        0xF0, 0x10, 0xF0, 0x10, 0xF0,
        0x90, 0x90, 0xF0, 0x10, 0x10,
        0xF0, 0x80, 0xF0, 0x10, 0xF0,
        0xF0, 0x80, 0xF0, 0x90, 0xF0,
        0xF0, 0x10, 0x20, 0x40, 0x40,
        0xF0, 0x90, 0xF0, 0x90, 0xF0,
        0xF0, 0x90, 0xF0, 0x10, 0xF0,
        0xF0, 0x90, 0xF0, 0x90, 0x90,
        0xE0, 0x90, 0xE0, 0x90, 0xE0,
        0xF0, 0x80, 0x80, 0x80, 0xF0,
        0xE0, 0x90, 0x90, 0x90, 0xE0,
        0xF0, 0x80, 0xF0, 0x80, 0xF0,
        0xF0, 0x80, 0xF0, 0x80, 0x80,
    ]
}

/// The font table as an executable vector.
fn font_bytes() -> (v: Vec<u8>)
    ensures
        v@ == font_table(),
{
    let v: Vec<u8> = vec![
        0xF0u8, 0x90, 0x90, 0x90, 0xF0,
        0x20, 0x60, 0x20, 0x20, 0x70,
        0xF0, 0x10, 0xF0, 0x80, 0xF0,
        0xF0, 0x10, 0xF0, 0x10, 0xF0,
        0x90, 0x90, 0xF0, 0x10, 0x10,
        0xF0, 0x80, 0xF0, 0x10, 0xF0,
        0xF0, 0x80, 0xF0, 0x90, 0xF0,
        0xF0, 0x10, 0x20, 0x40, 0x40,
        0xF0, 0x90, 0xF0, 0x90, 0xF0,
        0xF0, 0x90, 0xF0, 0x10, 0xF0,
        0xF0, 0x90, 0xF0, 0x90, 0x90,
        0xE0, 0x90, 0xE0, 0x90, 0xE0,
        0xF0, 0x80, 0x80, 0x80, 0xF0,
        0xE0, 0x90, 0x90, 0x90, 0xE0,
        0xF0, 0x80, 0xF0, 0x80, 0xF0,
        0xF0, 0x80, 0xF0, 0x80, 0x80,
    ];
    proof {
        assert(v@ =~= font_table());
    }
    v
}

/// The byte-addressable memory store.
pub struct Ram {
    /// The backing bytes; always exactly `RAM_SIZE` of them.
    pub data: Vec<u8>,
}

impl View for Ram {
    type V = Seq<u8>;

    open spec fn view(&self) -> Seq<u8> {
        self.data@
    }
}

impl Ram {
    /// The store is well formed when it holds exactly `RAM_SIZE` bytes.
    pub open spec fn wf(self) -> bool {
        self@.len() == RAM_SIZE
    }

    /// A fresh store: the font table at addresses 0..80 and zeroes
    /// everywhere else.
    pub fn new() -> (r: Ram)
        ensures
            r.wf(),
            forall|a: int| 0 <= a < FONT_SIZE ==> r@[a] == font_table()[a],
            forall|a: int| FONT_SIZE <= a < RAM_SIZE ==> r@[a] == 0u8,
    {
        let mut data = font_bytes();
        while data.len() < RAM_SIZE
            invariant
                FONT_SIZE <= data@.len() <= RAM_SIZE,
                forall|a: int| 0 <= a < FONT_SIZE ==> data@[a] == font_table()[a],
                forall|a: int| FONT_SIZE <= a < data@.len() ==> data@[a] == 0u8,
            decreases RAM_SIZE - data@.len(),
        {
            data.push(0);
        }
        Ram { data }
    }

    /// Loads a program image verbatim starting at the program-start
    /// boundary.  Fails, leaving memory untouched, exactly when the image
    /// exceeds the writable region's capacity.
    pub fn init_rom(&mut self, rom: &Vec<u8>) -> (r: Result<(), Chip8Error>)
        requires
            old(self).wf(),
        ensures
            final(self).wf(),
            match r {
                Ok(()) => {
                    &&& rom@.len() <= RAM_SIZE - RAM_START
                    &&& forall|j: int|
                        0 <= j < rom@.len() ==> final(self)@[RAM_START + j] == rom@[j]
                    &&& forall|a: int|
                        0 <= a < RAM_START ==> final(self)@[a] == old(self)@[a]
                    &&& forall|a: int|
                        RAM_START + rom@.len() <= a < RAM_SIZE ==> final(self)@[a] == old(self)@[a]
                },
                Err(e) => {
                    &&& e == Chip8Error::RomTooLarge
                    &&& rom@.len() > RAM_SIZE - RAM_START
                    &&& final(self)@ == old(self)@
                },
            },
    {
        if rom.len() > RAM_SIZE - RAM_START as usize {
            return Err(Chip8Error::RomTooLarge);
        }
        let mut j: usize = 0;
        while j < rom.len()
            invariant
                self.wf(),
                j <= rom@.len(),
                rom@.len() <= RAM_SIZE - RAM_START,
                forall|k: int| 0 <= k < j ==> self@[RAM_START + k] == rom@[k],
                forall|a: int| 0 <= a < RAM_START ==> self@[a] == old(self)@[a],
                forall|a: int|
                    RAM_START + j <= a < RAM_SIZE ==> self@[a] == old(self)@[a],
            decreases rom@.len() - j,
        {
            self.data[RAM_START as usize + j] = rom[j];
            j += 1;
        }
        Ok(())
    }

    /// Reads one byte.
    pub fn read(&self, addr: u16) -> (b: u8)
        requires
            self.wf(),
            addr < RAM_SIZE,
        ensures
            b == self@[addr as int],
    {
        self.data[addr as usize]
    }

    /// Writes one byte.  Fails, leaving memory untouched, exactly when the
    /// address lies in the protected low region or past the end of memory.
    pub fn write(&mut self, addr: u16, b: u8) -> (r: Result<(), Chip8Error>)
        requires
            old(self).wf(),
        ensures
            final(self).wf(),
            match r {
                Ok(()) => {
                    &&& RAM_START <= addr < RAM_SIZE
                    &&& final(self)@ == old(self)@.update(addr as int, b)
                },
                Err(e) => {
                    &&& final(self)@ == old(self)@
                    &&& e == if addr < RAM_START {
                        Chip8Error::ProtectedWrite
                    } else {
                        Chip8Error::AddressOutOfBounds
                    }
                    &&& (addr < RAM_START || addr >= RAM_SIZE)
                },
            },
    {
        if addr < RAM_START {
            Err(Chip8Error::ProtectedWrite)
        } else if addr >= RAM_SIZE as u16 {
            Err(Chip8Error::AddressOutOfBounds)
        } else {
            self.data[addr as usize] = b;
            Ok(())
        }
    }
}

} // verus!
