//! The 4096-byte address space, preloaded with the font table and filled
//! further by ROM loading and by store instructions.

use vstd::prelude::*;

verus! {

/// How many bytes the machine can address.
pub const MEMORY_SIZE: usize = 4096;

/// Where a loaded ROM image begins.
pub const ROM_START_ADDRESS: usize = 0x200;

/// Where the font table begins.
pub const FONTSET_START_ADDRESS: usize = 0x50;

/// The built-in font table: sixteen glyphs of five bytes each, one glyph
/// for each hexadecimal digit.
pub open spec fn font_sprites() -> Seq<u8> {
    seq![
        0xF0u8, 0x90, 0x90, 0x90, 0xF0, // 0
        0x20, 0x60, 0x20, 0x20, 0x70, // 1
        0xF0, 0x10, 0xF0, 0x80, 0xF0, // 2
        0xF0, 0x10, 0xF0, 0x10, 0xF0, // 3
        0x90, 0x90, 0xF0, 0x10, 0x10, // 4
        0xF0, 0x80, 0xF0, 0x10, 0xF0, // 5
        0xF0, 0x80, 0xF0, 0x90, 0xF0, // 6
        0xF0, 0x10, 0x20, 0x40, 0x40, // 7
        0xF0, 0x90, 0xF0, 0x90, 0xF0, // 8
        0xF0, 0x90, 0xF0, 0x10, 0xF0, // 9
        0xF0, 0x90, 0xF0, 0x90, 0x90, // A
        0xE0, 0x90, 0xE0, 0x90, 0xE0, // B
        0xF0, 0x80, 0x80, 0x80, 0xF0, // C
        0xE0, 0x90, 0x90, 0x90, 0xE0, // D
        0xF0, 0x80, 0xF0, 0x80, 0xF0, // E
        0xF0, 0x80, 0xF0, 0x80, 0x80, // F
    ]
}

/// Memory as built at machine initialization: all zero except the font
/// table, which sits at its fixed low offset.
pub open spec fn initial_memory() -> Seq<u8> {
    Seq::new(4096, |i: int| if 0x50 <= i < 0xA0 {
        font_sprites()[i - 0x50]
    } else {
        0u8
    })
}

/// `mem` with `rom` copied in starting at the ROM base address.
pub open spec fn loaded_rom(mem: Seq<u8>, rom: Seq<u8>) -> Seq<u8> {
    Seq::new(4096, |i: int| if 0x200 <= i < 0x200 + rom.len() {
        rom[i - 0x200]
    } else {
        mem[i]
    })
}

/// The big-endian 16-bit word stored at `addr` and `addr + 1`.
pub open spec fn word_at(mem: Seq<u8>, addr: u16) -> u16 {
    ((mem[addr as int] as u16) << 8) | (mem[addr as int + 1] as u16)
}

/// Rejection of a ROM image longer than the addressable space past the
/// ROM base address.
#[derive(Clone, Copy, Debug, PartialEq, Eq, Structural)]
pub struct RomTooLarge;

/// The address space, viewed as a sequence of 4096 bytes.
pub struct Memory {
    ram: [u8; 4096],
}

impl View for Memory {
    type V = Seq<u8>;

    closed spec fn view(&self) -> Seq<u8> {
        self.ram@
    }
}

impl Memory {
    /// Shape of a well-formed address space: 4096 bytes. It holds of every
    /// `Memory`; it is stated so that callers may rely on it.
    pub open spec fn wf(&self) -> bool {
        self@.len() == 4096
    }

    proof fn lemma_wf(&self)
        ensures
            self.wf(),
    {
    }

    /// Memory at machine initialization: zeroed, with the font table
    /// installed at its fixed offset.
    pub fn new() -> (r: Memory)
        ensures
            r.wf(),
            r@ == initial_memory(),
    {
        let mut ram = [0u8; 4096];
        let font: [u8; 80] = [
            0xF0, 0x90, 0x90, 0x90, 0xF0, // 0
            0x20, 0x60, 0x20, 0x20, 0x70, // 1
            0xF0, 0x10, 0xF0, 0x80, 0xF0, // 2
            0xF0, 0x10, 0xF0, 0x10, 0xF0, // 3
            0x90, 0x90, 0xF0, 0x10, 0x10, // 4
            0xF0, 0x80, 0xF0, 0x10, 0xF0, // 5
            0xF0, 0x80, 0xF0, 0x90, 0xF0, // 6
            0xF0, 0x10, 0x20, 0x40, 0x40, // 7
            0xF0, 0x90, 0xF0, 0x90, 0xF0, // 8
            0xF0, 0x90, 0xF0, 0x10, 0xF0, // 9
            0xF0, 0x90, 0xF0, 0x90, 0x90, // A
            0xE0, 0x90, 0xE0, 0x90, 0xE0, // B
            0xF0, 0x80, 0x80, 0x80, 0xF0, // C
            0xE0, 0x90, 0x90, 0x90, 0xE0, // D
            0xF0, 0x80, 0xF0, 0x80, 0xF0, // E
            0xF0, 0x80, 0xF0, 0x80, 0x80, // F
        ];
        proof {
            assert(font@ =~= font_sprites());
        }
        let mut i: usize = 0;
        while i < 80
            invariant
                i <= 80,
                font@ == font_sprites(),
                ram@.len() == 4096,
                forall|j: int| 0 <= j < i ==> ram@[0x50 + j] == font_sprites()[j],
                forall|j: int| 0 <= j < 4096 && !(0x50 <= j < 0x50 + i) ==> ram@[j] == 0u8,
            decreases 80 - i,
        {
            ram[FONTSET_START_ADDRESS + i] = font[i];
            i += 1;
        }
        let r = Memory { ram };
        proof {
            assert(r@ =~= initial_memory());
        }
        r
    }

    /// Copies a ROM image into memory starting at the ROM base address;
    /// reports `RomTooLarge` (and changes nothing) when the image would not
    /// fit in the space past that address.
    pub fn load_rom(&mut self, rom_data: &[u8]) -> (r: Result<(), RomTooLarge>)
        ensures
            final(self).wf(),
            r is Ok <==> rom_data@.len() <= 4096 - 0x200,
            r is Ok ==> final(self)@ == loaded_rom(old(self)@, rom_data@),
            r is Err ==> final(self)@ == old(self)@ && r == Err::<(), RomTooLarge>(RomTooLarge),
    {
        proof {
            self.lemma_wf();
        }
        let rom_len = rom_data.len();
        if rom_len > MEMORY_SIZE - ROM_START_ADDRESS {
            return Err(RomTooLarge);
        }
        let mut i: usize = 0;
        while i < rom_len
            invariant
                i <= rom_len,
                rom_len == rom_data@.len(),
                rom_len <= 4096 - 0x200,
                self@.len() == 4096,
                forall|j: int| 0 <= j < i ==> self@[0x200 + j] == rom_data@[j],
                forall|j: int| 0 <= j < 4096 && !(0x200 <= j < 0x200 + i) ==> self@[j] == old(self)@[j],
            decreases rom_len - i,
        {
            self.ram[ROM_START_ADDRESS + i] = rom_data[i];
            i += 1;
        }
        proof {
            assert(self@ =~= loaded_rom(old(self)@, rom_data@));
        }
        Ok(())
    }

    /// The byte stored at `address`.
    pub fn read_byte(&self, address: u16) -> (r: u8)
        requires
            address < 4096,
        ensures
            r == self@[address as int],
    {
        self.ram[address as usize]
    }

    /// The big-endian 16-bit word stored at `address` and `address + 1`;
    /// opcodes are stored most-significant-byte first.
    pub fn read_instruction(&self, address: u16) -> (r: u16)
        requires
            address + 1 < 4096,
        ensures
            r == word_at(self@, address),
    {
        let high_byte = self.ram[address as usize];
        let low_byte = self.ram[address as usize + 1];
        ((high_byte as u16) << 8) | (low_byte as u16)
    }

    /// Stores `value` at `address`.
    pub fn write_byte(&mut self, address: u16, value: u8)
        requires
            address < 4096,
        ensures
            final(self).wf(),
            final(self)@ == old(self)@.update(address as int, value),
    {
        self.ram[address as usize] = value;
    }
}

} // verus!
