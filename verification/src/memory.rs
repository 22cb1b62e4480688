//! The 4 KiB address space.
//!
//! The first 512 bytes are reserved: they hold the built-in hexadecimal
//! glyphs (sixteen sprites of five bytes each, from address 0) and can never
//! be written. Programs are loaded at address 0x200 and own everything from
//! there to the end.
use crate::fault::Fault;
use vstd::prelude::*;

verus! {

/// Number of addressable bytes.
pub const MEMORY_SIZE: usize = 0x1000;

/// Size of the reserved region; also the address at which programs start.
pub const RESERVED_MEMORY_SIZE: usize = 0x200;

/// Size of the writable region.
pub const RAM_SIZE: usize = 0xE00;

/// Number of bytes taken by the built-in glyphs.
pub const GLYPH_TABLE_SIZE: usize = 80;

/// The built-in glyphs, five bytes per hexadecimal digit, digit 0 first.
pub open spec fn glyph_table() -> Seq<u8> {
    seq![
        0xF0u8, 0x90u8, 0x90u8, 0x90u8, 0xF0u8,
        0x20u8, 0x60u8, 0x20u8, 0x20u8, 0x70u8,
        0xF0u8, 0x10u8, 0xF0u8, 0x80u8, 0xF0u8,
        0xF0u8, 0x10u8, 0xF0u8, 0x10u8, 0xF0u8,
        0x90u8, 0x90u8, 0xF0u8, 0x10u8, 0x10u8,
        0xF0u8, 0x80u8, 0xF0u8, 0x10u8, 0xF0u8,
        0xF0u8, 0x80u8, 0xF0u8, 0x90u8, 0xF0u8,
        0xF0u8, 0x10u8, 0x20u8, 0x40u8, 0x40u8,
        0xF0u8, 0x90u8, 0xF0u8, 0x90u8, 0xF0u8,
        0xF0u8, 0x90u8, 0xF0u8, 0x10u8, 0xF0u8,
        0xF0u8, 0x90u8, 0xF0u8, 0x90u8, 0x90u8,
        0xE0u8, 0x90u8, 0xE0u8, 0x90u8, 0xE0u8,
        0xF0u8, 0x80u8, 0x80u8, 0x80u8, 0xF0u8,
        0xE0u8, 0x90u8, 0x90u8, 0x90u8, 0xE0u8,
        0xF0u8, 0x80u8, 0xF0u8, 0x80u8, 0xF0u8,
        0xF0u8, 0x80u8, 0xF0u8, 0x80u8, 0x80u8,
    ]
}

/// Number of bytes of one glyph.
pub const GLYPH_SIZE: usize = 5;

/// The glyph of the hexadecimal digit `digit`: its five rows, top first.
pub open spec fn glyph(digit: int) -> Seq<u8> {
    glyph_table().subrange(GLYPH_SIZE * digit, GLYPH_SIZE * digit + GLYPH_SIZE)
}

/// Contents of the reserved region: the glyphs, then zeros.
pub open spec fn reserved_image() -> Seq<u8> {
    Seq::new(
        RESERVED_MEMORY_SIZE as nat,
        |a: int| if a < GLYPH_TABLE_SIZE { glyph_table()[a] } else { 0u8 },
    )
}

/// Contents of the whole memory at power-on: the reserved region followed by
/// a zeroed writable region.
pub open spec fn power_on_image() -> Seq<u8> {
    Seq::new(
        MEMORY_SIZE as nat,
        |a: int| if a < RESERVED_MEMORY_SIZE { reserved_image()[a] } else { 0u8 },
    )
}

/// What reading `address` from the contents `mem` gives.
pub open spec fn read_at(mem: Seq<u8>, address: u16) -> Result<u8, Fault> {
    if address < MEMORY_SIZE {
        Ok(mem[address as int])
    } else {
        Err(Fault::OutOfBounds)
    }
}

/// What writing `value` to `address` makes of the contents `mem`.
pub open spec fn write_at(mem: Seq<u8>, address: u16, value: u8) -> Result<Seq<u8>, Fault> {
    if address < RESERVED_MEMORY_SIZE {
        Err(Fault::ProtectedRegionFault)
    } else if address >= MEMORY_SIZE {
        Err(Fault::OutOfBounds)
    } else {
        Ok(mem.update(address as int, value))
    }
}

/// What loading the program `image` makes of the contents `mem`.
pub open spec fn load_at(mem: Seq<u8>, image: Seq<u8>) -> Result<Seq<u8>, Fault> {
    if image.len() > RAM_SIZE {
        Err(Fault::ImageTooLarge)
    } else {
        Ok(
            Seq::new(
                MEMORY_SIZE as nat,
                |a: int|
                    if RESERVED_MEMORY_SIZE <= a < RESERVED_MEMORY_SIZE + image.len() {
                        image[a - RESERVED_MEMORY_SIZE]
                    } else {
                        mem[a]
                    },
            ),
        )
    }
}

/// The ASCII code of the upper-case hexadecimal digit for `nibble`.
pub open spec fn hex_digit(nibble: u8) -> u8 {
    if nibble < 10 {
        (0x30 + nibble) as u8
    } else {
        (0x41 + (nibble - 10)) as u8
    }
}

/// One byte of a dump: two hexadecimal digits and a space, after a line
/// break where the address is a multiple of sixteen.
pub open spec fn dump_cell(address: int, byte: u8) -> Seq<u8> {
    let cell = seq![hex_digit(byte / 16), hex_digit(byte % 16), 0x20u8];
    if address % 16 == 0 {
        seq![0x0Au8] + cell
    } else {
        cell
    }
}

/// The cells of the addresses from `start` up to, not including, `end`.
pub open spec fn dump_cells(mem: Seq<u8>, start: int, end: int) -> Seq<u8>
    decreases end - start,
{
    if start >= end {
        Seq::empty()
    } else {
        dump_cells(mem, start, end - 1) + dump_cell(end - 1, mem[end - 1])
    }
}

/// The dump of the addresses `start..=end` as ASCII text, or `OutOfBounds`
/// where the range is not empty and reaches past the end of memory.
pub open spec fn dump_at(mem: Seq<u8>, start: u16, end: u16) -> Result<Seq<u8>, Fault> {
    if start <= end && end >= MEMORY_SIZE {
        Err(Fault::OutOfBounds)
    } else {
        Ok(dump_cells(mem, start as int, end + 1) + seq![0x0Au8])
    }
}

/// What a reset makes of the contents `mem`: the power-on image, whatever
/// was there.
pub open spec fn reset_of(mem: Seq<u8>) -> Seq<u8> {
    power_on_image()
}

/// A byte written to the writable region is the byte read back from the
/// same address.
pub proof fn lemma_write_then_read(mem: Seq<u8>, address: u16, value: u8)
    requires
        mem.len() == MEMORY_SIZE,
        RESERVED_MEMORY_SIZE <= address < MEMORY_SIZE,
    ensures
        write_at(mem, address, value) matches Ok(written) && read_at(written, address) == Ok::<
            u8,
            Fault,
        >(value),
{
}

/// A write leaves every other address as it was.
pub proof fn lemma_write_is_local(mem: Seq<u8>, address: u16, value: u8, other: u16)
    requires
        mem.len() == MEMORY_SIZE,
        other != address,
    ensures
        write_at(mem, address, value) matches Ok(written) ==> read_at(written, other) == read_at(
            mem,
            other,
        ),
{
}

/// Every write into the reserved region fails with `ProtectedRegionFault`.
pub proof fn lemma_write_to_reserved_fails(mem: Seq<u8>, address: u16, value: u8)
    requires
        address < RESERVED_MEMORY_SIZE,
    ensures
        write_at(mem, address, value) == Err::<Seq<u8>, Fault>(Fault::ProtectedRegionFault),
{
}

/// Every digit has a glyph of its own, and every glyph lies in the left
/// half of its rows.
pub proof fn lemma_glyphs_are_distinct()
    ensures
        glyph_table().len() == GLYPH_TABLE_SIZE,
        forall|d1: int, d2: int| 0 <= d1 < d2 < 16 ==> glyph(d1) != glyph(d2),
        forall|k: int| 0 <= k < GLYPH_TABLE_SIZE ==> glyph_table()[k] % 16 == 0,
{
    assert forall|d1: int, d2: int| 0 <= d1 < d2 < 16 implies glyph(d1) != glyph(d2) by {
        if glyph(d1) == glyph(d2) {
            assert(glyph(d1)[0] == glyph(d2)[0]);
            assert(glyph(d1)[1] == glyph(d2)[1]);
            assert(glyph(d1)[2] == glyph(d2)[2]);
            assert(glyph(d1)[3] == glyph(d2)[3]);
            assert(glyph(d1)[4] == glyph(d2)[4]);
        }
    }
}

/// The power-on image holds the glyph of the digit `digit` from the
/// address `5 * digit` on.
pub proof fn lemma_power_on_image_holds_glyph(digit: int)
    requires
        0 <= digit < 16,
    ensures
        power_on_image().subrange(GLYPH_SIZE * digit, GLYPH_SIZE * digit + GLYPH_SIZE) == glyph(
            digit,
        ),
{
    assert(power_on_image().subrange(GLYPH_SIZE * digit, GLYPH_SIZE * digit + GLYPH_SIZE)
        =~= glyph(digit));
}

/// The power-on image holds the glyphs at the addresses 0 to 79 and zeros
/// from there to the end of memory.
pub proof fn lemma_power_on_image()
    ensures
        power_on_image().len() == MEMORY_SIZE,
        forall|a: int| 0 <= a < GLYPH_TABLE_SIZE ==> power_on_image()[a] == glyph_table()[a],
        forall|a: int| GLYPH_TABLE_SIZE <= a < MEMORY_SIZE ==> power_on_image()[a] == 0,
        power_on_image().subrange(0, RESERVED_MEMORY_SIZE as int) == reserved_image(),
{
    assert(power_on_image().subrange(0, RESERVED_MEMORY_SIZE as int) =~= reserved_image());
}

/// Whatever the memory held, a reset puts the glyphs back at the addresses
/// 0 to 79 and zeros the writable region, and a second reset changes
/// nothing.
pub proof fn lemma_reset_is_idempotent(mem: Seq<u8>)
    ensures
        forall|a: int| 0 <= a < GLYPH_TABLE_SIZE ==> reset_of(mem)[a] == glyph_table()[a],
        forall|a: int| RESERVED_MEMORY_SIZE <= a < MEMORY_SIZE ==> reset_of(mem)[a] == 0,
        reset_of(reset_of(mem)) == reset_of(mem),
{
}

/// Loading an image that fits puts its bytes at the start of the writable
/// region and leaves the reserved region alone.
pub proof fn lemma_load_places_image(mem: Seq<u8>, image: Seq<u8>)
    requires
        mem.len() == MEMORY_SIZE,
        image.len() <= RAM_SIZE,
    ensures
        load_at(mem, image) matches Ok(loaded) && {
            &&& loaded.len() == MEMORY_SIZE
            &&& loaded.subrange(0, RESERVED_MEMORY_SIZE as int) == mem.subrange(
                0,
                RESERVED_MEMORY_SIZE as int,
            )
            &&& loaded.subrange(
                RESERVED_MEMORY_SIZE as int,
                RESERVED_MEMORY_SIZE + image.len(),
            ) == image
        },
{
    let loaded = load_at(mem, image)->Ok_0;
    assert(loaded.subrange(0, RESERVED_MEMORY_SIZE as int) =~= mem.subrange(
        0,
        RESERVED_MEMORY_SIZE as int,
    ));
    assert(loaded.subrange(RESERVED_MEMORY_SIZE as int, RESERVED_MEMORY_SIZE + image.len())
        =~= image);
}

/// The ASCII code of the upper-case hexadecimal digit for `nibble`.
fn hex_digit_of(nibble: u8) -> (digit: u8)
    requires
        nibble < 16,
    ensures
        digit == hex_digit(nibble),
{
    if nibble < 10 {
        0x30 + nibble
    } else {
        0x41 + (nibble - 10)
    }
}

/// The reserved region as it is built at power-on.
#[derive(Clone, Debug, PartialEq, Eq)]
pub struct ROM {
    pub rom: [u8; RESERVED_MEMORY_SIZE],
}

/// The writable region as it is built at power-on.
#[derive(Clone, Debug, PartialEq, Eq)]
pub struct RAM {
    pub ram: [u8; RAM_SIZE],
}

/// The machine's memory.
#[derive(Clone, Debug, PartialEq, Eq)]
pub struct Memory {
    memory: [u8; MEMORY_SIZE],
}

impl ROM {
    /// Builds the reserved region: glyphs from address 0, zeros after them.
    pub fn new() -> (r: Self)
        ensures
            r.rom@ == reserved_image(),
    {
        let mut rom = [0u8; RESERVED_MEMORY_SIZE];
        let fonts: [u8; GLYPH_TABLE_SIZE] = [
            0xF0, 0x90, 0x90, 0x90, 0xF0,
            0x20, 0x60, 0x20, 0x20, 0x70,
            0xF0, 0x10, 0xF0, 0x80, 0xF0,
            0xF0, 0x10, 0xF0, 0x10, 0xF0,
            0x90, 0x90, 0xF0, 0x10, 0x10,
            0xF0, 0x80, 0xF0, 0x10, 0xF0,
            0xF0, 0x80, 0xF0, 0x90, 0xF0,
            0xF0, 0x10, 0x20, 0x40, 0x40,
            0xF0, 0x90, 0xF0, 0x90, 0xF0,
            0xF0, 0x90, 0xF0, 0x10, 0xF0,
            0xF0, 0x90, 0xF0, 0x90, 0x90,
            0xE0, 0x90, 0xE0, 0x90, 0xE0,
            0xF0, 0x80, 0x80, 0x80, 0xF0,
            0xE0, 0x90, 0x90, 0x90, 0xE0,
            0xF0, 0x80, 0xF0, 0x80, 0xF0,
            0xF0, 0x80, 0xF0, 0x80, 0x80,
        ];
        assert(fonts@ == glyph_table());
        let mut a: usize = 0;
        while a < GLYPH_TABLE_SIZE
            invariant
                a <= GLYPH_TABLE_SIZE,
                fonts@ == glyph_table(),
                forall|j: int| 0 <= j < a ==> rom@[j] == glyph_table()[j],
                forall|j: int| a <= j < RESERVED_MEMORY_SIZE ==> rom@[j] == 0,
            decreases GLYPH_TABLE_SIZE - a,
        {
            rom[a] = fonts[a];
            a += 1;
        }
        Self { rom }
    }
}

impl RAM {
    /// Builds the writable region, all zeros.
    pub fn new() -> (r: Self)
        ensures
            r.ram@ == Seq::new(RAM_SIZE as nat, |a: int| 0u8),
    {
        Self { ram: [0u8; RAM_SIZE] }
    }
}

impl View for Memory {
    type V = Seq<u8>;

    /// The contents, one byte per address.
    open spec fn view(&self) -> Seq<u8> {
        Seq::new(MEMORY_SIZE as nat, |address: int| self.byte_at(address))
    }
}

impl Memory {
    /// The reserved region holds the glyphs and nothing else.
    ///
    /// This holds of every memory that was built by `new`: no operation
    /// breaks it.
    pub open spec fn wf(&self) -> bool {
        self@.subrange(0, RESERVED_MEMORY_SIZE as int) == reserved_image()
    }

    /// The byte at `address`.
    pub closed spec fn byte_at(&self, address: int) -> u8 {
        self.memory@[address]
    }

    /// The memory at power-on.
    pub closed spec fn power_on() -> Memory {
        choose|m: Memory| m@ == power_on_image()
    }

    /// A memory is what its view says: two with equal contents are equal.
    pub proof fn lemma_view_decides(&self, other: &Memory)
        requires
            self@ == other@,
        ensures
            *self == *other,
    {
        assert forall|a: int| 0 <= a < MEMORY_SIZE implies self.memory[a] == other.memory[a] by {
            assert(self@[a] == self.byte_at(a));
            assert(other@[a] == other.byte_at(a));
        }
        assert(self.memory =~= other.memory);
    }

    /// Builds a memory in its power-on state.
    pub fn new() -> (m: Self)
        ensures
            m == Memory::power_on(),
            m@ == power_on_image(),
            m.wf(),
    {
        let mut memory = [0u8; MEMORY_SIZE];
        let rom = ROM::new().rom;
        let ram = RAM::new().ram;
        let mut a: usize = 0;
        while a < RESERVED_MEMORY_SIZE
            invariant
                a <= RESERVED_MEMORY_SIZE,
                rom@ == reserved_image(),
                forall|j: int| 0 <= j < a ==> memory@[j] == reserved_image()[j],
                forall|j: int| a <= j < MEMORY_SIZE ==> memory@[j] == 0,
            decreases RESERVED_MEMORY_SIZE - a,
        {
            memory[a] = rom[a];
            a += 1;
        }
        let mut b: usize = 0;
        while b < RAM_SIZE
            invariant
                b <= RAM_SIZE,
                ram@ == Seq::new(RAM_SIZE as nat, |a: int| 0u8),
                forall|j: int| 0 <= j < RESERVED_MEMORY_SIZE ==> memory@[j] == reserved_image()[j],
                forall|j: int| RESERVED_MEMORY_SIZE <= j < MEMORY_SIZE ==> memory@[j] == 0,
            decreases RAM_SIZE - b,
        {
            memory[b + RESERVED_MEMORY_SIZE] = ram[b];
            b += 1;
        }
        let m = Self { memory };
        assert(m@.subrange(0, RESERVED_MEMORY_SIZE as int) =~= reserved_image());
        proof {
            assert(m@ =~= power_on_image());
            m.lemma_view_decides(&Memory::power_on());
        }
        m
    }

    /// Reads the byte at `address`.
    ///
    /// Fails with `OutOfBounds` exactly when `address` is not below the
    /// capacity.
    pub fn read(&self, address: u16) -> (r: Result<u8, Fault>)
        ensures
            r == read_at(self@, address),
    {
        if (address as usize) < MEMORY_SIZE {
            Ok(self.memory[address as usize])
        } else {
            Err(Fault::OutOfBounds)
        }
    }

    /// Stores `value` at `address`.
    ///
    /// Fails with `ProtectedRegionFault` exactly when `address` lies in the
    /// reserved region and with `OutOfBounds` exactly when it is not below the
    /// capacity; a failed write changes nothing.
    pub fn write(&mut self, address: u16, value: u8) -> (r: Result<(), Fault>)
        ensures
            final(self).wf() == old(self).wf(),
            match write_at(old(self)@, address, value) {
                Ok(mem) => r is Ok && final(self)@ == mem,
                Err(fault) => r == Err::<(), Fault>(fault) && *final(self) == *old(self),
            },
    {
        if (address as usize) < RESERVED_MEMORY_SIZE {
            return Err(Fault::ProtectedRegionFault);
        }
        if (address as usize) >= MEMORY_SIZE {
            return Err(Fault::OutOfBounds);
        }
        self.memory[address as usize] = value;
        assert(self@.subrange(0, RESERVED_MEMORY_SIZE as int) =~= old(self)@.subrange(
            0,
            RESERVED_MEMORY_SIZE as int,
        ));
        Ok(())
    }

    /// Copies a program image into memory, its first byte to the start of
    /// the writable region.
    ///
    /// Fails with `ImageTooLarge`, changing nothing, exactly when the image
    /// is longer than the writable region. Bytes beyond the image keep
    /// their values.
    pub fn load_rom(&mut self, rom: Vec<u8>) -> (r: Result<(), Fault>)
        ensures
            final(self).wf() == old(self).wf(),
            match load_at(old(self)@, rom@) {
                Ok(mem) => r is Ok && final(self)@ == mem,
                Err(fault) => r == Err::<(), Fault>(fault) && *final(self) == *old(self),
            },
    {
        if rom.len() > RAM_SIZE {
            return Err(Fault::ImageTooLarge);
        }
        let mut k: usize = 0;
        while k < rom.len()
            invariant
                k <= rom@.len() <= RAM_SIZE,
                forall|a: int|
                    0 <= a < MEMORY_SIZE ==> self@[a] == if RESERVED_MEMORY_SIZE <= a
                        < RESERVED_MEMORY_SIZE + k {
                        rom@[a - RESERVED_MEMORY_SIZE]
                    } else {
                        old(self)@[a]
                    },
            decreases rom@.len() - k,
        {
            let ghost before = self@;
            self.memory[k + RESERVED_MEMORY_SIZE] = rom[k];
            assert(self@ == before.update(k + RESERVED_MEMORY_SIZE, rom@[k as int]));
            k += 1;
        }
        assert(self@ =~= load_at(old(self)@, rom@)->Ok_0);
        assert(self@.subrange(0, RESERVED_MEMORY_SIZE as int) =~= old(self)@.subrange(
            0,
            RESERVED_MEMORY_SIZE as int,
        ));
        Ok(())
    }

    /// Renders the bytes at the addresses `start..=end` as text, sixteen to
    /// a line: each byte as two upper-case hexadecimal digits and a space,
    /// a line break before every address that is a multiple of sixteen, and
    /// one at the end. The text is ASCII, one `u8` per character.
    ///
    /// Fails with `OutOfBounds` exactly when the range is not empty and
    /// reaches past the end of memory.
    pub fn dump(&self, start: u16, end: u16) -> (r: Result<Vec<u8>, Fault>)
        ensures
            match dump_at(self@, start, end) {
                Ok(text) => r matches Ok(rendered) && rendered@ == text,
                Err(fault) => r matches Err(f) && f == fault,
            },
    {
        if start <= end && end as usize >= MEMORY_SIZE {
            return Err(Fault::OutOfBounds);
        }
        let mut text: Vec<u8> = Vec::new();
        let mut address: usize = start as usize;
        while address <= end as usize
            invariant
                start <= address,
                address <= end + 1 || (start > end && address == start),
                end < MEMORY_SIZE || start > end,
                text@ == dump_cells(self@, start as int, address as int),
            decreases end + 1 - address,
        {
            let byte = self.memory[address];
            if address % 16 == 0 {
                text.push(0x0A);
            }
            text.push(hex_digit_of(byte / 16));
            text.push(hex_digit_of(byte % 16));
            text.push(0x20);
            address += 1;
            assert(text@ =~= dump_cells(self@, start as int, address - 1) + dump_cell(
                address - 1,
                self@[address - 1],
            ));
        }
        text.push(0x0A);
        assert(dump_cells(self@, start as int, address as int) == dump_cells(
            self@,
            start as int,
            end + 1,
        ));
        Ok(text)
    }

    /// The first address past the reserved region.
    pub fn get_reserved_end(&self) -> (end: u16)
        ensures
            end == RESERVED_MEMORY_SIZE,
    {
        RESERVED_MEMORY_SIZE as u16
    }

    /// Puts the memory back into its power-on state.
    pub fn reset(&mut self)
        ensures
            *final(self) == Memory::power_on(),
            final(self)@ == reset_of(old(self)@),
            final(self).wf(),
    {
        *self = Memory::new();
    }
}

} // verus!
