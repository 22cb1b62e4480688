//! A program image as it comes from a cartridge: raw bytes, instructions
//! big-endian, no header.
use vstd::prelude::*;

verus! {

/// A program image.
#[derive(Clone, Debug, PartialEq, Eq)]
pub struct Cartridge {
    pub rom: Vec<u8>,
}

impl Cartridge {
    /// Wraps the bytes of a program image.
    pub fn new(rom: Vec<u8>) -> (c: Self)
        ensures
            c.rom == rom,
    {
        Cartridge { rom }
    }
}

} // verus!
