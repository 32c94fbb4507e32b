use vstd::prelude::*;
use crate::semantics::ROM_CAPACITY;

verus! {

/// Why a program image cannot be loaded.
#[derive(Clone, Copy, Debug, PartialEq, Eq, Structural)]
pub enum LoadError {
    /// The image has `size` bytes, more than fit above the program start.
    TooLarge { size: usize },
}

/// The image padded with zero bytes to the full program area.
pub open spec fn padded_image(bytes: Seq<u8>) -> Seq<u8> {
    Seq::new(ROM_CAPACITY as nat, |i: int| if i < bytes.len() { bytes[i] } else { 0u8 })
}

/// Checks a raw program image against the capacity of the program area and
/// lays it out there, padded with zeros; oversized images are refused.
pub fn rom_image(bytes: &[u8]) -> (r: Result<[u8; 0xE00], LoadError>)
    ensures
        bytes@.len() <= ROM_CAPACITY ==> r is Ok && r->Ok_0@ == padded_image(bytes@),
        bytes@.len() > ROM_CAPACITY ==> r == Err::<[u8; 0xE00], LoadError>(
            LoadError::TooLarge { size: bytes@.len() as usize },
        ),
{
    if bytes.len() > ROM_CAPACITY {
        return Err(LoadError::TooLarge { size: bytes.len() });
    }
    let mut f_rom: [u8; 0xE00] = [0u8; 0xE00];
    let mut i: usize = 0;
    while i < bytes.len()
        invariant
            i <= bytes@.len() <= ROM_CAPACITY,
            forall|j: int| 0 <= j < i ==> f_rom@[j] == bytes@[j],
            forall|j: int| i <= j < ROM_CAPACITY ==> f_rom@[j] == 0u8,
        decreases bytes@.len() - i,
    {
        f_rom[i] = bytes[i];
        i = i + 1;
    }
    assert(f_rom@ =~= padded_image(bytes@));
    Ok(f_rom)
}

} // verus!
