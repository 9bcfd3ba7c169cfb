use vstd::prelude::*;

verus! {

/// The IEEE-754 single-precision bit pattern of `1.0`.
pub const UNIT_BITS: u32 = 0x3f80_0000;

/// The IEEE-754 single-precision bit pattern of `0.0`.
pub const ZERO_BITS: u32 = 0;

/// How a stored subwoofer level is to be read. Levels were once stored as
/// whole percentages; every stored word up to `100` is still read that way,
/// any larger word is the bit pattern of the level itself.
#[derive(Clone, Copy, Debug, PartialEq, Eq, Structural)]
pub enum StoredLevel {
    /// A whole percentage, at most 100.
    Percent(u32),
    /// The single-precision bit pattern of the level.
    Bits(u32),
}

/// The reading of a stored level word.
pub open spec fn stored_level_spec(stored: u32) -> StoredLevel {
    if stored <= 100 {
        StoredLevel::Percent(stored)
    } else {
        StoredLevel::Bits(stored)
    }
}

/// Reads a stored level word: up to `100` it is a percentage, above it the
/// bit pattern of the level.
pub fn stored_level(stored: u32) -> (level: StoredLevel)
    ensures
        level == stored_level_spec(stored),
{
    if stored <= 100 {
        StoredLevel::Percent(stored)
    } else {
        StoredLevel::Bits(stored)
    }
}

} // verus!
