use vstd::prelude::*;

verus! {

/// A processing mode of the Śaq engine.
#[derive(Clone, Copy, Debug, PartialEq, Eq, Structural)]
pub enum Mode {
    Off,
    SpatialFilter,
    SurroundSound,
    Room,
    Clarity,
    Night,
    SpatialStereo,
    SpatialSurround,
}

/// The wire number of each mode.
pub open spec fn mode_number(mode: Mode) -> u8 {
    match mode {
        Mode::Off => 0,
        Mode::SpatialFilter => 1,
        Mode::SurroundSound => 2,
        Mode::Room => 3,
        Mode::Clarity => 4,
        Mode::Night => 5,
        Mode::SpatialStereo => 6,
        Mode::SpatialSurround => 7,
    }
}

/// The mode that a wire number decodes to: unknown numbers are `Off`.
pub open spec fn mode_of_number(value: u8) -> Mode {
    if value == 1 {
        Mode::SpatialFilter
    } else if value == 2 {
        Mode::SurroundSound
    } else if value == 3 {
        Mode::Room
    } else if value == 4 {
        Mode::Clarity
    } else if value == 5 {
        Mode::Night
    } else if value == 6 {
        Mode::SpatialStereo
    } else if value == 7 {
        Mode::SpatialSurround
    } else {
        Mode::Off
    }
}

/// The name under which a mode is shown to users.
pub open spec fn mode_display_name(mode: Mode) -> Seq<char> {
    match mode {
        Mode::Off => "off"@,
        Mode::SpatialFilter => "spatial-filter"@,
        Mode::SurroundSound => "surround-3d"@,
        Mode::Room => "room"@,
        Mode::Clarity => "clarity"@,
        Mode::Night => "night"@,
        Mode::SpatialStereo => "spatial-stereo"@,
        Mode::SpatialSurround => "spatial-surround"@,
    }
}

impl Mode {
    /// Decodes a wire number; every number outside `1..=7` is `Off`.
    pub fn from_u8(value: u8) -> (mode: Self)
        ensures
            mode == mode_of_number(value),
    {
        match value {
            1 => Mode::SpatialFilter,
            2 => Mode::SurroundSound,
            3 => Mode::Room,
            4 => Mode::Clarity,
            5 => Mode::Night,
            6 => Mode::SpatialStereo,
            7 => Mode::SpatialSurround,
            _ => Mode::Off,
        }
    }

    /// The wire number of the mode.
    pub fn to_u8(self) -> (value: u8)
        ensures
            value == mode_number(self),
    {
        match self {
            Mode::Off => 0,
            Mode::SpatialFilter => 1,
            Mode::SurroundSound => 2,
            Mode::Room => 3,
            Mode::Clarity => 4,
            Mode::Night => 5,
            Mode::SpatialStereo => 6,
            Mode::SpatialSurround => 7,
        }
    }

    /// The name under which the mode is shown to users (`"surround-3d"`
    /// for `SurroundSound`, the kebab-case variant name otherwise).
    pub fn display_name(self) -> (name: &'static str)
        ensures
            name@ == mode_display_name(self),
    {
        match self {
            Mode::Off => "off",
            Mode::SpatialFilter => "spatial-filter",
            Mode::SurroundSound => "surround-3d",
            Mode::Room => "room",
            Mode::Clarity => "clarity",
            Mode::Night => "night",
            Mode::SpatialStereo => "spatial-stereo",
            Mode::SpatialSurround => "spatial-surround",
        }
    }
}

impl Default for Mode {
    /// The mode a fresh daemon starts in.
    fn default() -> (mode: Self)
        ensures
            mode == Mode::SurroundSound,
    {
        Mode::SurroundSound
    }
}

/// Wire numbers round-trip: every mode decodes from its own number, and every
/// number up to 7 is the number of the mode it decodes to.
pub proof fn mode_numbers_round_trip(mode: Mode, value: u8)
    ensures
        mode_of_number(mode_number(mode)) == mode,
        value <= 7 ==> mode_number(mode_of_number(value)) == value,
{
}

} // verus!
