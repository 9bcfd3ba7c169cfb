use vstd::prelude::*;
use crate::text::str_eq;

verus! {

/// A processing mode of the Loom engine.
#[derive(Clone, Copy, Debug, PartialEq, Eq, Structural)]
pub enum Mode {
    Off,
    SpatialFilter,
    Surround3d,
    Ambience,
    Fidelity,
    Night,
    SpatialStereo,
    SpatialSurround,
}

/// The wire number of each mode.
pub open spec fn mode_number(mode: Mode) -> u8 {
    match mode {
        Mode::Off => 0,
        Mode::SpatialFilter => 1,
        Mode::Surround3d => 2,
        Mode::Ambience => 3,
        Mode::Fidelity => 4,
        Mode::Night => 5,
        Mode::SpatialStereo => 6,
        Mode::SpatialSurround => 7,
    }
}

/// The mode that a wire number decodes to: unknown numbers are `Off`.
pub open spec fn mode_of_number(value: u8) -> Mode {
    if value == 1 {
        Mode::SpatialFilter
    } else if value == 2 {
        Mode::Surround3d
    } else if value == 3 {
        Mode::Ambience
    } else if value == 4 {
        Mode::Fidelity
    } else if value == 5 {
        Mode::Night
    } else if value == 6 {
        Mode::SpatialStereo
    } else if value == 7 {
        Mode::SpatialSurround
    } else {
        Mode::Off
    }
}

/// The mode that a mode name spells, if it spells one.
pub open spec fn mode_of_name(name: Seq<char>) -> Option<Mode> {
    if name == "Off"@ {
        Some(Mode::Off)
    } else if name == "SpatialFilter"@ {
        Some(Mode::SpatialFilter)
    } else if name == "Surround3d"@ {
        Some(Mode::Surround3d)
    } else if name == "Ambience"@ {
        Some(Mode::Ambience)
    } else if name == "Fidelity"@ {
        Some(Mode::Fidelity)
    } else if name == "Night"@ {
        Some(Mode::Night)
    } else if name == "SpatialStereo"@ {
        Some(Mode::SpatialStereo)
    } else if name == "SpatialSurround"@ {
        Some(Mode::SpatialSurround)
    } else {
        None
    }
}

impl Mode {
    /// Decodes a wire number; every number outside `1..=7` is `Off`.
    pub fn from_u8(value: u8) -> (mode: Self)
        ensures
            mode == mode_of_number(value),
    {
        match value {
            1 => Mode::SpatialFilter,
            2 => Mode::Surround3d,
            3 => Mode::Ambience,
            4 => Mode::Fidelity,
            5 => Mode::Night,
            6 => Mode::SpatialStereo,
            7 => Mode::SpatialSurround,
            _ => Mode::Off,
        }
    }

    /// Reads a mode from its exact variant name (`"Off"`, `"SpatialFilter"`,
    /// `"Surround3d"`, ...); any other text gives `None`.
    pub fn from_str(s: &str) -> (mode: Option<Self>)
        ensures
            mode == mode_of_name(s@),
    {
        if str_eq(s, "Off") {
            Some(Mode::Off)
        } else if str_eq(s, "SpatialFilter") {
            Some(Mode::SpatialFilter)
        } else if str_eq(s, "Surround3d") {
            Some(Mode::Surround3d)
        } else if str_eq(s, "Ambience") {
            Some(Mode::Ambience)
        } else if str_eq(s, "Fidelity") {
            Some(Mode::Fidelity)
        } else if str_eq(s, "Night") {
            Some(Mode::Night)
        } else if str_eq(s, "SpatialStereo") {
            Some(Mode::SpatialStereo)
        } else if str_eq(s, "SpatialSurround") {
            Some(Mode::SpatialSurround)
        } else {
            None
        }
    }

    /// The wire number of the mode.
    pub fn to_u8(self) -> (value: u8)
        ensures
            value == mode_number(self),
    {
        match self {
            Mode::Off => 0,
            Mode::SpatialFilter => 1,
            Mode::Surround3d => 2,
            Mode::Ambience => 3,
            Mode::Fidelity => 4,
            Mode::Night => 5,
            Mode::SpatialStereo => 6,
            Mode::SpatialSurround => 7,
        }
    }
}

impl Default for Mode {
    /// The mode a fresh installation starts in.
    fn default() -> (mode: Self)
        ensures
            mode == Mode::Surround3d,
    {
        Mode::Surround3d
    }
}

/// Wire numbers round-trip: every mode decodes from its own number, and every
/// number up to 7 is the number of the mode it decodes to.
pub proof fn mode_numbers_round_trip(mode: Mode, value: u8)
    ensures
        mode_of_number(mode_number(mode)) == mode,
        value <= 7 ==> mode_number(mode_of_number(value)) == value,
{
}

/// Each mode is read from exactly one name: distinct names never give the
/// same mode.
pub proof fn mode_names_are_unambiguous(a: Seq<char>, b: Seq<char>)
    ensures
        mode_of_name(a) is Some && mode_of_name(a) == mode_of_name(b) ==> a == b,
{
}

} // verus!
