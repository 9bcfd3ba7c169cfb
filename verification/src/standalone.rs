use vstd::prelude::*;
use crate::loom::mode::{mode_number, mode_of_number, Mode};

verus! {

/// The settings shared between the standalone player window and its audio
/// thread: the volume as a single-precision bit pattern and the mode as its
/// wire number.
#[derive(Clone, Copy, Debug, PartialEq, Eq, Structural)]
pub struct AudioState {
    pub volume: u32,
    pub mode: u8,
}

impl AudioState {
    /// Settings at the given volume with processing off.
    pub fn new(initial_volume: u32) -> (state: Self)
        ensures
            state.volume == initial_volume,
            state.mode == mode_number(Mode::Off),
    {
        AudioState { volume: initial_volume, mode: Mode::Off.to_u8() }
    }

    /// The volume's bit pattern.
    pub fn volume(&self) -> (bits: u32)
        ensures
            bits == self.volume,
    {
        self.volume
    }

    /// Stores the volume's bit pattern.
    pub fn set_volume(&mut self, bits: u32)
        ensures
            *final(self) == (AudioState { volume: bits, ..*old(self) }),
    {
        self.volume = bits;
    }

    /// The current mode; a stored number that names no mode reads as `Off`.
    pub fn mode(&self) -> (mode: Mode)
        ensures
            mode == mode_of_number(self.mode),
    {
        Mode::from_u8(self.mode)
    }

    /// Selects a mode.
    pub fn set_mode(&mut self, mode: Mode)
        ensures
            *final(self) == (AudioState { mode: mode_number(mode), ..*old(self) }),
    {
        self.mode = mode.to_u8();
    }
}

} // verus!
