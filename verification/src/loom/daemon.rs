use vstd::prelude::*;
use crate::single::{bits_clamp, bits_is_finite, clamped, is_finite, MINUS_TWELVE, ONE, TWELVE, ZERO};
use crate::level::{stored_level, stored_level_spec, StoredLevel, UNIT_BITS, ZERO_BITS};
use crate::loom::mode::{mode_number, mode_of_number, Mode};
use vstd::string::StringExecFns;

verus! {

/// A request a client sends to the Loom daemon. Single-precision values
/// travel as their bit patterns.
#[derive(Clone, Copy, Debug, PartialEq, Eq, Structural)]
pub enum Request {
    GetState,
    SetVolume(u32),
    SetMode(u8),
    SetPitchEnabled(bool),
    SetPitch(u32),
    SetSubwoofer(u32),
}

/// A snapshot of the daemon's settings as clients see them.
#[derive(Clone, Copy, Debug, PartialEq, Eq, Structural)]
pub struct Snapshot {
    pub volume: u32,
    pub mode: u8,
    pub pitch_enabled: bool,
    pub pitch: u32,
    pub subwoofer: StoredLevel,
}

/// The daemon's answer to a request.
#[derive(Clone, Debug)]
pub enum Response {
    State(Snapshot),
    /// The request was applied.
    Applied,
    Error(String),
}

/// A notification broadcast to every client after a change.
#[derive(Clone, Copy, Debug, PartialEq, Eq, Structural)]
pub enum Event {
    StateUpdated(Snapshot),
}

/// The settings of the Loom daemon. Single-precision settings are held as
/// their bit patterns; the mode is held as its wire number.
#[derive(Clone, Copy, Debug, PartialEq, Eq, Structural)]
pub struct AudioState {
    pub volume: u32,
    pub mode: u8,
    pub pitch_enabled: bool,
    pub pitch_semitones: u32,
    pub subwoofer: u32,
}

/// The message refusing a pitch change while pitch shifting is off.
pub open spec fn pitch_disabled_message() -> Seq<char> {
    "Tried to set pitch but pitch is not enabled"@
}

impl AudioState {
    /// What a client is told of these settings.
    pub open spec fn snapshot_spec(self) -> Snapshot {
        Snapshot {
            volume: self.volume,
            mode: mode_number(mode_of_number(self.mode)),
            pitch_enabled: self.pitch_enabled,
            pitch: self.pitch_semitones,
            subwoofer: stored_level_spec(self.subwoofer),
        }
    }

    /// The settings after a request, and whether the request is refused.
    pub open spec fn after(self, request: Request) -> AudioState {
        match request {
            Request::GetState => self,
            Request::SetVolume(v) => AudioState { volume: v, ..self },
            Request::SetMode(m) => AudioState { mode: mode_number(mode_of_number(m)), ..self },
            Request::SetPitchEnabled(e) => AudioState { pitch_enabled: e, ..self },
            Request::SetPitch(p) => if self.pitch_enabled {
                AudioState { pitch_semitones: clamped(p, MINUS_TWELVE, TWELVE), ..self }
            } else {
                self
            },
            Request::SetSubwoofer(level) => if is_finite(level) {
                AudioState { subwoofer: clamped(level, ZERO, ONE), ..self }
            } else {
                self
            },
        }
    }

    /// Whether a request is refused: only a pitch change while pitch
    /// shifting is off.
    pub open spec fn refuses(self, request: Request) -> bool {
        request matches Request::SetPitch(_) && !self.pitch_enabled
    }

    /// Fresh settings: unit volume, the default mode, pitch shifting off at
    /// zero semitones, full subwoofer level.
    pub fn new() -> (state: Self)
        ensures
            state.volume == UNIT_BITS,
            state.mode == mode_number(Mode::Surround3d),
            !state.pitch_enabled,
            state.pitch_semitones == ZERO_BITS,
            state.subwoofer == UNIT_BITS,
    {
        AudioState {
            volume: UNIT_BITS,
            mode: Mode::Surround3d.to_u8(),
            pitch_enabled: false,
            pitch_semitones: ZERO_BITS,
            subwoofer: UNIT_BITS,
        }
    }

    /// The volume's bit pattern.
    pub fn volume(&self) -> (bits: u32)
        ensures
            bits == self.volume,
    {
        self.volume
    }

    /// Stores the volume's bit pattern as given.
    pub fn set_volume(&mut self, bits: u32)
        ensures
            *final(self) == (AudioState { volume: bits, ..*old(self) }),
    {
        self.volume = bits;
    }

    /// The current mode; a stored number that names no mode reads as `Off`.
    pub fn mode(&self) -> (mode: Mode)
        ensures
            mode == mode_of_number(self.mode),
    {
        Mode::from_u8(self.mode)
    }

    /// Selects a mode.
    pub fn set_mode(&mut self, mode: Mode)
        ensures
            *final(self) == (AudioState { mode: mode_number(mode), ..*old(self) }),
    {
        self.mode = mode.to_u8();
    }

    /// Whether pitch shifting is on.
    pub fn pitch_enabled(&self) -> (enabled: bool)
        ensures
            enabled == self.pitch_enabled,
    {
        self.pitch_enabled
    }

    /// Turns pitch shifting on or off.
    pub fn set_pitch_enabled(&mut self, enabled: bool)
        ensures
            *final(self) == (AudioState { pitch_enabled: enabled, ..*old(self) }),
    {
        self.pitch_enabled = enabled;
    }

    /// The pitch shift's bit pattern.
    pub fn pitch_semitones(&self) -> (bits: u32)
        ensures
            bits == self.pitch_semitones,
    {
        self.pitch_semitones
    }

    /// Stores the pitch shift clamped to `[-12, 12]` semitones (as
    /// `f32::clamp`, which keeps a NaN).
    pub fn set_pitch_semitones(&mut self, bits: u32)
        ensures
            *final(self) == (AudioState { pitch_semitones: clamped(bits, MINUS_TWELVE, TWELVE), ..*old(self) }),
    {
        self.pitch_semitones = bits_clamp(bits, MINUS_TWELVE, TWELVE);
    }

    /// How the stored subwoofer level is to be read.
    pub fn subwoofer(&self) -> (level: StoredLevel)
        ensures
            level == stored_level_spec(self.subwoofer),
    {
        stored_level(self.subwoofer)
    }

    /// Stores a subwoofer level clamped to `[0, 1]`; a value that is not
    /// finite leaves the level as it was.
    pub fn set_subwoofer(&mut self, level: u32)
        ensures
            *final(self) == (if is_finite(level) {
                AudioState { subwoofer: clamped(level, ZERO, ONE), ..*old(self) }
            } else {
                *old(self)
            }),
    {
        if bits_is_finite(level) {
            self.subwoofer = bits_clamp(level, ZERO, ONE);
        }
    }

    /// What a client is told of the current settings.
    pub fn snapshot(&self) -> (snapshot: Snapshot)
        ensures
            snapshot == self.snapshot_spec(),
    {
        Snapshot {
            volume: self.volume,
            mode: self.mode().to_u8(),
            pitch_enabled: self.pitch_enabled,
            pitch: self.pitch_semitones,
            subwoofer: self.subwoofer(),
        }
    }

    /// The notification sent after a change.
    pub fn updated_event(&self) -> (event: Event)
        ensures
            event == Event::StateUpdated(self.snapshot_spec()),
    {
        Event::StateUpdated(self.snapshot())
    }

    /// Answers a request. A state query is answered with a snapshot and
    /// changes nothing; a pitch change while pitch shifting is off is
    /// refused with an error and changes nothing; every other request is
    /// applied, answered `Applied`, and announced with an event carrying the
    /// new snapshot.
    pub fn handle_query(&mut self, request: Request) -> (answer: (Response, Option<Event>))
        ensures
            *final(self) == old(self).after(request),
            request == Request::GetState ==> (answer.0 matches Response::State(s) && s
                == old(self).snapshot_spec()) && answer.1 is None,
            old(self).refuses(request) ==> (answer.0 matches Response::Error(message) && message@
                == pitch_disabled_message()) && answer.1 is None,
            request != Request::GetState && !old(self).refuses(request) ==> answer.0 is Applied
                && answer.1 == Some(Event::StateUpdated(final(self).snapshot_spec())),
    {
        match request {
            Request::SetVolume(volume) => {
                self.set_volume(volume);
                (Response::Applied, Some(self.updated_event()))
            },
            Request::SetMode(mode) => {
                self.set_mode(Mode::from_u8(mode));
                (Response::Applied, Some(self.updated_event()))
            },
            Request::GetState => (Response::State(self.snapshot()), None),
            Request::SetPitchEnabled(enabled) => {
                self.set_pitch_enabled(enabled);
                (Response::Applied, Some(self.updated_event()))
            },
            Request::SetPitch(pitch) => {
                if self.pitch_enabled() {
                    self.set_pitch_semitones(pitch);
                    (Response::Applied, Some(self.updated_event()))
                } else {
                    (
                        Response::Error(
                            String::from_str("Tried to set pitch but pitch is not enabled"),
                        ),
                        None,
                    )
                }
            },
            Request::SetSubwoofer(level) => {
                self.set_subwoofer(level);
                (Response::Applied, Some(self.updated_event()))
            },
        }
    }
}

/// A state query changes nothing, so the snapshot announced after a change is
/// what any following query answers; a refused request changes nothing.
pub proof fn queries_and_refusals_change_nothing(state: AudioState, request: Request)
    ensures
        state.after(Request::GetState) == state,
        state.after(request).after(Request::GetState).snapshot_spec() == state.after(
            request,
        ).snapshot_spec(),
        state.refuses(request) ==> state.after(request) == state,
{
}

/// What a client writes, a query reads back: after an applied request the
/// snapshot shows the written value (a mode number that names no mode reads
/// back as `Off`).
pub proof fn writes_read_back(state: AudioState, request: Request)
    ensures
        ({
            let snapshot = state.after(request).snapshot_spec();
            &&& request matches Request::SetVolume(v) ==> snapshot.volume == v
            &&& request matches Request::SetMode(m) ==> snapshot.mode == mode_number(
                mode_of_number(m),
            ) && (m <= 7 ==> snapshot.mode == m)
            &&& request matches Request::SetPitchEnabled(e) ==> snapshot.pitch_enabled == e
            &&& request matches Request::SetPitch(p) ==> (state.pitch_enabled ==> snapshot.pitch
                == clamped(p, MINUS_TWELVE, TWELVE))
            &&& request matches Request::SetSubwoofer(l) ==> (is_finite(l) ==> snapshot.subwoofer
                == stored_level_spec(clamped(l, ZERO, ONE)))
        }),
{
}

/// Sending the same request twice has the effect of sending it once.
pub proof fn requests_are_idempotent(state: AudioState, request: Request)
    ensures
        state.after(request).after(request) == state.after(request),
{
}

/// A call that changes the settings: one of the setters, or a request.
#[derive(Clone, Copy, Debug, PartialEq, Eq, Structural)]
pub enum SettingsCall {
    SetVolume(u32),
    SetMode(Mode),
    SetPitchEnabled(bool),
    SetPitchSemitones(u32),
    SetSubwoofer(u32),
    HandleQuery(Request),
}

impl AudioState {
    /// The settings after one call, as the call's contract gives them.
    pub open spec fn after_call(self, call: SettingsCall) -> AudioState {
        match call {
            SettingsCall::SetVolume(v) => AudioState { volume: v, ..self },
            SettingsCall::SetMode(m) => AudioState { mode: mode_number(m), ..self },
            SettingsCall::SetPitchEnabled(e) => AudioState { pitch_enabled: e, ..self },
            SettingsCall::SetPitchSemitones(p) => AudioState {
                pitch_semitones: clamped(p, MINUS_TWELVE, TWELVE),
                ..self
            },
            SettingsCall::SetSubwoofer(level) => if is_finite(level) {
                AudioState { subwoofer: clamped(level, ZERO, ONE), ..self }
            } else {
                self
            },
            SettingsCall::HandleQuery(request) => self.after(request),
        }
    }

    /// The settings after the calls, in order.
    pub open spec fn after_calls(self, calls: Seq<SettingsCall>) -> AudioState
        decreases calls.len(),
    {
        if calls.len() == 0 {
            self
        } else {
            self.after_calls(calls.drop_last()).after_call(calls.last())
        }
    }
}

/// The value of the latest call that sets the pitch switch, if any does.
pub open spec fn latest_pitch_switch(calls: Seq<SettingsCall>) -> Option<bool>
    decreases calls.len(),
{
    if calls.len() == 0 {
        None
    } else {
        match calls.last() {
            SettingsCall::SetPitchEnabled(e) => Some(e),
            SettingsCall::HandleQuery(Request::SetPitchEnabled(e)) => Some(e),
            _ => latest_pitch_switch(calls.drop_last()),
        }
    }
}

/// The pitch switch reads as its latest setting: after any sequence of
/// setter calls and requests it is the value of the latest
/// `set_pitch_enabled` or `SetPitchEnabled`, and as it was before if there
/// was none (off, for fresh settings).
pub proof fn pitch_switch_is_the_latest_setting(state: AudioState, calls: Seq<SettingsCall>)
    ensures
        state.after_calls(calls).pitch_enabled == match latest_pitch_switch(calls) {
            Some(e) => e,
            None => state.pitch_enabled,
        },
    decreases calls.len(),
{
    if calls.len() > 0 {
        pitch_switch_is_the_latest_setting(state, calls.drop_last());
    }
}

/// Turning pitch shifting on or off touches nothing else: the shift, the
/// volume, the mode and the subwoofer level keep their values, so turning it
/// off and on again resumes the earlier shift.
pub proof fn pitch_switch_keeps_the_shift(state: AudioState, enabled: bool)
    ensures
        ({
            let switched = state.after(Request::SetPitchEnabled(enabled));
            &&& switched.pitch_enabled == enabled
            &&& switched.pitch_semitones == state.pitch_semitones
            &&& switched.volume == state.volume
            &&& switched.mode == state.mode
            &&& switched.subwoofer == state.subwoofer
        }),
        state.after(Request::SetPitchEnabled(false)).after(Request::SetPitchEnabled(true)).pitch_semitones
            == state.pitch_semitones,
{
}

/// A request changes only the setting it names: setting the volume, the
/// mode, the subwoofer level or the pitch shift leaves every other setting as
/// it was, and so does anything done to the equalizer.
pub proof fn requests_change_only_their_setting(state: AudioState, request: Request)
    ensures
        ({
            let after = state.after(request);
            &&& request matches Request::SetVolume(_) ==> after.mode == state.mode
                && after.pitch_enabled == state.pitch_enabled && after.pitch_semitones
                == state.pitch_semitones && after.subwoofer == state.subwoofer
            &&& request matches Request::SetMode(_) ==> after.volume == state.volume
                && after.pitch_enabled == state.pitch_enabled && after.pitch_semitones
                == state.pitch_semitones && after.subwoofer == state.subwoofer
            &&& request matches Request::SetPitch(_) ==> after.volume == state.volume
                && after.mode == state.mode && after.pitch_enabled == state.pitch_enabled
                && after.subwoofer == state.subwoofer
            &&& request matches Request::SetSubwoofer(_) ==> after.volume == state.volume
                && after.mode == state.mode && after.pitch_enabled == state.pitch_enabled
                && after.pitch_semitones == state.pitch_semitones
        }),
{
}

} // verus!
