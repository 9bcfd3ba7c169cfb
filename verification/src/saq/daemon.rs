use vstd::prelude::*;
use crate::single::{bits_clamp, bits_is_finite, clamped, is_finite, MINUS_TWELVE, ONE, TWELVE, ZERO};
use crate::level::{stored_level, stored_level_spec, StoredLevel, UNIT_BITS, ZERO_BITS};
use crate::saq::eq::{
    ascending, band_frequencies_ascend, band_layout_reads_back_unchanged, band_frequency_bits_spec, clamped_frequencies,
    clamped_gains, curve_points, default_frequency_bits,
    default_frequency_bits_spec, ordered_points, ordered_points_are_a_sorted_permutation,
    preset_number, preset_of_number, sanitized_base_preset, sanitized_base_preset_spec,
    curve_frequencies, curve_gains, sanitized_point_count, sanitized_point_count_spec,
    sanitizing_is_idempotent, EqPreset, EqProfileBits, EQ_BAND_COUNT, EQ_MAX_POINTS,
};
use crate::saq::mode::{mode_number, mode_of_number, Mode};
use vstd::string::StringExecFns;

verus! {

/// A request a client sends to the Śaq daemon. Single-precision values
/// travel as their bit patterns.
#[derive(Clone, Debug)]
pub enum Request {
    GetState,
    SetVolume(u32),
    SetMode(u8),
    SetPitchEnabled(bool),
    SetPitch(u32),
    SetSubwoofer(u32),
    SetEqPreset(u8),
    SetEqProfile(EqProfileBits),
}

/// A snapshot of the daemon's settings as clients see them.
#[derive(Clone, Debug)]
pub struct Snapshot {
    pub volume: u32,
    pub mode: u8,
    pub pitch_enabled: bool,
    pub pitch: u32,
    pub subwoofer: StoredLevel,
    pub eq_preset: u8,
    pub eq_base_preset: u8,
    pub eq_point_count: u8,
    pub eq_frequency_bits: Vec<u32>,
    pub eq_gain_bits: Vec<u32>,
}

/// The daemon's answer to a request.
#[derive(Clone, Debug)]
pub enum Response {
    State(Snapshot),
    /// The request was applied.
    Applied,
    Error(String),
}

/// A notification broadcast to every client after a change.
#[derive(Clone, Debug)]
pub enum Event {
    StateUpdated(Snapshot),
}

/// The message refusing a pitch change while pitch shifting is off.
pub open spec fn pitch_disabled_message() -> Seq<char> {
    "Tried to set pitch but pitch is not enabled"@
}

/// The settings of the Śaq daemon. Single-precision settings are held as
/// their bit patterns; modes and presets as their wire numbers.
#[derive(Clone, Debug)]
pub struct AudioState {
    pub volume: u32,
    pub mode: u8,
    pub pitch_enabled: bool,
    pub pitch_semitones: u32,
    pub subwoofer: u32,
    pub eq_preset: u8,
    pub eq_base_preset: u8,
    pub eq_point_count: u8,
    pub eq_frequency_bits: Vec<u32>,
    pub eq_gain_bits: Vec<u32>,
}

/// The abstract settings of the Śaq daemon.
pub struct StateView {
    pub volume: u32,
    pub mode: u8,
    pub pitch_enabled: bool,
    pub pitch_semitones: u32,
    pub subwoofer: u32,
    pub eq_preset: u8,
    pub eq_base_preset: u8,
    pub eq_point_count: u8,
    pub eq_frequency_bits: Seq<u32>,
    pub eq_gain_bits: Seq<u32>,
}

/// The abstract snapshot a client is told.
pub struct SnapshotView {
    pub volume: u32,
    pub mode: u8,
    pub pitch_enabled: bool,
    pub pitch: u32,
    pub subwoofer: StoredLevel,
    pub eq_preset: u8,
    pub eq_base_preset: u8,
    pub eq_point_count: u8,
    pub eq_frequency_bits: Seq<u32>,
    pub eq_gain_bits: Seq<u32>,
}

impl View for AudioState {
    type V = StateView;

    open spec fn view(&self) -> StateView {
        StateView {
            volume: self.volume,
            mode: self.mode,
            pitch_enabled: self.pitch_enabled,
            pitch_semitones: self.pitch_semitones,
            subwoofer: self.subwoofer,
            eq_preset: self.eq_preset,
            eq_base_preset: self.eq_base_preset,
            eq_point_count: self.eq_point_count,
            eq_frequency_bits: self.eq_frequency_bits@,
            eq_gain_bits: self.eq_gain_bits@,
        }
    }
}

impl View for Snapshot {
    type V = SnapshotView;

    open spec fn view(&self) -> SnapshotView {
        SnapshotView {
            volume: self.volume,
            mode: self.mode,
            pitch_enabled: self.pitch_enabled,
            pitch: self.pitch,
            subwoofer: self.subwoofer,
            eq_preset: self.eq_preset,
            eq_base_preset: self.eq_base_preset,
            eq_point_count: self.eq_point_count,
            eq_frequency_bits: self.eq_frequency_bits@,
            eq_gain_bits: self.eq_gain_bits@,
        }
    }
}

/// The flat gain curve: 0 dB at every point.
pub open spec fn flat_gain_bits() -> Seq<u32> {
    Seq::new(EQ_MAX_POINTS as nat, |i: int| 0u32)
}

impl StateView {
    /// Both point arrays hold exactly `EQ_MAX_POINTS` entries.
    pub open spec fn wf(self) -> bool {
        self.eq_frequency_bits.len() == EQ_MAX_POINTS && self.eq_gain_bits.len() == EQ_MAX_POINTS
    }

    /// What a client is told of these settings: modes and presets are
    /// decoded and re-encoded, and the profile is read sanitized.
    pub open spec fn snapshot(self) -> SnapshotView {
        SnapshotView {
            volume: self.volume,
            mode: mode_number(mode_of_number(self.mode)),
            pitch_enabled: self.pitch_enabled,
            pitch: self.pitch_semitones,
            subwoofer: stored_level_spec(self.subwoofer),
            eq_preset: preset_number(preset_of_number(self.eq_preset)),
            eq_base_preset: preset_number(
                sanitized_base_preset_spec(preset_of_number(self.eq_base_preset)),
            ),
            eq_point_count: sanitized_point_count_spec(self.eq_point_count),
            eq_frequency_bits: curve_frequencies(
                self.eq_frequency_bits,
                self.eq_gain_bits,
                sanitized_point_count_spec(self.eq_point_count) as int,
            ),
            eq_gain_bits: curve_gains(
                self.eq_frequency_bits,
                self.eq_gain_bits,
                sanitized_point_count_spec(self.eq_point_count) as int,
            ),
        }
    }

    /// The settings after a preset is chosen: any preset but `Custom` also
    /// becomes the base of the curve and resets the curve to the flat
    /// band layout; choosing `Custom` keeps the curve.
    pub open spec fn with_preset(self, preset: EqPreset) -> StateView {
        if preset == EqPreset::Custom {
            StateView { eq_preset: preset_number(preset), ..self }
        } else {
            StateView {
                eq_preset: preset_number(preset),
                eq_base_preset: preset_number(preset),
                eq_point_count: EQ_BAND_COUNT as u8,
                eq_frequency_bits: default_frequency_bits_spec(),
                eq_gain_bits: flat_gain_bits(),
                ..self
            }
        }
    }

    /// The settings after a whole profile is stored.
    pub open spec fn with_profile(
        self,
        preset: EqPreset,
        base_preset: EqPreset,
        point_count: u8,
        frequency_bits: Seq<u32>,
        gain_bits: Seq<u32>,
    ) -> StateView {
        StateView {
            eq_preset: preset_number(preset),
            eq_base_preset: preset_number(sanitized_base_preset_spec(base_preset)),
            eq_point_count: sanitized_point_count_spec(point_count),
            eq_frequency_bits: curve_frequencies(
                frequency_bits,
                gain_bits,
                sanitized_point_count_spec(point_count) as int,
            ),
            eq_gain_bits: curve_gains(
                frequency_bits,
                gain_bits,
                sanitized_point_count_spec(point_count) as int,
            ),
            ..self
        }
    }

    /// Whether a request is refused: only a pitch change while pitch
    /// shifting is off.
    pub open spec fn refuses(self, request: Request) -> bool {
        request matches Request::SetPitch(_) && !self.pitch_enabled
    }

    /// The settings after a request.
    pub open spec fn after(self, request: Request) -> StateView {
        match request {
            Request::GetState => self,
            Request::SetVolume(v) => StateView { volume: v, ..self },
            Request::SetMode(m) => StateView { mode: mode_number(mode_of_number(m)), ..self },
            Request::SetPitchEnabled(e) => StateView { pitch_enabled: e, ..self },
            Request::SetPitch(p) => if self.pitch_enabled {
                StateView { pitch_semitones: clamped(p, MINUS_TWELVE, TWELVE), ..self }
            } else {
                self
            },
            Request::SetSubwoofer(level) => if is_finite(level) {
                StateView { subwoofer: clamped(level, ZERO, ONE), ..self }
            } else {
                self
            },
            Request::SetEqPreset(p) => self.with_preset(preset_of_number(p)),
            Request::SetEqProfile(profile) => self.with_profile(
                profile.preset,
                profile.base_preset,
                profile.point_count,
                profile.frequency_bits@,
                profile.gain_bits@,
            ),
        }
    }
}

impl AudioState {
    /// Fresh settings: unit volume, the default mode, pitch shifting off at
    /// zero semitones, full subwoofer level, no equalizer and the flat band
    /// layout.
    pub fn new() -> (state: Self)
        ensures
            state@.wf(),
            state.volume == UNIT_BITS,
            state.mode == mode_number(Mode::SurroundSound),
            !state.pitch_enabled,
            state.pitch_semitones == ZERO_BITS,
            state.subwoofer == UNIT_BITS,
            state.eq_preset == preset_number(EqPreset::Off),
            state.eq_base_preset == preset_number(EqPreset::Off),
            state.eq_point_count == EQ_BAND_COUNT,
            state.eq_frequency_bits@ == default_frequency_bits_spec(),
            state.eq_gain_bits@ == flat_gain_bits(),
    {
        let gains = vec![0u32; EQ_MAX_POINTS];
        assert(gains@ =~= flat_gain_bits());
        AudioState {
            volume: UNIT_BITS,
            mode: Mode::SurroundSound.to_u8(),
            pitch_enabled: false,
            pitch_semitones: ZERO_BITS,
            subwoofer: UNIT_BITS,
            eq_preset: EqPreset::Off.to_u8(),
            eq_base_preset: EqPreset::Off.to_u8(),
            eq_point_count: EQ_BAND_COUNT as u8,
            eq_frequency_bits: default_frequency_bits(),
            eq_gain_bits: gains,
        }
    }

    /// The volume's bit pattern.
    pub fn volume(&self) -> (bits: u32)
        ensures
            bits == self.volume,
    {
        self.volume
    }

    /// Stores the volume's bit pattern as given.
    pub fn set_volume(&mut self, bits: u32)
        ensures
            final(self)@ == (StateView { volume: bits, ..old(self)@ }),
    {
        self.volume = bits;
    }

    /// The current mode; a stored number that names no mode reads as `Off`.
    pub fn mode(&self) -> (mode: Mode)
        ensures
            mode == mode_of_number(self.mode),
    {
        Mode::from_u8(self.mode)
    }

    /// Selects a mode.
    pub fn set_mode(&mut self, mode: Mode)
        ensures
            final(self)@ == (StateView { mode: mode_number(mode), ..old(self)@ }),
    {
        self.mode = mode.to_u8();
    }

    /// Whether pitch shifting is on.
    pub fn pitch_enabled(&self) -> (enabled: bool)
        ensures
            enabled == self.pitch_enabled,
    {
        self.pitch_enabled
    }

    /// Turns pitch shifting on or off.
    pub fn set_pitch_enabled(&mut self, enabled: bool)
        ensures
            final(self)@ == (StateView { pitch_enabled: enabled, ..old(self)@ }),
    {
        self.pitch_enabled = enabled;
    }

    /// The pitch shift's bit pattern.
    pub fn pitch_semitones(&self) -> (bits: u32)
        ensures
            bits == self.pitch_semitones,
    {
        self.pitch_semitones
    }

    /// Stores the pitch shift clamped to `[-12, 12]` semitones (as
    /// `f32::clamp`, which keeps a NaN).
    pub fn set_pitch_semitones(&mut self, bits: u32)
        ensures
            final(self)@ == (StateView { pitch_semitones: clamped(bits, MINUS_TWELVE, TWELVE), ..old(self)@ }),
    {
        self.pitch_semitones = bits_clamp(bits, MINUS_TWELVE, TWELVE);
    }

    /// How the stored subwoofer level is to be read.
    pub fn subwoofer(&self) -> (level: StoredLevel)
        ensures
            level == stored_level_spec(self.subwoofer),
    {
        stored_level(self.subwoofer)
    }

    /// Stores a subwoofer level clamped to `[0, 1]`; a value that is not
    /// finite leaves the level as it was.
    pub fn set_subwoofer(&mut self, level: u32)
        ensures
            final(self)@ == (if is_finite(level) {
                StateView { subwoofer: clamped(level, ZERO, ONE), ..old(self)@ }
            } else {
                old(self)@
            }),
    {
        if bits_is_finite(level) {
            self.subwoofer = bits_clamp(level, ZERO, ONE);
        }
    }

    /// The selected equalizer preset; an unknown stored number reads as `Off`.
    pub fn eq_preset(&self) -> (preset: EqPreset)
        ensures
            preset == preset_of_number(self.eq_preset),
    {
        EqPreset::from_u8(self.eq_preset)
    }

    /// Selects an equalizer preset. Any preset but `Custom` also becomes the
    /// base of the curve and resets the curve to the band centres at 0 dB.
    pub fn set_eq_preset(&mut self, preset: EqPreset)
        requires
            old(self)@.wf(),
        ensures
            final(self)@ == old(self)@.with_preset(preset),
            final(self)@.wf(),
    {
        self.eq_preset = preset.to_u8();
        if preset != EqPreset::Custom {
            self.eq_base_preset = preset.to_u8();
            self.eq_point_count = EQ_BAND_COUNT as u8;
            self.eq_frequency_bits = default_frequency_bits();
            let gains = vec![0u32; EQ_MAX_POINTS];
            assert(gains@ =~= flat_gain_bits());
            self.eq_gain_bits = gains;
        }
    }

    /// The stored equalizer profile, read sanitized (see
    /// `EqProfileBits::sanitized`).
    pub fn eq_profile(&self) -> (profile: EqProfileBits)
        requires
            self@.wf(),
        ensures
            profile.wf(),
            profile.preset == preset_of_number(self.eq_preset),
            profile.base_preset == sanitized_base_preset_spec(preset_of_number(self.eq_base_preset)),
            profile.point_count == sanitized_point_count_spec(self.eq_point_count),
            profile.frequency_bits@ == curve_frequencies(
                self.eq_frequency_bits@,
                self.eq_gain_bits@,
                sanitized_point_count_spec(self.eq_point_count) as int,
            ),
            profile.gain_bits@ == curve_gains(
                self.eq_frequency_bits@,
                self.eq_gain_bits@,
                sanitized_point_count_spec(self.eq_point_count) as int,
            ),
    {
        let stored = EqProfileBits {
            preset: self.eq_preset(),
            base_preset: EqPreset::from_u8(self.eq_base_preset),
            point_count: self.eq_point_count,
            frequency_bits: self.eq_frequency_bits.clone(),
            gain_bits: self.eq_gain_bits.clone(),
        };
        stored.sanitized()
    }

    /// Stores a whole equalizer profile, sanitized on the way in: its base
    /// preset and point count are brought into range and its counted points
    /// ordered by frequency.
    pub fn set_eq_profile(&mut self, profile: EqProfileBits)
        requires
            profile.wf(),
        ensures
            final(self)@ == old(self)@.with_profile(
                profile.preset,
                profile.base_preset,
                profile.point_count,
                profile.frequency_bits@,
                profile.gain_bits@,
            ),
            final(self)@.wf(),
    {
        let profile = profile.sanitized();
        self.eq_base_preset = profile.base_preset.to_u8();
        self.eq_point_count = profile.point_count;
        self.eq_frequency_bits = profile.frequency_bits;
        self.eq_gain_bits = profile.gain_bits;
        self.eq_preset = profile.preset.to_u8();
    }

    /// What a client is told of the current settings.
    pub fn snapshot(&self) -> (snapshot: Snapshot)
        requires
            self@.wf(),
        ensures
            snapshot@ == self@.snapshot(),
    {
        let profile = self.eq_profile();
        Snapshot {
            volume: self.volume,
            mode: self.mode().to_u8(),
            pitch_enabled: self.pitch_enabled,
            pitch: self.pitch_semitones,
            subwoofer: self.subwoofer(),
            eq_preset: profile.preset.to_u8(),
            eq_base_preset: profile.base_preset.to_u8(),
            eq_point_count: profile.point_count,
            eq_frequency_bits: profile.frequency_bits,
            eq_gain_bits: profile.gain_bits,
        }
    }

    /// The notification sent after a change.
    pub fn updated_event(&self) -> (event: Event)
        requires
            self@.wf(),
        ensures
            event matches Event::StateUpdated(s) && s@ == self@.snapshot(),
    {
        Event::StateUpdated(self.snapshot())
    }

    /// Answers a request. A state query is answered with a snapshot and
    /// changes nothing; a pitch change while pitch shifting is off is
    /// refused with an error and changes nothing; every other request is
    /// applied, answered `Applied`, and announced with an event carrying the
    /// new snapshot.
    pub fn handle_query(&mut self, request: Request) -> (answer: (Response, Option<Event>))
        requires
            old(self)@.wf(),
            request matches Request::SetEqProfile(profile) ==> profile.wf(),
        ensures
            final(self)@ == old(self)@.after(request),
            final(self)@.wf(),
            request matches Request::GetState ==> (answer.0 matches Response::State(s) && s@
                == old(self)@.snapshot()) && answer.1 is None,
            old(self)@.refuses(request) ==> (answer.0 matches Response::Error(message) && message@
                == pitch_disabled_message()) && answer.1 is None,
            !(request matches Request::GetState) && !old(self)@.refuses(request) ==> answer.0 is Applied
                && (answer.1 matches Some(Event::StateUpdated(s)) && s@ == final(self)@.snapshot()),
    {
        match request {
            Request::SetVolume(volume) => {
                self.set_volume(volume);
                (Response::Applied, Some(self.updated_event()))
            },
            Request::SetMode(mode) => {
                self.set_mode(Mode::from_u8(mode));
                (Response::Applied, Some(self.updated_event()))
            },
            Request::GetState => (Response::State(self.snapshot()), None),
            Request::SetPitchEnabled(enabled) => {
                self.set_pitch_enabled(enabled);
                (Response::Applied, Some(self.updated_event()))
            },
            Request::SetPitch(pitch) => {
                if self.pitch_enabled() {
                    self.set_pitch_semitones(pitch);
                    (Response::Applied, Some(self.updated_event()))
                } else {
                    (
                        Response::Error(
                            String::from_str("Tried to set pitch but pitch is not enabled"),
                        ),
                        None,
                    )
                }
            },
            Request::SetSubwoofer(level) => {
                self.set_subwoofer(level);
                (Response::Applied, Some(self.updated_event()))
            },
            Request::SetEqPreset(preset) => {
                self.set_eq_preset(EqPreset::from_u8(preset));
                (Response::Applied, Some(self.updated_event()))
            },
            Request::SetEqProfile(profile) => {
                self.set_eq_profile(profile);
                (Response::Applied, Some(self.updated_event()))
            },
        }
    }
}

/// A state query changes nothing, so the snapshot announced after a change is
/// what any following query answers; a refused request changes nothing.
pub proof fn queries_and_refusals_change_nothing(state: StateView, request: Request)
    ensures
        state.after(Request::GetState) == state,
        state.after(request).after(Request::GetState).snapshot() == state.after(request).snapshot(),
        state.refuses(request) ==> state.after(request) == state,
{
}

/// What a client writes, a query reads back: after an applied request the
/// snapshot shows the written value, and choosing any preset but `Custom`
/// shows the flat curve over the band layout with that preset as its base.
pub proof fn writes_read_back(state: StateView, request: Request)
    ensures
        ({
            let snapshot = state.after(request).snapshot();
            &&& request matches Request::SetVolume(v) ==> snapshot.volume == v
            &&& request matches Request::SetMode(m) ==> (m <= 7 ==> snapshot.mode == m)
            &&& request matches Request::SetPitchEnabled(e) ==> snapshot.pitch_enabled == e
            &&& request matches Request::SetPitch(p) ==> (state.pitch_enabled ==> snapshot.pitch
                == clamped(p, MINUS_TWELVE, TWELVE))
            &&& request matches Request::SetSubwoofer(l) ==> (is_finite(l) ==> snapshot.subwoofer
                == stored_level_spec(clamped(l, ZERO, ONE)))
            &&& request matches Request::SetEqPreset(p) ==> (p <= 15 ==> snapshot.eq_preset == p)
            &&& request matches Request::SetEqPreset(p) ==> (1 <= p <= 14 ==> {
                &&& snapshot.eq_base_preset == p
                &&& snapshot.eq_point_count == EQ_BAND_COUNT
                &&& snapshot.eq_frequency_bits == default_frequency_bits_spec()
                &&& snapshot.eq_gain_bits == flat_gain_bits()
            })
        }),
{
    band_layout_reads_back_unchanged();
    assert(flat_gain_bits() =~= Seq::new(EQ_MAX_POINTS as nat, |i: int| 0u32));
}

/// Sending the same request twice has the effect of sending it once.
pub proof fn requests_are_idempotent(state: StateView, request: Request)
    ensures
        state.after(request).after(request) == state.after(request),
{
}

impl StateView {
    /// Whether the counted points of the stored curve ascend in frequency.
    pub open spec fn curve_ascends(self) -> bool {
        ascending(curve_points(self.eq_frequency_bits, self.eq_gain_bits, self.eq_point_count as int))
    }
}

/// Every request keeps the stored curve ordered by frequency: choosing a
/// preset installs the ascending band layout, storing a profile orders its
/// points, and nothing else touches the curve.
pub proof fn stored_curve_stays_ordered(state: StateView, request: Request)
    requires
        state.wf(),
        state.curve_ascends(),
        request matches Request::SetEqProfile(profile) ==> profile.wf(),
    ensures
        state.after(request).curve_ascends(),
{
    match request {
        Request::SetEqPreset(p) => {
            if preset_of_number(p) != EqPreset::Custom {
                band_frequencies_ascend();
                let after = state.after(request);
                let points = curve_points(after.eq_frequency_bits, after.eq_gain_bits, EQ_BAND_COUNT as int);
                assert forall|i: int, j: int| 0 <= i <= j < points.len() implies points[i].0
                    <= points[j].0 by {
                    assert(points[i].0 == band_frequency_bits_spec()[i]);
                    assert(points[j].0 == band_frequency_bits_spec()[j]);
                }
            }
        },
        Request::SetEqProfile(profile) => {
            let count = sanitized_point_count_spec(profile.point_count) as int;
            let points = curve_points(
                clamped_frequencies(profile.frequency_bits@, count),
                clamped_gains(profile.gain_bits@),
                count,
            );
            ordered_points_are_a_sorted_permutation(points);
            let after = state.after(request);
            let stored = curve_points(after.eq_frequency_bits, after.eq_gain_bits, count);
            assert(stored =~= ordered_points(points));
        },
        _ => {},
    }
}

/// A call that changes the settings: one of the setters, or a request.
pub enum SettingsCall {
    SetVolume(u32),
    SetMode(Mode),
    SetPitchEnabled(bool),
    SetPitchSemitones(u32),
    SetSubwoofer(u32),
    SetEqPreset(EqPreset),
    SetEqProfile(EqProfileBits),
    HandleQuery(Request),
}

impl StateView {
    /// The settings after one call, as the call's contract gives them.
    pub open spec fn after_call(self, call: SettingsCall) -> StateView {
        match call {
            SettingsCall::SetVolume(v) => StateView { volume: v, ..self },
            SettingsCall::SetMode(m) => StateView { mode: mode_number(m), ..self },
            SettingsCall::SetPitchEnabled(e) => StateView { pitch_enabled: e, ..self },
            SettingsCall::SetPitchSemitones(p) => StateView {
                pitch_semitones: clamped(p, MINUS_TWELVE, TWELVE),
                ..self
            },
            SettingsCall::SetSubwoofer(level) => if is_finite(level) {
                StateView { subwoofer: clamped(level, ZERO, ONE), ..self }
            } else {
                self
            },
            SettingsCall::SetEqPreset(preset) => self.with_preset(preset),
            SettingsCall::SetEqProfile(profile) => self.with_profile(
                profile.preset,
                profile.base_preset,
                profile.point_count,
                profile.frequency_bits@,
                profile.gain_bits@,
            ),
            SettingsCall::HandleQuery(request) => self.after(request),
        }
    }

    /// The settings after the calls, in order.
    pub open spec fn after_calls(self, calls: Seq<SettingsCall>) -> StateView
        decreases calls.len(),
    {
        if calls.len() == 0 {
            self
        } else {
            self.after_calls(calls.drop_last()).after_call(calls.last())
        }
    }
}

/// The value of the latest call that sets the pitch switch, if any does.
pub open spec fn latest_pitch_switch(calls: Seq<SettingsCall>) -> Option<bool>
    decreases calls.len(),
{
    if calls.len() == 0 {
        None
    } else {
        match calls.last() {
            SettingsCall::SetPitchEnabled(e) => Some(e),
            SettingsCall::HandleQuery(Request::SetPitchEnabled(e)) => Some(e),
            _ => latest_pitch_switch(calls.drop_last()),
        }
    }
}

/// The pitch switch reads as its latest setting: after any sequence of
/// setter calls and requests it is the value of the latest
/// `set_pitch_enabled` or `SetPitchEnabled`, and as it was before if there
/// was none (off, for fresh settings).
pub proof fn pitch_switch_is_the_latest_setting(state: StateView, calls: Seq<SettingsCall>)
    ensures
        state.after_calls(calls).pitch_enabled == match latest_pitch_switch(calls) {
            Some(e) => e,
            None => state.pitch_enabled,
        },
    decreases calls.len(),
{
    if calls.len() > 0 {
        pitch_switch_is_the_latest_setting(state, calls.drop_last());
    }
}

/// A stored profile reads back as the profile sanitized: after
/// `set_eq_profile(p)` the settings show `p.sanitized()` (preset, base, point
/// count, frequencies and gains), and every other setting is as it was.
pub proof fn stored_profile_reads_back(state: StateView, profile: EqProfileBits)
    requires
        profile.wf(),
    ensures
        ({
            let count = sanitized_point_count_spec(profile.point_count) as int;
            let stored = state.with_profile(
                profile.preset,
                profile.base_preset,
                profile.point_count,
                profile.frequency_bits@,
                profile.gain_bits@,
            );
            let shown = stored.snapshot();
            &&& shown.eq_preset == preset_number(profile.preset)
            &&& shown.eq_base_preset == preset_number(sanitized_base_preset_spec(profile.base_preset))
            &&& shown.eq_point_count == count
            &&& shown.eq_frequency_bits == curve_frequencies(
                profile.frequency_bits@,
                profile.gain_bits@,
                count,
            )
            &&& shown.eq_gain_bits == curve_gains(profile.frequency_bits@, profile.gain_bits@, count)
            &&& stored.volume == state.volume && stored.mode == state.mode
            &&& stored.pitch_enabled == state.pitch_enabled
            &&& stored.pitch_semitones == state.pitch_semitones
            &&& stored.subwoofer == state.subwoofer
        }),
{
    sanitizing_is_idempotent(
        profile.base_preset,
        profile.point_count,
        profile.frequency_bits@,
        profile.gain_bits@,
    );
}

/// Turning pitch shifting on or off touches nothing else: the shift, the
/// volume, the mode, the subwoofer level and the equalizer keep their values,
/// so turning it off and on again resumes the earlier shift.
pub proof fn pitch_switch_keeps_the_shift(state: StateView, enabled: bool)
    ensures
        ({
            let switched = state.after(Request::SetPitchEnabled(enabled));
            &&& switched.pitch_enabled == enabled
            &&& switched.pitch_semitones == state.pitch_semitones
            &&& switched.volume == state.volume
            &&& switched.mode == state.mode
            &&& switched.subwoofer == state.subwoofer
            &&& switched.eq_preset == state.eq_preset
            &&& switched.eq_base_preset == state.eq_base_preset
            &&& switched.eq_point_count == state.eq_point_count
            &&& switched.eq_frequency_bits == state.eq_frequency_bits
            &&& switched.eq_gain_bits == state.eq_gain_bits
        }),
        state.after(Request::SetPitchEnabled(false)).after(Request::SetPitchEnabled(true)).pitch_semitones
            == state.pitch_semitones,
{
}

/// A request changes only the setting it names: setting the volume, the
/// mode, the subwoofer level or the pitch shift leaves every other setting as
/// it was, and so does anything done to the equalizer.
pub proof fn requests_change_only_their_setting(state: StateView, request: Request)
    ensures
        ({
            let after = state.after(request);
            &&& request matches Request::SetVolume(_) ==> after.mode == state.mode
                && after.pitch_enabled == state.pitch_enabled && after.pitch_semitones
                == state.pitch_semitones && after.subwoofer == state.subwoofer && after.eq_preset == state.eq_preset
                && after.eq_base_preset == state.eq_base_preset && after.eq_point_count
                == state.eq_point_count && after.eq_frequency_bits == state.eq_frequency_bits
                && after.eq_gain_bits == state.eq_gain_bits
            &&& request matches Request::SetMode(_) ==> after.volume == state.volume
                && after.pitch_enabled == state.pitch_enabled && after.pitch_semitones
                == state.pitch_semitones && after.subwoofer == state.subwoofer && after.eq_preset == state.eq_preset
                && after.eq_base_preset == state.eq_base_preset && after.eq_point_count
                == state.eq_point_count && after.eq_frequency_bits == state.eq_frequency_bits
                && after.eq_gain_bits == state.eq_gain_bits
            &&& request matches Request::SetPitch(_) ==> after.volume == state.volume
                && after.mode == state.mode && after.pitch_enabled == state.pitch_enabled
                && after.subwoofer == state.subwoofer && after.eq_preset == state.eq_preset
                && after.eq_base_preset == state.eq_base_preset && after.eq_point_count
                == state.eq_point_count && after.eq_frequency_bits == state.eq_frequency_bits
                && after.eq_gain_bits == state.eq_gain_bits
            &&& request matches Request::SetSubwoofer(_) ==> after.volume == state.volume
                && after.mode == state.mode && after.pitch_enabled == state.pitch_enabled
                && after.pitch_semitones == state.pitch_semitones && after.eq_preset == state.eq_preset
                && after.eq_base_preset == state.eq_base_preset && after.eq_point_count
                == state.eq_point_count && after.eq_frequency_bits == state.eq_frequency_bits
                && after.eq_gain_bits == state.eq_gain_bits
            &&& request matches Request::SetEqPreset(_) ==> after.volume == state.volume
                && after.mode == state.mode && after.pitch_enabled == state.pitch_enabled
                && after.pitch_semitones == state.pitch_semitones && after.subwoofer == state.subwoofer
            &&& request matches Request::SetEqProfile(_) ==> after.volume == state.volume
                && after.mode == state.mode && after.pitch_enabled == state.pitch_enabled
                && after.pitch_semitones == state.pitch_semitones && after.subwoofer == state.subwoofer
        }),
{
}

} // verus!
