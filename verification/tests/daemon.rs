use loom::level::{stored_level, StoredLevel, UNIT_BITS, ZERO_BITS};
use loom::loom::daemon::{AudioState, Event, Request, Response};
use loom::loom::mode::Mode;
use loom::saq::daemon::{
    AudioState as SaqState, Event as SaqEvent, Request as SaqRequest, Response as SaqResponse,
};
use loom::saq::eq::{default_frequency_bits, EqPreset, EqProfileBits, EQ_BAND_COUNT, EQ_MAX_POINTS};
use loom::saq::mode::Mode as SaqMode;
use loom::standalone::AudioState as PlayerState;

#[test]
fn fresh_loom_settings() {
    let state = AudioState::new();
    assert_eq!(state.volume(), 1.0f32.to_bits());
    assert_eq!(state.mode(), Mode::Surround3d);
    assert!(!state.pitch_enabled());
    assert_eq!(state.pitch_semitones(), 0.0f32.to_bits());
    assert_eq!(state.subwoofer(), StoredLevel::Bits(UNIT_BITS));
}

#[test]
fn query_reports_and_changes_nothing() {
    let mut state = AudioState::new();
    let before = state;
    let (response, event) = state.handle_query(Request::GetState);
    assert_eq!(state, before);
    assert!(event.is_none());
    match response {
        Response::State(snapshot) => {
            assert_eq!(snapshot.volume, UNIT_BITS);
            assert_eq!(snapshot.mode, 2);
            assert!(!snapshot.pitch_enabled);
            assert_eq!(snapshot.pitch, ZERO_BITS);
            assert_eq!(snapshot.subwoofer, StoredLevel::Bits(UNIT_BITS));
        }
        other => panic!("unexpected response {other:?}"),
    }
}

#[test]
fn volume_write_reads_back_and_is_announced() {
    let mut state = AudioState::new();
    let half = 0.5f32.to_bits();
    let (response, event) = state.handle_query(Request::SetVolume(half));
    assert!(matches!(response, Response::Applied));
    let Some(Event::StateUpdated(announced)) = event else {
        panic!("no event");
    };
    assert_eq!(announced.volume, half);
    let (response, _) = state.handle_query(Request::GetState);
    let Response::State(queried) = response else {
        panic!("no state");
    };
    assert_eq!(queried, announced);
}

#[test]
fn unknown_mode_number_is_stored_as_off() {
    let mut state = AudioState::new();
    state.handle_query(Request::SetMode(5));
    assert_eq!(state.mode(), Mode::Night);
    assert_eq!(state.mode, 5);
    state.handle_query(Request::SetMode(200));
    assert_eq!(state.mode(), Mode::Off);
    assert_eq!(state.mode, 0);
}

#[test]
fn pitch_is_refused_while_disabled() {
    let mut state = AudioState::new();
    let before = state;
    let (response, event) = state.handle_query(Request::SetPitch(3.0f32.to_bits()));
    match response {
        Response::Error(message) => {
            assert_eq!(message, "Tried to set pitch but pitch is not enabled")
        }
        other => panic!("unexpected response {other:?}"),
    }
    assert!(event.is_none());
    assert_eq!(state, before);
    state.handle_query(Request::SetPitchEnabled(true));
    let (response, event) = state.handle_query(Request::SetPitch(3.0f32.to_bits()));
    assert!(matches!(response, Response::Applied));
    assert!(event.is_some());
    assert_eq!(state.pitch_semitones(), 3.0f32.to_bits());
}

#[test]
fn subwoofer_keeps_level_when_value_not_finite() {
    let mut state = AudioState::new();
    state.handle_query(Request::SetSubwoofer(0.25f32.to_bits()));
    assert_eq!(state.subwoofer(), StoredLevel::Bits(0.25f32.to_bits()));
    let (response, event) = state.handle_query(Request::SetSubwoofer(f32::NAN.to_bits()));
    assert!(matches!(response, Response::Applied));
    assert!(event.is_some());
    assert_eq!(state.subwoofer(), StoredLevel::Bits(0.25f32.to_bits()));
}

#[test]
fn stored_levels_up_to_one_hundred_are_percentages() {
    assert_eq!(stored_level(0), StoredLevel::Percent(0));
    assert_eq!(stored_level(100), StoredLevel::Percent(100));
    assert_eq!(stored_level(101), StoredLevel::Bits(101));
    assert_eq!(stored_level(UNIT_BITS), StoredLevel::Bits(UNIT_BITS));
    let mut state = AudioState::new();
    state.subwoofer = 40;
    assert_eq!(state.subwoofer(), StoredLevel::Percent(40));
}

#[test]
fn repeated_request_has_effect_of_one() {
    let mut once = AudioState::new();
    once.handle_query(Request::SetMode(3));
    let mut twice = once;
    twice.handle_query(Request::SetMode(3));
    assert_eq!(once, twice);
}

#[test]
fn player_state_volume_and_mode() {
    let mut state = PlayerState::new(0.8f32.to_bits());
    assert_eq!(state.volume(), 0.8f32.to_bits());
    assert_eq!(state.mode(), Mode::Off);
    state.set_mode(Mode::Ambience);
    assert_eq!(state.mode(), Mode::Ambience);
    state.set_volume(0.1f32.to_bits());
    assert_eq!(state.volume(), 0.1f32.to_bits());
}

#[test]
fn fresh_saq_settings() {
    let state = SaqState::new();
    assert_eq!(state.mode(), SaqMode::SurroundSound);
    assert_eq!(state.eq_preset(), EqPreset::Off);
    assert_eq!(state.eq_point_count, EQ_BAND_COUNT as u8);
    assert_eq!(state.eq_frequency_bits, default_frequency_bits());
    assert_eq!(state.eq_gain_bits, vec![0u32; EQ_MAX_POINTS]);
}

#[test]
fn choosing_a_preset_resets_the_curve() {
    let mut state = SaqState::new();
    let mut gains = vec![0u32; EQ_MAX_POINTS];
    gains[0] = 6.0f32.to_bits();
    let profile = EqProfileBits {
        preset: EqPreset::Custom,
        base_preset: EqPreset::Jazz,
        point_count: 3,
        frequency_bits: default_frequency_bits(),
        gain_bits: gains.clone(),
    };
    state.handle_query(SaqRequest::SetEqProfile(profile));
    assert_eq!(state.eq_preset(), EqPreset::Custom);
    assert_eq!(state.eq_point_count, 3);
    assert_eq!(state.eq_gain_bits, gains);

    state.handle_query(SaqRequest::SetEqPreset(EqPreset::Custom.to_u8()));
    assert_eq!(state.eq_gain_bits, gains);

    let (response, event) = state.handle_query(SaqRequest::SetEqPreset(EqPreset::Rock.to_u8()));
    assert!(matches!(response, SaqResponse::Applied));
    assert_eq!(state.eq_preset(), EqPreset::Rock);
    assert_eq!(state.eq_base_preset, EqPreset::Rock.to_u8());
    assert_eq!(state.eq_point_count, EQ_BAND_COUNT as u8);
    assert_eq!(state.eq_gain_bits, vec![0u32; EQ_MAX_POINTS]);
    let Some(SaqEvent::StateUpdated(snapshot)) = event else {
        panic!("no event");
    };
    assert_eq!(snapshot.eq_preset, 13);
    assert_eq!(snapshot.eq_point_count, 31);
}

#[test]
fn saq_profile_is_sanitized_on_the_way_in() {
    let mut state = SaqState::new();
    let profile = EqProfileBits {
        preset: EqPreset::Custom,
        base_preset: EqPreset::Custom,
        point_count: 0,
        frequency_bits: default_frequency_bits(),
        gain_bits: vec![0u32; EQ_MAX_POINTS],
    };
    state.handle_query(SaqRequest::SetEqProfile(profile));
    let profile = state.eq_profile();
    assert_eq!(profile.base_preset, EqPreset::Off);
    assert_eq!(profile.point_count, EQ_BAND_COUNT as u8);
    state.eq_point_count = 250;
    assert_eq!(state.eq_profile().point_count, EQ_MAX_POINTS as u8);
}

#[test]
fn saq_pitch_is_refused_while_disabled() {
    let mut state = SaqState::new();
    let (response, event) = state.handle_query(SaqRequest::SetPitch(1.0f32.to_bits()));
    match response {
        SaqResponse::Error(message) => {
            assert_eq!(message, "Tried to set pitch but pitch is not enabled")
        }
        other => panic!("unexpected response {other:?}"),
    }
    assert!(event.is_none());
    assert_eq!(state.pitch_semitones(), 0);
}

#[test]
fn saq_query_answers_snapshot() {
    let mut state = SaqState::new();
    state.handle_query(SaqRequest::SetMode(6));
    let (response, event) = state.handle_query(SaqRequest::GetState);
    assert!(event.is_none());
    let SaqResponse::State(snapshot) = response else {
        panic!("no state");
    };
    assert_eq!(snapshot.mode, 6);
    assert_eq!(snapshot.volume, UNIT_BITS);
    assert_eq!(snapshot.eq_frequency_bits.len(), EQ_MAX_POINTS);
}

#[test]
fn stored_profile_points_are_ordered_by_frequency() {
    let mut state = SaqState::new();
    let mut frequencies = default_frequency_bits();
    let mut gains = vec![0u32; EQ_MAX_POINTS];
    for (i, (f, g)) in [(4000.0f32, -3.0f32), (100.0, 6.0), (1000.0, 0.5)].iter().enumerate() {
        frequencies[i] = f.to_bits();
        gains[i] = g.to_bits();
    }
    state.handle_query(SaqRequest::SetEqProfile(EqProfileBits {
        preset: EqPreset::Custom,
        base_preset: EqPreset::Pop,
        point_count: 3,
        frequency_bits: frequencies,
        gain_bits: gains,
    }));
    let stored: Vec<(f32, f32)> = (0..3)
        .map(|i| (f32::from_bits(state.eq_frequency_bits[i]), f32::from_bits(state.eq_gain_bits[i])))
        .collect();
    assert_eq!(stored, vec![(100.0, 6.0), (1000.0, 0.5), (4000.0, -3.0)]);
    assert_eq!(state.eq_base_preset, EqPreset::Pop.to_u8());
}

#[test]
fn pitch_and_subwoofer_are_clamped() {
    let mut state = AudioState::new();
    state.handle_query(Request::SetPitchEnabled(true));
    state.handle_query(Request::SetPitch(20.0f32.to_bits()));
    assert_eq!(f32::from_bits(state.pitch_semitones()), 12.0);
    state.handle_query(Request::SetPitch((-30.5f32).to_bits()));
    assert_eq!(f32::from_bits(state.pitch_semitones()), -12.0);
    state.handle_query(Request::SetPitch((-2.5f32).to_bits()));
    assert_eq!(f32::from_bits(state.pitch_semitones()), -2.5);
    state.handle_query(Request::SetSubwoofer(3.0f32.to_bits()));
    assert_eq!(state.subwoofer(), StoredLevel::Bits(1.0f32.to_bits()));
    state.handle_query(Request::SetSubwoofer((-1.0f32).to_bits()));
    assert_eq!(state.subwoofer(), StoredLevel::Percent(0));
    state.handle_query(Request::SetSubwoofer(f32::INFINITY.to_bits()));
    assert_eq!(state.subwoofer(), StoredLevel::Percent(0));
    state.set_pitch_semitones(f32::NAN.to_bits());
    assert!(f32::from_bits(state.pitch_semitones()).is_nan());
}

#[test]
fn saq_pitch_and_subwoofer_are_clamped() {
    let mut state = SaqState::new();
    state.handle_query(SaqRequest::SetPitchEnabled(true));
    state.handle_query(SaqRequest::SetPitch(13.0f32.to_bits()));
    assert_eq!(f32::from_bits(state.pitch_semitones()), 12.0);
    state.handle_query(SaqRequest::SetSubwoofer(0.5f32.to_bits()));
    assert_eq!(state.subwoofer(), StoredLevel::Bits(0.5f32.to_bits()));
    state.handle_query(SaqRequest::SetSubwoofer(f32::NAN.to_bits()));
    assert_eq!(state.subwoofer(), StoredLevel::Bits(0.5f32.to_bits()));
}

#[test]
fn pitch_switch_is_its_latest_setting() {
    let mut state = AudioState::new();
    assert!(!state.pitch_enabled());
    state.handle_query(Request::SetPitchEnabled(true));
    state.set_volume(0.3f32.to_bits());
    state.handle_query(Request::SetMode(4));
    assert!(state.pitch_enabled());
    state.set_pitch_enabled(false);
    state.handle_query(Request::SetSubwoofer(0.2f32.to_bits()));
    assert!(!state.pitch_enabled());
}

#[test]
fn stored_profile_is_read_back_sanitized() {
    let mut state = SaqState::new();
    state.eq_point_count = 2;
    state.eq_frequency_bits[0] = 9000.0f32.to_bits();
    state.eq_frequency_bits[1] = f32::NAN.to_bits();
    state.eq_gain_bits[0] = 30.0f32.to_bits();
    let profile = state.eq_profile();
    assert_eq!(f32::from_bits(profile.frequency_bits[0]), 25.0);
    assert_eq!(f32::from_bits(profile.frequency_bits[1]), 9000.0);
    assert_eq!(f32::from_bits(profile.gain_bits[1]), 12.0);
}
