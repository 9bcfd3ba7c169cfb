use loom::saq::daemon::Request;
use loom::saq::gui::select_preset;
use loom::saq::gui::{frame_requests, FrameInput};
use loom::saq::gui::{editor_point_count, mark_edited, reset_curve};
use loom::saq::mode::Mode;
use loom::saq::gui::insert_eq_point;
use loom::saq::eq::{
    array_from_vec, band_frequency_bits, default_frequency_bits, sanitized_base_preset,
    sanitized_point_count, EqPreset, EqProfileBits, EQ_BAND_COUNT, EQ_MAX_POINTS,
};

const BAND_HZ: [f32; 31] = [
    20.0, 25.0, 31.5, 40.0, 50.0, 63.0, 80.0, 100.0, 125.0, 160.0, 200.0, 250.0, 315.0, 400.0,
    500.0, 630.0, 800.0, 1_000.0, 1_250.0, 1_600.0, 2_000.0, 2_500.0, 3_150.0, 4_000.0, 5_000.0,
    6_300.0, 8_000.0, 10_000.0, 12_500.0, 16_000.0, 20_000.0,
];

#[test]
fn band_frequencies_are_the_third_octave_centres() {
    let expected: Vec<u32> = BAND_HZ.iter().map(|f| f.to_bits()).collect();
    assert_eq!(band_frequency_bits(), expected);
    let defaults = default_frequency_bits();
    assert_eq!(defaults.len(), EQ_MAX_POINTS);
    assert_eq!(&defaults[..EQ_BAND_COUNT], &expected[..]);
    assert!(defaults[EQ_BAND_COUNT..].iter().all(|bits| *bits == 0.0f32.to_bits()));
}

#[test]
fn preset_numbers_round_trip() {
    for value in 0u8..=15 {
        assert_eq!(EqPreset::from_u8(value).to_u8(), value);
    }
    assert_eq!(EqPreset::from_u8(1), EqPreset::Dialogue);
    assert_eq!(EqPreset::from_u8(15), EqPreset::Custom);
    assert_eq!(EqPreset::from_u8(16), EqPreset::Off);
    assert_eq!(EqPreset::default(), EqPreset::Off);
}

#[test]
fn preset_labels() {
    assert_eq!(EqPreset::Off.label(), "OFF");
    assert_eq!(EqPreset::BassBoost.label(), "BASS BOOST");
    assert_eq!(EqPreset::HipHop.label(), "HIP HOP");
    assert_eq!(EqPreset::TrebleBoost.label(), "TREBLE BOOST");
    assert_eq!(EqPreset::Custom.label(), "CUSTOM");
    let labels: Vec<&str> = (0u8..=15).map(|v| EqPreset::from_u8(v).label()).collect();
    for (i, a) in labels.iter().enumerate() {
        for b in &labels[i + 1..] {
            assert_ne!(a, b);
        }
    }
}

#[test]
fn filter_bank_matches_indexes() {
    let bank = EqPreset::filters();
    assert_eq!(bank.len(), 14);
    for (index, preset) in bank.iter().enumerate() {
        assert_eq!(preset.filter_index(), Some(index));
    }
    assert_eq!(EqPreset::Dialogue.filter_index(), Some(0));
    assert_eq!(EqPreset::TrebleBoost.filter_index(), Some(13));
    assert_eq!(EqPreset::Off.filter_index(), None);
    assert_eq!(EqPreset::Custom.filter_index(), None);
}

#[test]
fn selectable_presets_are_all_but_custom() {
    let shown = EqPreset::selectable();
    assert_eq!(shown.len(), 15);
    assert_eq!(shown[0], EqPreset::Off);
    assert_eq!(shown[14], EqPreset::Dialogue);
    assert!(!shown.contains(&EqPreset::Custom));
    for value in 0u8..15 {
        assert!(shown.contains(&EqPreset::from_u8(value)));
    }
}

#[test]
fn point_count_and_base_are_sanitized() {
    assert_eq!(sanitized_point_count(0), 31);
    assert_eq!(sanitized_point_count(1), 1);
    assert_eq!(sanitized_point_count(128), 128);
    assert_eq!(sanitized_point_count(129), 128);
    assert_eq!(sanitized_point_count(255), 128);
    assert_eq!(sanitized_base_preset(EqPreset::Custom), EqPreset::Off);
    assert_eq!(sanitized_base_preset(EqPreset::Jazz), EqPreset::Jazz);
}

#[test]
fn array_from_vec_overlays_defaults() {
    assert_eq!(array_from_vec(vec![1u32, 2], vec![9, 9, 9, 9]), vec![1, 2, 9, 9]);
    assert_eq!(array_from_vec(vec![1u32, 2, 3, 4, 5], vec![9, 9, 9]), vec![1, 2, 3]);
    assert_eq!(array_from_vec(Vec::<u32>::new(), vec![7, 8]), vec![7, 8]);
}

#[test]
fn default_profile_is_flat() {
    let profile = EqProfileBits::default_profile();
    assert_eq!(profile.preset, EqPreset::Off);
    assert_eq!(profile.base_preset, EqPreset::Off);
    assert_eq!(profile.point_count, 31);
    assert_eq!(profile.frequency_bits, default_frequency_bits());
    assert_eq!(profile.gain_bits, vec![0u32; 128]);
}

#[test]
fn request_fields_fill_a_profile() {
    let profile = EqProfileBits::from_request(
        15,
        10,
        2,
        vec![1000.0f32.to_bits(), 50.0f32.to_bits()],
        vec![3.0f32.to_bits()],
    );
    assert_eq!(profile.preset, EqPreset::Custom);
    assert_eq!(profile.base_preset, EqPreset::Jazz);
    assert_eq!(profile.point_count, 2);
    assert_eq!(profile.frequency_bits[0], 1000.0f32.to_bits());
    assert_eq!(profile.frequency_bits[1], 50.0f32.to_bits());
    assert_eq!(profile.frequency_bits[2], 31.5f32.to_bits());
    assert_eq!(profile.gain_bits[0], 3.0f32.to_bits());
    assert_eq!(profile.gain_bits[1], 0);
    assert_eq!(profile.frequency_bits.len(), 128);
}

fn profile_with_points(points: &[(f32, f32)], count: u8) -> EqProfileBits {
    let mut frequencies = default_frequency_bits();
    let mut gains = vec![0u32; EQ_MAX_POINTS];
    for (i, (f, g)) in points.iter().enumerate() {
        frequencies[i] = f.to_bits();
        gains[i] = g.to_bits();
    }
    EqProfileBits {
        preset: EqPreset::Custom,
        base_preset: EqPreset::Custom,
        point_count: count,
        frequency_bits: frequencies,
        gain_bits: gains,
    }
}

#[test]
fn sanitizing_orders_points_by_frequency() {
    let profile = profile_with_points(
        &[(1000.0, 1.0), (50.0, 2.0), (8000.0, 3.0), (50.0, 4.0), (20.0, 5.0)],
        5,
    )
    .sanitized();
    assert_eq!(profile.base_preset, EqPreset::Off);
    assert_eq!(profile.point_count, 5);
    let points: Vec<(f32, f32)> = (0..5)
        .map(|i| (f32::from_bits(profile.frequency_bits[i]), f32::from_bits(profile.gain_bits[i])))
        .collect();
    assert_eq!(
        points,
        vec![(20.0, 5.0), (50.0, 2.0), (50.0, 4.0), (1000.0, 1.0), (8000.0, 3.0)]
    );
    assert_eq!(profile.frequency_bits[5], 63.0f32.to_bits());
}

#[test]
fn sanitizing_leaves_points_past_the_count() {
    let profile = profile_with_points(&[(900.0, 1.0), (100.0, 2.0), (30.0, 3.0)], 2).sanitized();
    assert_eq!(profile.frequency_bits[0], 100.0f32.to_bits());
    assert_eq!(profile.frequency_bits[1], 900.0f32.to_bits());
    assert_eq!(profile.gain_bits[0], 2.0f32.to_bits());
    assert_eq!(profile.frequency_bits[2], 30.0f32.to_bits());
    assert_eq!(profile.gain_bits[2], 3.0f32.to_bits());
}

#[test]
fn sanitizing_without_points_uses_the_band_count() {
    let profile = profile_with_points(&[], 0).sanitized();
    assert_eq!(profile.point_count, 31);
    assert_eq!(profile.frequency_bits, default_frequency_bits());
    let over = profile_with_points(&[], 200).sanitized();
    assert_eq!(over.point_count, 128);
}

#[test]
fn inserts_a_new_point_at_its_frequency() {
    let mut count = EQ_BAND_COUNT as u8;
    let mut frequencies = default_frequency_bits();
    let mut gains = vec![0.0f32.to_bits(); EQ_MAX_POINTS];

    let inserted = insert_eq_point(
        &mut count,
        &mut frequencies,
        &mut gains,
        750.0f32.to_bits(),
        4.5f32.to_bits(),
    );

    let inserted = inserted.unwrap();
    assert_eq!(count, 32);
    assert_eq!(f32::from_bits(frequencies[inserted]), 750.0);
    assert_eq!(f32::from_bits(gains[inserted]), 4.5);
}

#[test]
fn inserted_point_lands_between_its_neighbours() {
    let mut count = EQ_BAND_COUNT as u8;
    let mut frequencies = default_frequency_bits();
    let mut gains = vec![0u32; EQ_MAX_POINTS];
    let at = insert_eq_point(&mut count, &mut frequencies, &mut gains, 750.0f32.to_bits(), 0)
        .unwrap();
    assert_eq!(at, 16);
    assert_eq!(f32::from_bits(frequencies[15]), 630.0);
    assert_eq!(f32::from_bits(frequencies[17]), 800.0);
    assert_eq!(f32::from_bits(frequencies[31]), 20_000.0);
    let ascending = (0..32).all(|i| i == 0 || frequencies[i - 1] <= frequencies[i]);
    assert!(ascending);
    let equal = insert_eq_point(&mut count, &mut frequencies, &mut gains, 1000.0f32.to_bits(), 0);
    assert_eq!(equal, Some(18));
    assert_eq!(count, 33);
}

#[test]
fn full_curve_takes_no_point() {
    let mut count = EQ_MAX_POINTS as u8;
    let mut frequencies = default_frequency_bits();
    let mut gains = vec![0u32; EQ_MAX_POINTS];
    let before = frequencies.clone();
    assert_eq!(insert_eq_point(&mut count, &mut frequencies, &mut gains, 100.0f32.to_bits(), 0), None);
    assert_eq!(count, EQ_MAX_POINTS as u8);
    assert_eq!(frequencies, before);
}

#[test]
fn inserted_point_is_clamped_into_range() {
    let mut count = EQ_BAND_COUNT as u8;
    let mut frequencies = default_frequency_bits();
    let mut gains = vec![0u32; EQ_MAX_POINTS];
    let low = insert_eq_point(&mut count, &mut frequencies, &mut gains, 5.0f32.to_bits(), 20.0f32.to_bits())
        .unwrap();
    assert_eq!(low, 0);
    assert_eq!(f32::from_bits(frequencies[0]), 20.0);
    assert_eq!(f32::from_bits(gains[0]), 12.0);
    let high = insert_eq_point(&mut count, &mut frequencies, &mut gains, 30_000.0f32.to_bits(), (-40.0f32).to_bits())
        .unwrap();
    assert_eq!(f32::from_bits(frequencies[high]), 20_000.0);
    assert_eq!(f32::from_bits(gains[high]), -12.0);
    assert_eq!(high, 31);
}

#[test]
fn nan_frequency_goes_first() {
    let mut count = EQ_BAND_COUNT as u8;
    let mut frequencies = default_frequency_bits();
    let mut gains = vec![0u32; EQ_MAX_POINTS];
    let at = insert_eq_point(&mut count, &mut frequencies, &mut gains, f32::NAN.to_bits(), 0).unwrap();
    assert_eq!(at, 0);
    assert!(f32::from_bits(frequencies[0]).is_nan());
}

#[test]
fn sanitizing_clamps_values() {
    let profile = profile_with_points(
        &[(5.0, 40.0), (f32::NAN, -40.0), (50_000.0, f32::NAN), (f32::INFINITY, 1.0)],
        4,
    )
    .sanitized();
    let points: Vec<(f32, f32)> = (0..4)
        .map(|i| (f32::from_bits(profile.frequency_bits[i]), f32::from_bits(profile.gain_bits[i])))
        .collect();
    assert_eq!(points, vec![(20.0, 12.0), (25.0, -12.0), (40.0, 1.0), (20_000.0, 0.0)]);
}

#[test]
fn picking_a_preset_starts_from_the_band_layout() {
    let mut profile = profile_with_points(&[(100.0, 5.0)], 1);
    profile.preset = EqPreset::Custom;
    assert!(select_preset(&mut profile, EqPreset::Jazz));
    assert_eq!(profile.preset, EqPreset::Jazz);
    assert_eq!(profile.base_preset, EqPreset::Jazz);
    assert_eq!(profile.point_count, 31);
    assert_eq!(profile.frequency_bits, default_frequency_bits());
    assert_eq!(profile.gain_bits, vec![0u32; EQ_MAX_POINTS]);
    assert!(!select_preset(&mut profile, EqPreset::Jazz));
}

#[test]
fn editing_makes_the_curve_custom_and_reset_restores_its_base() {
    let mut profile = EqProfileBits::default_profile();
    profile.preset = EqPreset::Rock;
    profile.base_preset = EqPreset::Rock;
    profile.gain_bits[3] = 4.0f32.to_bits();
    mark_edited(&mut profile);
    assert_eq!(profile.preset, EqPreset::Custom);
    assert_eq!(profile.base_preset, EqPreset::Rock);
    assert_eq!(profile.gain_bits, vec![0u32; EQ_MAX_POINTS]);
    profile.gain_bits[3] = 2.0f32.to_bits();
    mark_edited(&mut profile);
    assert_eq!(profile.base_preset, EqPreset::Rock);
    assert_eq!(profile.gain_bits[3], 2.0f32.to_bits());
    reset_curve(&mut profile);
    assert_eq!(profile.preset, EqPreset::Rock);
    assert_eq!(profile.gain_bits, vec![0u32; EQ_MAX_POINTS]);
}

#[test]
fn saq_frame_sends_the_curve_before_pitch() {
    let (mode, requests) = frame_requests(FrameInput {
        mode: Mode::Room,
        clicked: Some(Mode::Room),
        subwoofer_changed: false,
        subwoofer: 0,
        volume_changed: true,
        volume: 5,
        edited_curve: Some(EqProfileBits::default_profile()),
        pitch_changed: true,
        pitch_enabled: false,
        pitch_semitones: 0,
    });
    assert_eq!(mode, Mode::Off);
    assert_eq!(requests.len(), 5);
    assert!(matches!(requests[0], Request::SetMode(0)));
    assert!(matches!(requests[1], Request::SetVolume(5)));
    assert!(matches!(requests[2], Request::SetEqProfile(_)));
    assert!(matches!(requests[3], Request::SetPitchEnabled(false)));
    assert!(matches!(requests[4], Request::SetPitch(0)));
}

#[test]
fn editor_point_count_stays_in_range() {
    assert_eq!(editor_point_count(0), 1);
    assert_eq!(editor_point_count(1), 1);
    assert_eq!(editor_point_count(31), 31);
    assert_eq!(editor_point_count(128), 128);
    assert_eq!(editor_point_count(200), 128);
}
