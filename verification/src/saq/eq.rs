use vstd::prelude::*;
use crate::single::{
    bits_clamp, bits_is_finite, clamp_is_idempotent, clamp_keeps_finite, clamped,
    clamp_into_positive_range, is_finite, is_nan, less, MINUS_TWELVE, TWELVE,
    TWENTY, TWENTY_THOUSAND, ZERO,
};

verus! {

/// Number of bands of the graphic equalizer.
pub const EQ_BAND_COUNT: usize = 31;

/// Largest number of points a custom equalizer curve may hold.
pub const EQ_MAX_POINTS: usize = 128;

/// The IEEE-754 single-precision bit patterns of the band centre
/// frequencies in hertz, from 20 Hz to 20 kHz (third-octave bands).
pub open spec fn band_frequency_bits_spec() -> Seq<u32> {
    seq![
        0x41a00000u32, 0x41c80000, 0x41fc0000, 0x42200000, 0x42480000, 0x427c0000, 0x42a00000,
        0x42c80000, 0x42fa0000, 0x43200000, 0x43480000, 0x437a0000, 0x439d8000, 0x43c80000,
        0x43fa0000, 0x441d8000, 0x44480000, 0x447a0000, 0x449c4000, 0x44c80000, 0x44fa0000,
        0x451c4000, 0x4544e000, 0x457a0000, 0x459c4000, 0x45c4e000, 0x45fa0000, 0x461c4000,
        0x46435000, 0x467a0000, 0x469c4000,
    ]
}

/// The default point frequencies of a profile: the band centres, then
/// zeros up to `EQ_MAX_POINTS` (the bit pattern `0` is `0.0`).
pub open spec fn default_frequency_bits_spec() -> Seq<u32> {
    Seq::new(
        EQ_MAX_POINTS as nat,
        |i: int|
            if i < EQ_BAND_COUNT {
                band_frequency_bits_spec()[i]
            } else {
                0u32
            },
    )
}

/// The band centre frequencies as single-precision bit patterns.
pub fn band_frequency_bits() -> (bits: Vec<u32>)
    ensures
        bits@ == band_frequency_bits_spec(),
{
    let bits = vec![
        0x41a00000u32, 0x41c80000, 0x41fc0000, 0x42200000, 0x42480000, 0x427c0000, 0x42a00000,
        0x42c80000, 0x42fa0000, 0x43200000, 0x43480000, 0x437a0000, 0x439d8000, 0x43c80000,
        0x43fa0000, 0x441d8000, 0x44480000, 0x447a0000, 0x449c4000, 0x44c80000, 0x44fa0000,
        0x451c4000, 0x4544e000, 0x457a0000, 0x459c4000, 0x45c4e000, 0x45fa0000, 0x461c4000,
        0x46435000, 0x467a0000, 0x469c4000,
    ];
    assert(bits@ =~= band_frequency_bits_spec());
    bits
}

/// The default point frequencies of a profile as bit patterns: the band
/// centres followed by zeros, `EQ_MAX_POINTS` in all.
pub fn default_frequency_bits() -> (bits: Vec<u32>)
    ensures
        bits@ == default_frequency_bits_spec(),
{
    let bands = band_frequency_bits();
    let mut bits: Vec<u32> = Vec::new();
    let mut i: usize = 0;
    while i < EQ_MAX_POINTS
        invariant
            bands@ == band_frequency_bits_spec(),
            i <= EQ_MAX_POINTS,
            bits@.len() == i,
            forall|k: int| 0 <= k < i ==> #[trigger] bits@[k] == default_frequency_bits_spec()[k],
        decreases EQ_MAX_POINTS - i,
    {
        if i < EQ_BAND_COUNT {
            bits.push(bands[i]);
        } else {
            bits.push(0);
        }
        i = i + 1;
    }
    assert(bits@ =~= default_frequency_bits_spec());
    bits
}

/// An equalizer preset: a measured response, `Off`, or a user `Custom` curve.
#[derive(Clone, Copy, Debug, PartialEq, Eq, Structural)]
pub enum EqPreset {
    Off,
    Dialogue,
    Acoustic,
    BassBoost,
    Orchestral,
    Party,
    Electronic,
    Gaming,
    HipHop,
    House,
    Jazz,
    Cinema,
    Pop,
    Rock,
    TrebleBoost,
    Custom,
}

/// The wire number of each preset.
pub open spec fn preset_number(preset: EqPreset) -> u8 {
    match preset {
        EqPreset::Off => 0,
        EqPreset::Dialogue => 1,
        EqPreset::Acoustic => 2,
        EqPreset::BassBoost => 3,
        EqPreset::Orchestral => 4,
        EqPreset::Party => 5,
        EqPreset::Electronic => 6,
        EqPreset::Gaming => 7,
        EqPreset::HipHop => 8,
        EqPreset::House => 9,
        EqPreset::Jazz => 10,
        EqPreset::Cinema => 11,
        EqPreset::Pop => 12,
        EqPreset::Rock => 13,
        EqPreset::TrebleBoost => 14,
        EqPreset::Custom => 15,
    }
}

/// The preset that a wire number decodes to: unknown numbers are `Off`.
pub open spec fn preset_of_number(value: u8) -> EqPreset {
    if value == 1 {
        EqPreset::Dialogue
    } else if value == 2 {
        EqPreset::Acoustic
    } else if value == 3 {
        EqPreset::BassBoost
    } else if value == 4 {
        EqPreset::Orchestral
    } else if value == 5 {
        EqPreset::Party
    } else if value == 6 {
        EqPreset::Electronic
    } else if value == 7 {
        EqPreset::Gaming
    } else if value == 8 {
        EqPreset::HipHop
    } else if value == 9 {
        EqPreset::House
    } else if value == 10 {
        EqPreset::Jazz
    } else if value == 11 {
        EqPreset::Cinema
    } else if value == 12 {
        EqPreset::Pop
    } else if value == 13 {
        EqPreset::Rock
    } else if value == 14 {
        EqPreset::TrebleBoost
    } else if value == 15 {
        EqPreset::Custom
    } else {
        EqPreset::Off
    }
}

/// The label under which a preset is shown.
pub open spec fn preset_label(preset: EqPreset) -> Seq<char> {
    match preset {
        EqPreset::Off => "OFF"@,
        EqPreset::Dialogue => "DIALOGUE"@,
        EqPreset::Custom => "CUSTOM"@,
        EqPreset::Acoustic => "ACOUSTIC"@,
        EqPreset::BassBoost => "BASS BOOST"@,
        EqPreset::Party => "PARTY"@,
        EqPreset::Electronic => "ELECTRONIC"@,
        EqPreset::Gaming => "GAMING"@,
        EqPreset::HipHop => "HIP HOP"@,
        EqPreset::House => "HOUSE"@,
        EqPreset::Jazz => "JAZZ"@,
        EqPreset::Cinema => "CINEMA"@,
        EqPreset::Pop => "POP"@,
        EqPreset::Rock => "ROCK"@,
        EqPreset::TrebleBoost => "TREBLE BOOST"@,
        EqPreset::Orchestral => "ORCHESTRAL"@,
    }
}

/// The presets that have a measured response, in filter-bank order.
pub open spec fn filter_presets() -> Seq<EqPreset> {
    seq![
        EqPreset::Dialogue,
        EqPreset::Acoustic,
        EqPreset::BassBoost,
        EqPreset::Orchestral,
        EqPreset::Party,
        EqPreset::Electronic,
        EqPreset::Gaming,
        EqPreset::HipHop,
        EqPreset::House,
        EqPreset::Jazz,
        EqPreset::Cinema,
        EqPreset::Pop,
        EqPreset::Rock,
        EqPreset::TrebleBoost,
    ]
}

/// The presets offered to users, in the order they are shown.
pub open spec fn selectable_presets() -> Seq<EqPreset> {
    seq![
        EqPreset::Off,
        EqPreset::Acoustic,
        EqPreset::BassBoost,
        EqPreset::Orchestral,
        EqPreset::Party,
        EqPreset::Electronic,
        EqPreset::Gaming,
        EqPreset::HipHop,
        EqPreset::House,
        EqPreset::Jazz,
        EqPreset::Cinema,
        EqPreset::Pop,
        EqPreset::Rock,
        EqPreset::TrebleBoost,
        EqPreset::Dialogue,
    ]
}

/// The position of a preset in the filter bank: the preset's own wire
/// number minus one for the measured presets, none for `Off` and `Custom`.
pub open spec fn preset_filter_index(preset: EqPreset) -> Option<usize> {
    if preset == EqPreset::Off || preset == EqPreset::Custom {
        None
    } else {
        Some((preset_number(preset) - 1) as usize)
    }
}

impl EqPreset {
    /// Decodes a wire number; every number outside `1..=15` is `Off`.
    pub fn from_u8(value: u8) -> (preset: Self)
        ensures
            preset == preset_of_number(value),
    {
        match value {
            1 => EqPreset::Dialogue,
            2 => EqPreset::Acoustic,
            3 => EqPreset::BassBoost,
            4 => EqPreset::Orchestral,
            5 => EqPreset::Party,
            6 => EqPreset::Electronic,
            7 => EqPreset::Gaming,
            8 => EqPreset::HipHop,
            9 => EqPreset::House,
            10 => EqPreset::Jazz,
            11 => EqPreset::Cinema,
            12 => EqPreset::Pop,
            13 => EqPreset::Rock,
            14 => EqPreset::TrebleBoost,
            15 => EqPreset::Custom,
            _ => EqPreset::Off,
        }
    }

    /// The wire number of the preset.
    pub fn to_u8(self) -> (value: u8)
        ensures
            value == preset_number(self),
    {
        match self {
            EqPreset::Off => 0,
            EqPreset::Dialogue => 1,
            EqPreset::Acoustic => 2,
            EqPreset::BassBoost => 3,
            EqPreset::Orchestral => 4,
            EqPreset::Party => 5,
            EqPreset::Electronic => 6,
            EqPreset::Gaming => 7,
            EqPreset::HipHop => 8,
            EqPreset::House => 9,
            EqPreset::Jazz => 10,
            EqPreset::Cinema => 11,
            EqPreset::Pop => 12,
            EqPreset::Rock => 13,
            EqPreset::TrebleBoost => 14,
            EqPreset::Custom => 15,
        }
    }

    /// The upper-case label under which the preset is shown.
    pub fn label(self) -> (label: &'static str)
        ensures
            label@ == preset_label(self),
    {
        match self {
            EqPreset::Off => "OFF",
            EqPreset::Dialogue => "DIALOGUE",
            EqPreset::Custom => "CUSTOM",
            EqPreset::Acoustic => "ACOUSTIC",
            EqPreset::BassBoost => "BASS BOOST",
            EqPreset::Party => "PARTY",
            EqPreset::Electronic => "ELECTRONIC",
            EqPreset::Gaming => "GAMING",
            EqPreset::HipHop => "HIP HOP",
            EqPreset::House => "HOUSE",
            EqPreset::Jazz => "JAZZ",
            EqPreset::Cinema => "CINEMA",
            EqPreset::Pop => "POP",
            EqPreset::Rock => "ROCK",
            EqPreset::TrebleBoost => "TREBLE BOOST",
            EqPreset::Orchestral => "ORCHESTRAL",
        }
    }

    /// The preset's slot in the filter bank, if it has a measured response.
    pub fn filter_index(self) -> (index: Option<usize>)
        ensures
            index == preset_filter_index(self),
    {
        match self {
            EqPreset::Dialogue => Some(0),
            EqPreset::Acoustic => Some(1),
            EqPreset::BassBoost => Some(2),
            EqPreset::Orchestral => Some(3),
            EqPreset::Party => Some(4),
            EqPreset::Electronic => Some(5),
            EqPreset::Gaming => Some(6),
            EqPreset::HipHop => Some(7),
            EqPreset::House => Some(8),
            EqPreset::Jazz => Some(9),
            EqPreset::Cinema => Some(10),
            EqPreset::Pop => Some(11),
            EqPreset::Rock => Some(12),
            EqPreset::TrebleBoost => Some(13),
            EqPreset::Off | EqPreset::Custom => None,
        }
    }

    /// The presets with a measured response, in filter-bank order.
    pub fn filters() -> (presets: Vec<EqPreset>)
        ensures
            presets@ == filter_presets(),
    {
        let presets = vec![
            EqPreset::Dialogue,
            EqPreset::Acoustic,
            EqPreset::BassBoost,
            EqPreset::Orchestral,
            EqPreset::Party,
            EqPreset::Electronic,
            EqPreset::Gaming,
            EqPreset::HipHop,
            EqPreset::House,
            EqPreset::Jazz,
            EqPreset::Cinema,
            EqPreset::Pop,
            EqPreset::Rock,
            EqPreset::TrebleBoost,
        ];
        assert(presets@ =~= filter_presets());
        presets
    }

    /// The presets offered to users, in display order.
    pub fn selectable() -> (presets: Vec<EqPreset>)
        ensures
            presets@ == selectable_presets(),
    {
        let presets = vec![
            EqPreset::Off,
            EqPreset::Acoustic,
            EqPreset::BassBoost,
            EqPreset::Orchestral,
            EqPreset::Party,
            EqPreset::Electronic,
            EqPreset::Gaming,
            EqPreset::HipHop,
            EqPreset::House,
            EqPreset::Jazz,
            EqPreset::Cinema,
            EqPreset::Pop,
            EqPreset::Rock,
            EqPreset::TrebleBoost,
            EqPreset::Dialogue,
        ];
        assert(presets@ =~= selectable_presets());
        presets
    }
}

impl Default for EqPreset {
    /// The preset of a fresh profile.
    fn default() -> (preset: Self)
        ensures
            preset == EqPreset::Off,
    {
        EqPreset::Off
    }
}

/// Wire numbers round-trip: every preset decodes from its own number, and
/// every number up to 15 is the number of the preset it decodes to.
pub proof fn preset_numbers_round_trip(preset: EqPreset, value: u8)
    ensures
        preset_of_number(preset_number(preset)) == preset,
        value <= 15 ==> preset_number(preset_of_number(value)) == value,
{
}

/// The filter bank and the filter indexes agree: a preset with a measured
/// response sits at its index in the bank, every bank entry has its position
/// as index, and only `Off` and `Custom` have no slot.
pub proof fn filter_bank_matches_indexes(preset: EqPreset)
    ensures
        preset_filter_index(preset) is None <==> (preset == EqPreset::Off || preset
            == EqPreset::Custom),
        preset_filter_index(preset) matches Some(i) ==> i < filter_presets().len()
            && filter_presets()[i as int] == preset,
        forall|i: int|
            0 <= i < filter_presets().len() ==> preset_filter_index(#[trigger] filter_presets()[i])
                == Some(i as usize),
{
}

/// Users are offered every preset but `Custom`, each once.
pub proof fn selectable_presets_are_all_but_custom(preset: EqPreset)
    ensures
        selectable_presets().contains(preset) <==> preset != EqPreset::Custom,
        forall|i: int, j: int|
            0 <= i < j < selectable_presets().len() ==> selectable_presets()[i]
                != selectable_presets()[j],
{
    if preset != EqPreset::Custom {
        let i: int = match preset {
            EqPreset::Off => 0,
            EqPreset::Acoustic => 1,
            EqPreset::BassBoost => 2,
            EqPreset::Orchestral => 3,
            EqPreset::Party => 4,
            EqPreset::Electronic => 5,
            EqPreset::Gaming => 6,
            EqPreset::HipHop => 7,
            EqPreset::House => 8,
            EqPreset::Jazz => 9,
            EqPreset::Cinema => 10,
            EqPreset::Pop => 11,
            EqPreset::Rock => 12,
            EqPreset::TrebleBoost => 13,
            _ => 14,
        };
        assert(selectable_presets()[i] == preset);
    }
}

/// The point count a profile keeps: an empty curve falls back to the band
/// count, and no curve holds more than `EQ_MAX_POINTS` points.
pub open spec fn sanitized_point_count_spec(count: u8) -> u8 {
    if count == 0 {
        EQ_BAND_COUNT as u8
    } else if count > EQ_MAX_POINTS as u8 {
        EQ_MAX_POINTS as u8
    } else {
        count
    }
}

/// The base preset a profile keeps: a custom curve cannot be based on
/// another custom curve, so `Custom` falls back to `Off`.
pub open spec fn sanitized_base_preset_spec(base: EqPreset) -> EqPreset {
    if base == EqPreset::Custom {
        EqPreset::Off
    } else {
        base
    }
}

/// The point count of a sanitized profile.
pub fn sanitized_point_count(count: u8) -> (kept: u8)
    ensures
        kept == sanitized_point_count_spec(count),
        1 <= kept <= EQ_MAX_POINTS,
{
    if count == 0 {
        EQ_BAND_COUNT as u8
    } else if count > EQ_MAX_POINTS as u8 {
        EQ_MAX_POINTS as u8
    } else {
        count
    }
}

/// The base preset of a sanitized profile.
pub fn sanitized_base_preset(base: EqPreset) -> (kept: EqPreset)
    ensures
        kept == sanitized_base_preset_spec(base),
        kept != EqPreset::Custom,
{
    if base == EqPreset::Custom {
        EqPreset::Off
    } else {
        base
    }
}

/// Overlays `values` on `defaults`: the result is as long as `defaults`,
/// holds `values[i]` where `values` reaches and `defaults[i]` beyond.
pub open spec fn overlay<T>(values: Seq<T>, defaults: Seq<T>) -> Seq<T> {
    Seq::new(defaults.len(), |i: int| if i < values.len() { values[i] } else { defaults[i] })
}

/// Fills `defaults` with the leading `values`; values past the end of
/// `defaults` are dropped.
pub fn array_from_vec<T: Copy>(values: Vec<T>, defaults: Vec<T>) -> (filled: Vec<T>)
    ensures
        filled@ == overlay(values@, defaults@),
{
    let mut filled: Vec<T> = Vec::new();
    let mut i: usize = 0;
    while i < defaults.len()
        invariant
            i <= defaults@.len(),
            filled@.len() == i,
            forall|k: int| 0 <= k < i ==> #[trigger] filled@[k] == overlay(values@, defaults@)[k],
        decreases defaults@.len() - i,
    {
        if i < values.len() {
            filled.push(values[i]);
        } else {
            filled.push(defaults[i]);
        }
        i = i + 1;
    }
    assert(filled@ =~= overlay(values@, defaults@));
    filled
}

/// An equalizer profile with its point frequencies (hertz) and gains
/// (decibels) held as single-precision bit patterns.
#[derive(Clone, Debug)]
pub struct EqProfileBits {
    pub preset: EqPreset,
    pub base_preset: EqPreset,
    pub point_count: u8,
    pub frequency_bits: Vec<u32>,
    pub gain_bits: Vec<u32>,
}

impl EqProfileBits {
    /// Both point arrays hold exactly `EQ_MAX_POINTS` entries.
    pub open spec fn wf(&self) -> bool {
        self.frequency_bits@.len() == EQ_MAX_POINTS && self.gain_bits@.len() == EQ_MAX_POINTS
    }

    /// The flat profile: `Off`, based on `Off`, the band centres at 0 dB.
    pub fn default_profile() -> (profile: Self)
        ensures
            profile.wf(),
            profile.preset == EqPreset::Off,
            profile.base_preset == EqPreset::Off,
            profile.point_count == EQ_BAND_COUNT,
            profile.frequency_bits@ == default_frequency_bits_spec(),
            profile.gain_bits@ == Seq::new(EQ_MAX_POINTS as nat, |i: int| 0u32),
    {
        let gains = vec![0u32; EQ_MAX_POINTS];
        assert(gains@ =~= Seq::new(EQ_MAX_POINTS as nat, |i: int| 0u32));
        EqProfileBits {
            preset: EqPreset::Off,
            base_preset: EqPreset::Off,
            point_count: EQ_BAND_COUNT as u8,
            frequency_bits: default_frequency_bits(),
            gain_bits: gains,
        }
    }

    /// Assembles a profile from the fields of a client's request: preset
    /// numbers are decoded, the point count is kept as sent, and missing
    /// frequencies and gains are filled from the band centres and 0 dB.
    pub fn from_request(
        preset: u8,
        base_preset: u8,
        point_count: u8,
        frequency_bits: Vec<u32>,
        gain_bits: Vec<u32>,
    ) -> (profile: Self)
        ensures
            profile.wf(),
            profile.preset == preset_of_number(preset),
            profile.base_preset == preset_of_number(base_preset),
            profile.point_count == point_count,
            profile.frequency_bits@ == overlay(frequency_bits@, default_frequency_bits_spec()),
            profile.gain_bits@ == overlay(gain_bits@, Seq::new(EQ_MAX_POINTS as nat, |i: int| 0u32)),
    {
        let zeros = vec![0u32; EQ_MAX_POINTS];
        assert(zeros@ =~= Seq::new(EQ_MAX_POINTS as nat, |i: int| 0u32));
        EqProfileBits {
            preset: EqPreset::from_u8(preset),
            base_preset: EqPreset::from_u8(base_preset),
            point_count,
            frequency_bits: array_from_vec(frequency_bits, default_frequency_bits()),
            gain_bits: array_from_vec(gain_bits, zeros),
        }
    }
}

/// The first `count` points of a curve, each a frequency with its gain.
pub open spec fn curve_points(frequency_bits: Seq<u32>, gain_bits: Seq<u32>, count: int) -> Seq<
    (u32, u32),
> {
    Seq::new(count as nat, |i: int| (frequency_bits[i], gain_bits[i]))
}

/// Inserts a point into a curve after every point of lower or equal
/// frequency, looking from the high end.
pub open spec fn insert_point(points: Seq<(u32, u32)>, point: (u32, u32)) -> Seq<(u32, u32)>
    decreases points.len(),
{
    if points.len() == 0 {
        seq![point]
    } else if point.0 < points.last().0 {
        insert_point(points.drop_last(), point).push(points.last())
    } else {
        points.push(point)
    }
}

/// The points ordered by frequency, points of equal frequency in the order
/// they came: each point in turn inserted into the ordered points before it.
pub open spec fn ordered_points(points: Seq<(u32, u32)>) -> Seq<(u32, u32)>
    decreases points.len(),
{
    if points.len() == 0 {
        points
    } else {
        insert_point(ordered_points(points.drop_last()), points.last())
    }
}

/// Whether the frequencies never decrease along the points.
pub open spec fn ascending(points: Seq<(u32, u32)>) -> bool {
    forall|i: int, j: int| 0 <= i <= j < points.len() ==> points[i].0 <= points[j].0
}

proof fn insert_point_at(points: Seq<(u32, u32)>, point: (u32, u32), at: int)
    requires
        0 <= at <= points.len(),
        forall|k: int| at <= k < points.len() ==> point.0 < #[trigger] points[k].0,
        at > 0 ==> points[at - 1].0 <= point.0,
    ensures
        insert_point(points, point) == points.take(at).push(point) + points.skip(at),
    decreases points.len(),
{
    if points.len() == 0 {
        assert(points.take(at).push(point) + points.skip(at) =~= seq![point]);
    } else if at == points.len() {
        assert(points.take(at).push(point) + points.skip(at) =~= points.push(point));
    } else {
        let rest = points.drop_last();
        assert(point.0 < points[points.len() - 1].0);
        assert forall|k: int| at <= k < rest.len() implies point.0 < #[trigger] rest[k].0 by {
            assert(rest[k] == points[k]);
        }
        insert_point_at(rest, point, at);
        assert(rest.take(at).push(point) + rest.skip(at) + seq![points.last()] =~= points.take(
            at,
        ).push(point) + points.skip(at));
    }
}

proof fn insert_point_len(points: Seq<(u32, u32)>, point: (u32, u32))
    ensures
        insert_point(points, point).len() == points.len() + 1,
    decreases points.len(),
{
    if points.len() > 0 && point.0 < points.last().0 {
        insert_point_len(points.drop_last(), point);
    }
}

proof fn ordered_points_len(points: Seq<(u32, u32)>)
    ensures
        ordered_points(points).len() == points.len(),
    decreases points.len(),
{
    if points.len() > 0 {
        ordered_points_len(points.drop_last());
        insert_point_len(ordered_points(points.drop_last()), points.last());
    }
}

proof fn insert_point_keeps_order(points: Seq<(u32, u32)>, point: (u32, u32))
    requires
        ascending(points),
    ensures
        ascending(insert_point(points, point)),
        insert_point(points, point).to_multiset() == points.to_multiset().insert(point),
    decreases points.len(),
{
    broadcast use vstd::seq_lib::group_to_multiset_ensures;

    if points.len() == 0 {
        assert(seq![point] =~= Seq::<(u32, u32)>::empty().push(point));
    } else if point.0 < points.last().0 {
        let rest = points.drop_last();
        insert_point_keeps_order(rest, point);
        let inserted = insert_point(rest, point);
        assert forall|k: int| 0 <= k < inserted.len() implies #[trigger] inserted[k].0
            <= points.last().0 by {
            assert(inserted.to_multiset().count(inserted[k]) > 0);
            assert(rest.to_multiset().insert(point).count(inserted[k]) > 0);
            if inserted[k] != point {
                assert(rest.to_multiset().count(inserted[k]) > 0);
                let j = choose|j: int| 0 <= j < rest.len() && rest[j] == inserted[k];
                assert(rest[j] == points[j]);
            }
        }
        assert(points =~= rest.push(points.last()));
    } else {
    }
}

/// Ordering the points keeps every point, drops none and makes none up, and
/// leaves the frequencies ascending.
pub proof fn ordered_points_are_a_sorted_permutation(points: Seq<(u32, u32)>)
    ensures
        ascending(ordered_points(points)),
        ordered_points(points).to_multiset() == points.to_multiset(),
        ordered_points(points).len() == points.len(),
    decreases points.len(),
{
    broadcast use vstd::seq_lib::group_to_multiset_ensures;

    ordered_points_len(points);
    if points.len() > 0 {
        ordered_points_are_a_sorted_permutation(points.drop_last());
        insert_point_keeps_order(ordered_points(points.drop_last()), points.last());
        assert(points =~= points.drop_last().push(points.last()));
    }
}

/// The point frequencies once the first `count` points are ordered; the
/// entries past `count` stay as they are.
pub open spec fn sanitized_frequencies(frequency_bits: Seq<u32>, gain_bits: Seq<u32>, count: int) -> Seq<
    u32,
> {
    Seq::new(
        frequency_bits.len(),
        |i: int|
            if i < count {
                ordered_points(curve_points(frequency_bits, gain_bits, count))[i].0
            } else {
                frequency_bits[i]
            },
    )
}

/// The point gains once the first `count` points are ordered; the entries
/// past `count` stay as they are.
pub open spec fn sanitized_gains(frequency_bits: Seq<u32>, gain_bits: Seq<u32>, count: int) -> Seq<u32> {
    Seq::new(
        gain_bits.len(),
        |i: int|
            if i < count {
                ordered_points(curve_points(frequency_bits, gain_bits, count))[i].1
            } else {
                gain_bits[i]
            },
    )
}

impl EqProfileBits {
    /// Orders the first `point_count` points by frequency, each gain moving
    /// with its frequency and points of equal frequency keeping their order,
    /// by successive insertion. The frequencies are compared as bit
    /// patterns, which order positive finite numbers as the numbers
    /// themselves; `sanitized` calls it once every counted frequency lies in
    /// `[20, 20000]` Hz.
    fn order_points(&mut self)
        requires
            old(self).wf(),
            old(self).point_count <= EQ_MAX_POINTS,
        ensures
            final(self).wf(),
            final(self).preset == old(self).preset,
            final(self).base_preset == old(self).base_preset,
            final(self).point_count == old(self).point_count,
            curve_points(final(self).frequency_bits@, final(self).gain_bits@, old(self).point_count as int)
                == ordered_points(
                curve_points(old(self).frequency_bits@, old(self).gain_bits@, old(self).point_count as int),
            ),
            final(self).frequency_bits@.skip(old(self).point_count as int) == old(
                self,
            ).frequency_bits@.skip(old(self).point_count as int),
            final(self).gain_bits@.skip(old(self).point_count as int) == old(
                self,
            ).gain_bits@.skip(old(self).point_count as int),
    {
        let count = self.point_count as usize;
        let ghost original = curve_points(self.frequency_bits@, self.gain_bits@, count as int);
        let ghost old_freqs = self.frequency_bits@;
        let ghost old_gains = self.gain_bits@;
        let ghost entry = *self;
        if count == 0 {
            assert(ordered_points(original) =~= curve_points(self.frequency_bits@, self.gain_bits@, 0));
            return;
        }
        let mut index: usize = 1;
        proof {
            let first = original.take(1);
            assert(first.drop_last() =~= Seq::<(u32, u32)>::empty());
            assert(ordered_points(first.drop_last()) =~= Seq::<(u32, u32)>::empty());
            assert(first.last() == original[0]);
            assert(ordered_points(first) =~= seq![original[0]]);
            assert(curve_points(self.frequency_bits@, self.gain_bits@, 1) =~= seq![original[0]]);
        }
        while index < count
            invariant
                1 <= index <= count <= EQ_MAX_POINTS,
                count == self.point_count,
                self.wf(),
                self.preset == entry.preset,
                self.base_preset == entry.base_preset,
                original == curve_points(old_freqs, old_gains, count as int),
                curve_points(self.frequency_bits@, self.gain_bits@, index as int) == ordered_points(
                    original.take(index as int),
                ),
                old_freqs.len() == EQ_MAX_POINTS,
                old_gains.len() == EQ_MAX_POINTS,
                forall|k: int| index <= k < EQ_MAX_POINTS ==> #[trigger] self.frequency_bits@[k]
                    == old_freqs[k],
                forall|k: int| index <= k < EQ_MAX_POINTS ==> #[trigger] self.gain_bits@[k]
                    == old_gains[k],
            decreases count - index,
        {
            let ghost sorted = ordered_points(original.take(index as int));
            let ghost point = original[index as int];
            let mut current: usize = index;
            proof {
                ordered_points_len(original.take(index as int));
                assert(self.frequency_bits@[index as int] == old_freqs[index as int]);
                assert(curve_points(self.frequency_bits@, self.gain_bits@, index + 1) =~= sorted.take(
                    index as int,
                ).push(point) + sorted.skip(index as int));
            }
            while current > 0 && self.frequency_bits[current] < self.frequency_bits[current - 1]
                invariant
                    1 <= index < count <= EQ_MAX_POINTS,
                    0 <= current <= index,
                    count == self.point_count,
                    self.wf(),
                    self.preset == entry.preset,
                    self.base_preset == entry.base_preset,
                    sorted.len() == index,
                    curve_points(self.frequency_bits@, self.gain_bits@, index + 1) == sorted.take(
                        current as int,
                    ).push(point) + sorted.skip(current as int),
                    forall|k: int| current <= k < index ==> point.0 < #[trigger] sorted[k].0,
                    old_freqs.len() == EQ_MAX_POINTS,
                    old_gains.len() == EQ_MAX_POINTS,
                    forall|k: int| index + 1 <= k < EQ_MAX_POINTS ==> #[trigger] self.frequency_bits@[k]
                        == old_freqs[k],
                    forall|k: int| index + 1 <= k < EQ_MAX_POINTS ==> #[trigger] self.gain_bits@[k]
                        == old_gains[k],
                decreases current,
            {
                let ghost before = curve_points(self.frequency_bits@, self.gain_bits@, index + 1);
                assert(before[current as int] == point);
                assert(before[current - 1] == sorted[current - 1]);
                let f = self.frequency_bits[current];
                let g = self.gain_bits[current];
                let f_prev = self.frequency_bits[current - 1];
                let g_prev = self.gain_bits[current - 1];
                self.frequency_bits.set(current, f_prev);
                self.frequency_bits.set(current - 1, f);
                self.gain_bits.set(current, g_prev);
                self.gain_bits.set(current - 1, g);
                current = current - 1;
                proof {
                    let after = curve_points(self.frequency_bits@, self.gain_bits@, index + 1);
                    let target = sorted.take(current as int).push(point) + sorted.skip(current as int);
                    let c = current as int;
                    assert forall|k: int| 0 <= k < index + 1 implies #[trigger] after[k] == target[k] by {
                        if k < c {
                            assert(before[k] == sorted[k]);
                        } else if k == c {
                            assert(before[k + 1] == point);
                        } else if k == c + 1 {
                            assert(before[c] == sorted[c]);
                        } else {
                            assert(before[k] == sorted[k - 1]);
                        }
                    }
                    assert(after =~= target);
                }
            }
            proof {
                let now = curve_points(self.frequency_bits@, self.gain_bits@, index + 1);
                if current > 0 {
                    assert(now[current as int] == point);
                    assert(now[current - 1] == sorted[current - 1]);
                }
                insert_point_at(sorted, point, current as int);
                assert(original.take(index + 1).drop_last() =~= original.take(index as int));
                assert(original.take(index + 1).last() == point);
            }
            index = index + 1;
        }
        assert(original.take(count as int) =~= original);
        assert(self.frequency_bits@.skip(count as int) =~= old_freqs.skip(count as int));
        assert(self.gain_bits@.skip(count as int) =~= old_gains.skip(count as int));
    }
}

/// The band centres rise from 20 Hz to 20 kHz.
pub proof fn band_frequencies_ascend()
    ensures
        forall|i: int, j: int|
            0 <= i <= j < EQ_BAND_COUNT ==> band_frequency_bits_spec()[i]
                <= band_frequency_bits_spec()[j],
        band_frequency_bits_spec()[0] == TWENTY,
        band_frequency_bits_spec()[EQ_BAND_COUNT - 1] == TWENTY_THOUSAND,
{
    let bands = band_frequency_bits_spec();
    assert forall|i: int| 0 <= i < EQ_BAND_COUNT - 1 implies #[trigger] bands[i] < bands[i + 1] by {
        assert(bands[0] < bands[1] && bands[1] < bands[2] && bands[2] < bands[3] && bands[3]
            < bands[4] && bands[4] < bands[5] && bands[5] < bands[6] && bands[6] < bands[7]
            && bands[7] < bands[8] && bands[8] < bands[9] && bands[9] < bands[10] && bands[10]
            < bands[11] && bands[11] < bands[12] && bands[12] < bands[13] && bands[13] < bands[14]
            && bands[14] < bands[15] && bands[15] < bands[16] && bands[16] < bands[17]
            && bands[17] < bands[18] && bands[18] < bands[19] && bands[19] < bands[20]
            && bands[20] < bands[21] && bands[21] < bands[22] && bands[22] < bands[23]
            && bands[23] < bands[24] && bands[24] < bands[25] && bands[25] < bands[26]
            && bands[26] < bands[27] && bands[27] < bands[28] && bands[28] < bands[29]
            && bands[29] < bands[30]);
    }
    assert forall|i: int, j: int| 0 <= i <= j < EQ_BAND_COUNT implies bands[i] <= bands[j] by {
        adjacent_steps_ascend(bands, i, j);
    }
}

proof fn adjacent_steps_ascend(values: Seq<u32>, i: int, j: int)
    requires
        0 <= i <= j < values.len(),
        forall|k: int| 0 <= k < values.len() - 1 ==> #[trigger] values[k] < values[k + 1],
    ensures
        values[i] <= values[j],
    decreases j - i,
{
    if i < j {
        adjacent_steps_ascend(values, i, j - 1);
        assert(values[j - 1] < values[j]);
    }
}

/// A gain as the engine takes it: clamped into `[-12, 12]` dB, 0 dB if it is
/// not finite.
pub open spec fn clamped_gain(gain: u32) -> u32 {
    if is_finite(gain) {
        clamped(gain, MINUS_TWELVE, TWELVE)
    } else {
        ZERO
    }
}

/// The frequency at position `index` as the engine takes it: clamped into
/// `[20, 20000]` Hz, or the band centre at that position (the highest band
/// past the last) if it is not finite.
pub open spec fn clamped_frequency(frequency: u32, index: int) -> u32 {
    if is_finite(frequency) {
        clamped(frequency, TWENTY, TWENTY_THOUSAND)
    } else if index < EQ_BAND_COUNT {
        band_frequency_bits_spec()[index]
    } else {
        band_frequency_bits_spec()[EQ_BAND_COUNT - 1]
    }
}

/// Every gain clamped.
pub open spec fn clamped_gains(gain_bits: Seq<u32>) -> Seq<u32> {
    Seq::new(gain_bits.len(), |i: int| clamped_gain(gain_bits[i]))
}

/// The first `count` frequencies clamped, the rest as they are.
pub open spec fn clamped_frequencies(frequency_bits: Seq<u32>, count: int) -> Seq<u32> {
    Seq::new(
        frequency_bits.len(),
        |i: int|
            if i < count {
                clamped_frequency(frequency_bits[i], i)
            } else {
                frequency_bits[i]
            },
    )
}

/// The frequencies of a sanitized curve of `count` points: clamped, then the
/// counted points ordered.
pub open spec fn curve_frequencies(frequency_bits: Seq<u32>, gain_bits: Seq<u32>, count: int) -> Seq<
    u32,
> {
    sanitized_frequencies(clamped_frequencies(frequency_bits, count), clamped_gains(gain_bits), count)
}

/// The gains of a sanitized curve of `count` points: clamped, then the counted
/// points ordered.
pub open spec fn curve_gains(frequency_bits: Seq<u32>, gain_bits: Seq<u32>, count: int) -> Seq<u32> {
    sanitized_gains(clamped_frequencies(frequency_bits, count), clamped_gains(gain_bits), count)
}

proof fn clamped_frequency_in_range(frequency: u32, index: int)
    requires
        0 <= index,
    ensures
        TWENTY <= clamped_frequency(frequency, index) <= TWENTY_THOUSAND,
{
    band_frequencies_ascend();
    clamp_into_positive_range(frequency, TWENTY, TWENTY_THOUSAND);
    if index < EQ_BAND_COUNT && !is_finite(frequency) {
        assert(band_frequency_bits_spec()[0] <= band_frequency_bits_spec()[index]);
        assert(band_frequency_bits_spec()[index] <= band_frequency_bits_spec()[EQ_BAND_COUNT - 1]);
    }
}

impl EqProfileBits {
    fn clamp_values(&mut self)
        requires
            old(self).wf(),
            old(self).point_count <= EQ_MAX_POINTS,
        ensures
            final(self).wf(),
            final(self).preset == old(self).preset,
            final(self).base_preset == old(self).base_preset,
            final(self).point_count == old(self).point_count,
            final(self).frequency_bits@ == clamped_frequencies(
                old(self).frequency_bits@,
                old(self).point_count as int,
            ),
            final(self).gain_bits@ == clamped_gains(old(self).gain_bits@),
    {
        let ghost entry = *self;
        let bands = band_frequency_bits();
        let mut i: usize = 0;
        while i < EQ_MAX_POINTS
            invariant
                i <= EQ_MAX_POINTS,
                self.wf(),
                self.preset == entry.preset,
                self.base_preset == entry.base_preset,
                self.point_count == entry.point_count,
                self.frequency_bits@ == entry.frequency_bits@,
                entry.gain_bits@.len() == EQ_MAX_POINTS,
                forall|k: int| 0 <= k < i ==> #[trigger] self.gain_bits@[k] == clamped_gain(entry.gain_bits@[k]),
                forall|k: int| i <= k < EQ_MAX_POINTS ==> #[trigger] self.gain_bits@[k] == entry.gain_bits@[k],
            decreases EQ_MAX_POINTS - i,
        {
            let gain = self.gain_bits[i];
            let kept = if bits_is_finite(gain) {
                bits_clamp(gain, MINUS_TWELVE, TWELVE)
            } else {
                ZERO
            };
            self.gain_bits.set(i, kept);
            i = i + 1;
        }
        assert(self.gain_bits@ =~= clamped_gains(entry.gain_bits@));
        let count = self.point_count as usize;
        let mut i: usize = 0;
        while i < count
            invariant
                i <= count <= EQ_MAX_POINTS,
                count == entry.point_count,
                bands@ == band_frequency_bits_spec(),
                self.wf(),
                self.preset == entry.preset,
                self.base_preset == entry.base_preset,
                self.point_count == entry.point_count,
                self.gain_bits@ == clamped_gains(entry.gain_bits@),
                entry.frequency_bits@.len() == EQ_MAX_POINTS,
                forall|k: int| 0 <= k < i ==> #[trigger] self.frequency_bits@[k] == clamped_frequency(entry.frequency_bits@[k], k),
                forall|k: int| i <= k < EQ_MAX_POINTS ==> #[trigger] self.frequency_bits@[k] == entry.frequency_bits@[k],
            decreases count - i,
        {
            let frequency = self.frequency_bits[i];
            let kept = if bits_is_finite(frequency) {
                bits_clamp(frequency, TWENTY, TWENTY_THOUSAND)
            } else if i < EQ_BAND_COUNT {
                bands[i]
            } else {
                bands[EQ_BAND_COUNT - 1]
            };
            self.frequency_bits.set(i, kept);
            i = i + 1;
        }
        assert(self.frequency_bits@ =~= clamped_frequencies(entry.frequency_bits@, count as int));
    }
}

impl EqProfileBits {
    /// The profile as the engine uses it: a `Custom` base falls back to
    /// `Off`; the point count is brought into `1..=EQ_MAX_POINTS` (none means
    /// the band count); every gain is clamped into `[-12, 12]` dB (0 dB if not
    /// finite); each counted frequency is clamped into `[20, 20000]` Hz (its
    /// band centre if not finite); and the counted points are ordered by
    /// frequency, each gain moving with its frequency and equal frequencies
    /// keeping their order. The counted frequencies end up in `[20, 20000]`
    /// Hz, where the order of the bit patterns is the order of the numbers
    /// (`positive_order_is_pattern_order`).
    pub fn sanitized(self) -> (profile: Self)
        requires
            self.wf(),
        ensures
            profile.wf(),
            profile.preset == self.preset,
            profile.base_preset == sanitized_base_preset_spec(self.base_preset),
            profile.point_count == sanitized_point_count_spec(self.point_count),
            curve_points(profile.frequency_bits@, profile.gain_bits@, profile.point_count as int)
                == ordered_points(
                curve_points(
                    clamped_frequencies(self.frequency_bits@, profile.point_count as int),
                    clamped_gains(self.gain_bits@),
                    profile.point_count as int,
                ),
            ),
            profile.frequency_bits@ == curve_frequencies(
                self.frequency_bits@,
                self.gain_bits@,
                profile.point_count as int,
            ),
            profile.gain_bits@ == curve_gains(
                self.frequency_bits@,
                self.gain_bits@,
                profile.point_count as int,
            ),
            forall|i: int|
                0 <= i < profile.point_count ==> TWENTY <= #[trigger] profile.frequency_bits@[i]
                    <= TWENTY_THOUSAND,
    {
        let ghost original = self;
        let mut profile = self;
        profile.base_preset = sanitized_base_preset(profile.base_preset);
        profile.point_count = sanitized_point_count(profile.point_count);
        profile.clamp_values();
        let ghost input = profile;
        profile.order_points();
        proof {
            let count = profile.point_count as int;
            let sorted = ordered_points(curve_points(input.frequency_bits@, input.gain_bits@, count));
            let now = curve_points(profile.frequency_bits@, profile.gain_bits@, count);
            assert forall|i: int| 0 <= i < EQ_MAX_POINTS implies #[trigger] profile.frequency_bits@[i]
                == sanitized_frequencies(input.frequency_bits@, input.gain_bits@, count)[i] by {
                if i < count {
                    assert(now[i] == sorted[i]);
                } else {
                    assert(profile.frequency_bits@.skip(count)[i - count] == input.frequency_bits@.skip(count)[i - count]);
                }
            }
            assert forall|i: int| 0 <= i < EQ_MAX_POINTS implies #[trigger] profile.gain_bits@[i]
                == sanitized_gains(input.frequency_bits@, input.gain_bits@, count)[i] by {
                if i < count {
                    assert(now[i] == sorted[i]);
                } else {
                    assert(profile.gain_bits@.skip(count)[i - count] == input.gain_bits@.skip(count)[i - count]);
                }
            }
            assert(profile.frequency_bits@ =~= sanitized_frequencies(input.frequency_bits@, input.gain_bits@, count));
            assert(profile.gain_bits@ =~= sanitized_gains(input.frequency_bits@, input.gain_bits@, count));
            let points = curve_points(input.frequency_bits@, input.gain_bits@, count);
            ordered_points_are_a_sorted_permutation(points);
            assert forall|i: int| 0 <= i < count implies TWENTY <= #[trigger] profile.frequency_bits@[i]
                <= TWENTY_THOUSAND by {
                broadcast use vstd::seq_lib::group_to_multiset_ensures;

                assert(now[i] == sorted[i]);
                assert(sorted.to_multiset().count(sorted[i]) > 0);
                assert(points.to_multiset().count(sorted[i]) > 0);
                let j = choose|j: int| 0 <= j < points.len() && points[j] == sorted[i];
                clamped_frequency_in_range(original.frequency_bits@[j], j);
                assert(points[j].0 == input.frequency_bits@[j]);
            }
        }
        profile
    }
}

proof fn ordered_points_of_ascending(points: Seq<(u32, u32)>)
    requires
        ascending(points),
    ensures
        ordered_points(points) == points,
    decreases points.len(),
{
    if points.len() > 0 {
        let rest = points.drop_last();
        assert(ascending(rest));
        ordered_points_of_ascending(rest);
        assert(rest.len() > 0 ==> rest.last().0 <= points.last().0);
        assert(rest.push(points.last()) =~= points);
    }
}

/// The band layout at 0 dB is already sanitized: reading it back sanitized
/// gives it unchanged.
pub proof fn band_layout_reads_back_unchanged()
    ensures
        curve_frequencies(
            default_frequency_bits_spec(),
            Seq::new(EQ_MAX_POINTS as nat, |i: int| 0u32),
            EQ_BAND_COUNT as int,
        ) == default_frequency_bits_spec(),
        curve_gains(
            default_frequency_bits_spec(),
            Seq::new(EQ_MAX_POINTS as nat, |i: int| 0u32),
            EQ_BAND_COUNT as int,
        ) == Seq::new(EQ_MAX_POINTS as nat, |i: int| 0u32),
{
    let layout = default_frequency_bits_spec();
    let flat = Seq::new(EQ_MAX_POINTS as nat, |i: int| 0u32);
    let count = EQ_BAND_COUNT as int;
    band_frequencies_ascend();
    assert(is_finite(0u32));
    assert(clamped_gains(flat) =~= flat);
    assert forall|i: int| 0 <= i < count implies clamped_frequency(#[trigger] layout[i], i) == layout[i] by {
        assert(layout[i] == band_frequency_bits_spec()[i]);
        assert(band_frequency_bits_spec()[0] <= layout[i] <= band_frequency_bits_spec()[count - 1]);
        assert(layout[i] / 0x80_0000 < 255);
    }
    assert(clamped_frequencies(layout, count) =~= layout);
    let points = curve_points(layout, flat, count);
    assert forall|i: int, j: int| 0 <= i <= j < points.len() implies points[i].0 <= points[j].0 by {
        assert(points[i].0 == band_frequency_bits_spec()[i]);
        assert(points[j].0 == band_frequency_bits_spec()[j]);
    }
    ordered_points_of_ascending(points);
    assert(sanitized_frequencies(layout, flat, count) =~= layout);
    assert(sanitized_gains(layout, flat, count) =~= flat);
}

proof fn clamped_gain_is_stable(gain: u32)
    ensures
        clamped_gain(clamped_gain(gain)) == clamped_gain(gain),
{
    assert(is_finite(MINUS_TWELVE) && is_finite(TWELVE) && is_finite(ZERO));
    assert(!is_nan(MINUS_TWELVE) && !is_nan(TWELVE));
    assert(!less(TWELVE, MINUS_TWELVE));
    if is_finite(gain) {
        clamp_keeps_finite(gain, MINUS_TWELVE, TWELVE);
        clamp_is_idempotent(gain, MINUS_TWELVE, TWELVE);
    } else {
        assert(clamped(ZERO, MINUS_TWELVE, TWELVE) == ZERO);
    }
}

proof fn in_range_frequency_is_stable(frequency: u32, index: int)
    requires
        TWENTY <= frequency <= TWENTY_THOUSAND,
    ensures
        clamped_frequency(frequency, index) == frequency,
{
    assert(frequency / 0x80_0000 < 255);
    assert(TWENTY / 0x80_0000 < 255);
    assert(TWENTY_THOUSAND / 0x80_0000 < 255);
}

/// A sanitized curve: its counted frequencies lie in `[20, 20000]` Hz, its
/// gains are clamped gains, and its counted points ascend.
proof fn sanitized_curve_shape(frequency_bits: Seq<u32>, gain_bits: Seq<u32>, count: int)
    requires
        frequency_bits.len() == EQ_MAX_POINTS,
        gain_bits.len() == EQ_MAX_POINTS,
        1 <= count <= EQ_MAX_POINTS,
    ensures
        ({
            let f = curve_frequencies(frequency_bits, gain_bits, count);
            let g = curve_gains(frequency_bits, gain_bits, count);
            &&& f.len() == EQ_MAX_POINTS
            &&& g.len() == EQ_MAX_POINTS
            &&& forall|i: int| 0 <= i < count ==> TWENTY <= #[trigger] f[i] <= TWENTY_THOUSAND
            &&& forall|i: int| 0 <= i < EQ_MAX_POINTS ==> clamped_gain(#[trigger] g[i]) == g[i]
            &&& ascending(curve_points(f, g, count))
        }),
{
    broadcast use vstd::seq_lib::group_to_multiset_ensures;

    let cf = clamped_frequencies(frequency_bits, count);
    let cg = clamped_gains(gain_bits);
    let points = curve_points(cf, cg, count);
    let sorted = ordered_points(points);
    ordered_points_are_a_sorted_permutation(points);
    let f = curve_frequencies(frequency_bits, gain_bits, count);
    let g = curve_gains(frequency_bits, gain_bits, count);
    assert forall|i: int| 0 <= i < count implies TWENTY <= #[trigger] f[i] <= TWENTY_THOUSAND
        && clamped_gain(g[i]) == g[i] by {
        assert(f[i] == sorted[i].0 && g[i] == sorted[i].1);
        assert(sorted.to_multiset().count(sorted[i]) > 0);
        assert(points.to_multiset().count(sorted[i]) > 0);
        let j = choose|j: int| 0 <= j < points.len() && points[j] == sorted[i];
        clamped_frequency_in_range(frequency_bits[j], j);
        clamped_gain_is_stable(gain_bits[j]);
    }
    assert forall|i: int| 0 <= i < EQ_MAX_POINTS implies clamped_gain(#[trigger] g[i]) == g[i] by {
        if i < count {
            assert(g[i] == sorted[i].1);
            assert(sorted.to_multiset().count(sorted[i]) > 0);
            assert(points.to_multiset().count(sorted[i]) > 0);
            let j = choose|j: int| 0 <= j < points.len() && points[j] == sorted[i];
            clamped_gain_is_stable(gain_bits[j]);
        } else {
            clamped_gain_is_stable(gain_bits[i]);
        }
    }
    assert(curve_points(f, g, count) =~= sorted);
}

/// Sanitizing is idempotent: a sanitized profile sanitizes to itself, so a
/// stored profile reads back exactly as it was stored.
pub proof fn sanitizing_is_idempotent(
    base_preset: EqPreset,
    point_count: u8,
    frequency_bits: Seq<u32>,
    gain_bits: Seq<u32>,
)
    requires
        frequency_bits.len() == EQ_MAX_POINTS,
        gain_bits.len() == EQ_MAX_POINTS,
    ensures
        ({
            let count = sanitized_point_count_spec(point_count);
            let f = curve_frequencies(frequency_bits, gain_bits, count as int);
            let g = curve_gains(frequency_bits, gain_bits, count as int);
            &&& sanitized_base_preset_spec(sanitized_base_preset_spec(base_preset))
                == sanitized_base_preset_spec(base_preset)
            &&& sanitized_point_count_spec(count) == count
            &&& curve_frequencies(f, g, count as int) == f
            &&& curve_gains(f, g, count as int) == g
        }),
{
    let count = sanitized_point_count_spec(point_count) as int;
    let f = curve_frequencies(frequency_bits, gain_bits, count);
    let g = curve_gains(frequency_bits, gain_bits, count);
    sanitized_curve_shape(frequency_bits, gain_bits, count);
    assert forall|i: int| 0 <= i < count implies clamped_frequency(#[trigger] f[i], i) == f[i] by {
        in_range_frequency_is_stable(f[i], i);
    }
    assert(clamped_frequencies(f, count) =~= f);
    assert(clamped_gains(g) =~= g);
    ordered_points_of_ascending(curve_points(f, g, count));
    assert(sanitized_frequencies(f, g, count) =~= f);
    assert(sanitized_gains(f, g, count) =~= g);
}

} // verus!
