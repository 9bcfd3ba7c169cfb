use vstd::prelude::*;
use crate::saq::daemon::Request;
use crate::saq::eq::{
    ascending, curve_points, default_frequency_bits, default_frequency_bits_spec, EqPreset,
    EqProfileBits, EQ_BAND_COUNT, EQ_MAX_POINTS,
};
use crate::saq::mode::mode_number;
use crate::single::{
    bits_clamp, bits_less, clamped, is_finite, less, positive_order_is_pattern_order,
    MINUS_TWELVE, TWELVE, TWENTY, TWENTY_THOUSAND,
};
use crate::saq::mode::Mode;

verus! {

/// The pixel icon drawn on each mode button.
#[derive(Clone, Copy, Debug, PartialEq, Eq, Structural)]
pub enum ModeIcon {
    Spatial,
    Stereo,
    Orbit,
    Cube,
    Room,
    Clarity,
    Night,
}

/// The mode selected after a click on a mode button: clicking the selected
/// mode turns processing off, clicking another mode selects it.
pub open spec fn toggled(selected: Mode, clicked: Mode) -> Mode {
    if selected == clicked {
        Mode::Off
    } else {
        clicked
    }
}

/// The mode selected after `clicked` is pressed while `selected` is active.
pub fn toggle(selected: Mode, clicked: Mode) -> (mode: Mode)
    ensures
        mode == toggled(selected, clicked),
{
    if selected == clicked {
        Mode::Off
    } else {
        clicked
    }
}

/// The rows of an icon, top to bottom: `#` is a lit pixel, `.` a dark one.
pub open spec fn icon_rows(icon: ModeIcon) -> Seq<Seq<char>> {
    match icon {
        ModeIcon::Spatial => seq![
            "#...#...#"@,
            ".#..#..#."@,
            "..#.#.#.."@,
            "...###..."@,
            "####.####"@,
            "...###..."@,
            "..#.#.#.."@,
            ".#..#..#."@,
            "#...#...#"@,
        ],
        ModeIcon::Stereo => seq![
            ".###...###."@,
            ".#.#...#.#."@,
            ".###...###."@,
            ".#.#...#.#."@,
            ".###...###."@,
            ".#.#...#.#."@,
            ".###...###."@,
        ],
        ModeIcon::Orbit => seq![
            "..#####.."@,
            ".#.....#."@,
            "#..###..#"@,
            "#.#...#.#"@,
            "#.#.#.#.#"@,
            "#.#...#.#"@,
            "#..###..#"@,
            ".#.....#."@,
            "..#####.."@,
        ],
        ModeIcon::Cube => seq![
            "....#...."@,
            "..##.##.."@,
            "##.....##"@,
            "#.#...#.#"@,
            "#..#.#..#"@,
            "#...#...#"@,
            "##..#..##"@,
            "..#####.."@,
            "....#...."@,
        ],
        ModeIcon::Room => seq![
            "......#.."@,
            ".......#."@,
            "....#..#."@,
            ".....#..#"@,
            "..#..#..#"@,
            ".....#..#"@,
            "....#..#."@,
            ".......#."@,
            "......#.."@,
        ],
        ModeIcon::Clarity => seq![
            "......#.."@,
            "..#...#.."@,
            "..#..#.#."@,
            ".#.#.#.#."@,
            ".#.#.#..#"@,
            "#...#...#"@,
            "#.......#"@,
        ],
        ModeIcon::Night => seq![
            "........."@,
            "...#####."@,
            "..###...."@,
            "..##....."@,
            "..##....."@,
            "..##....."@,
            "..###...."@,
            "...#####."@,
            "........."@,
        ],
    }
}

/// The number of pixels in each row of an icon.
pub open spec fn icon_width(icon: ModeIcon) -> nat {
    match icon {
        ModeIcon::Spatial => 9,
        ModeIcon::Stereo => 11,
        ModeIcon::Orbit => 9,
        ModeIcon::Cube => 9,
        ModeIcon::Room => 9,
        ModeIcon::Clarity => 9,
        ModeIcon::Night => 9,
    }
}

/// Whether a row is `width` pixels of `#` and `.` only.
pub open spec fn is_pixel_row(row: Seq<char>, width: nat) -> bool {
    &&& row.len() == width
    &&& forall|x: int| 0 <= x < row.len() ==> (#[trigger] row[x] == '#' || row[x] == '.')
}

impl ModeIcon {
    /// The pixel rows of the icon.
    pub fn pattern(self) -> (rows: &'static [&'static str])
        ensures
            rows@.len() == icon_rows(self).len(),
            forall|i: int| 0 <= i < rows@.len() ==> #[trigger] rows@[i]@ == icon_rows(self)[i],
    {
        match self {
            ModeIcon::Spatial => &[
                "#...#...#",
                ".#..#..#.",
                "..#.#.#..",
                "...###...",
                "####.####",
                "...###...",
                "..#.#.#..",
                ".#..#..#.",
                "#...#...#",
            ],
            ModeIcon::Stereo => &[
                ".###...###.",
                ".#.#...#.#.",
                ".###...###.",
                ".#.#...#.#.",
                ".###...###.",
                ".#.#...#.#.",
                ".###...###.",
            ],
            ModeIcon::Orbit => &[
                "..#####..",
                ".#.....#.",
                "#..###..#",
                "#.#...#.#",
                "#.#.#.#.#",
                "#.#...#.#",
                "#..###..#",
                ".#.....#.",
                "..#####..",
            ],
            ModeIcon::Cube => &[
                "....#....",
                "..##.##..",
                "##.....##",
                "#.#...#.#",
                "#..#.#..#",
                "#...#...#",
                "##..#..##",
                "..#####..",
                "....#....",
            ],
            ModeIcon::Room => &[
                "......#..",
                ".......#.",
                "....#..#.",
                ".....#..#",
                "..#..#..#",
                ".....#..#",
                "....#..#.",
                ".......#.",
                "......#..",
            ],
            ModeIcon::Clarity => &[
                "......#..",
                "..#...#..",
                "..#..#.#.",
                ".#.#.#.#.",
                ".#.#.#..#",
                "#...#...#",
                "#.......#",
            ],
            ModeIcon::Night => &[
                ".........",
                "...#####.",
                "..###....",
                "..##.....",
                "..##.....",
                "..##.....",
                "..###....",
                "...#####.",
                ".........",
            ],
        }
    }
}

/// Every icon is a rectangle of pixels: all its rows have the icon's width and
/// hold only `#` and `.`, so its width can be read off its first row.
pub proof fn icons_are_pixel_grids(icon: ModeIcon)
    ensures
        icon_rows(icon).len() > 0,
        forall|y: int|
            0 <= y < icon_rows(icon).len() ==> is_pixel_row(#[trigger] icon_rows(icon)[y], icon_width(icon)),
{
    reveal_strlit("#...#...#");
    reveal_strlit(".#..#..#.");
    reveal_strlit("..#.#.#..");
    reveal_strlit("...###...");
    reveal_strlit("####.####");
    reveal_strlit(".###...###.");
    reveal_strlit(".#.#...#.#.");
    reveal_strlit("..#####..");
    reveal_strlit(".#.....#.");
    reveal_strlit("#..###..#");
    reveal_strlit("#.#...#.#");
    reveal_strlit("#.#.#.#.#");
    reveal_strlit("....#....");
    reveal_strlit("..##.##..");
    reveal_strlit("##.....##");
    reveal_strlit("#..#.#..#");
    reveal_strlit("##..#..##");
    reveal_strlit("......#..");
    reveal_strlit(".......#.");
    reveal_strlit("....#..#.");
    reveal_strlit(".....#..#");
    reveal_strlit("..#..#..#");
    reveal_strlit("..#...#..");
    reveal_strlit("..#..#.#.");
    reveal_strlit(".#.#.#.#.");
    reveal_strlit(".#.#.#..#");
    reveal_strlit("#.......#");
    reveal_strlit(".........");
    reveal_strlit("...#####.");
    reveal_strlit("..###....");
    reveal_strlit("..##.....");
}

/// Where a point at `frequency` goes among the first `count` points: the
/// first position from `from` on whose frequency is not below it (as `f32`
/// compares), or `count`.
pub open spec fn insertion_index(frequency_bits: Seq<u32>, count: int, frequency: u32, from: int) -> int
    decreases count - from,
{
    if from >= count || !less(frequency_bits[from], frequency) {
        from
    } else {
        insertion_index(frequency_bits, count, frequency, from + 1)
    }
}

/// The points after inserting `value` at `at` among the first `count`: the
/// entries from `at` move up by one, the one past `count` is overwritten.
pub open spec fn inserted_at(values: Seq<u32>, count: int, at: int, value: u32) -> Seq<u32> {
    values.take(at).push(value) + values.subrange(at, count) + values.skip(count + 1)
}

/// Adds a point to a curve of `point_count` points and answers its position:
/// the frequency is clamped into `[20, 20000]` Hz and the gain into
/// `[-12, 12]` dB (as `f32::clamp`, which keeps a NaN), and the point goes
/// after the leading points whose frequency is below it. A full curve
/// (`EQ_MAX_POINTS` points) takes no point and answers `None`. Values are
/// single-precision bit patterns.
pub fn insert_eq_point(
    point_count: &mut u8,
    frequency_bits: &mut Vec<u32>,
    gain_bits: &mut Vec<u32>,
    frequency: u32,
    gain: u32,
) -> (inserted: Option<usize>)
    requires
        old(frequency_bits)@.len() == EQ_MAX_POINTS,
        old(gain_bits)@.len() == EQ_MAX_POINTS,
    ensures
        final(frequency_bits)@.len() == EQ_MAX_POINTS,
        final(gain_bits)@.len() == EQ_MAX_POINTS,
        *old(point_count) >= EQ_MAX_POINTS ==> inserted.is_none() && *final(point_count) == *old(
            point_count,
        ) && final(frequency_bits)@ == old(frequency_bits)@ && final(gain_bits)@ == old(gain_bits)@,
        *old(point_count) < EQ_MAX_POINTS ==> ({
            let count = *old(point_count) as int;
            let f = clamped(frequency, TWENTY, TWENTY_THOUSAND);
            let at = insertion_index(old(frequency_bits)@, count, f, 0);
            &&& inserted == Some(at as usize)
            &&& *final(point_count) == count + 1
            &&& final(frequency_bits)@ == inserted_at(old(frequency_bits)@, count, at, f)
            &&& final(gain_bits)@ == inserted_at(
                old(gain_bits)@,
                count,
                at,
                clamped(gain, MINUS_TWELVE, TWELVE),
            )
        }),
{
    let count = *point_count as usize;
    if count >= EQ_MAX_POINTS {
        return None;
    }
    let frequency = bits_clamp(frequency, TWENTY, TWENTY_THOUSAND);
    let gain = bits_clamp(gain, MINUS_TWELVE, TWELVE);
    let ghost old_freqs = frequency_bits@;
    let ghost old_gains = gain_bits@;
    let mut insertion: usize = 0;
    while insertion < count && bits_less(frequency_bits[insertion], frequency)
        invariant
            0 <= insertion <= count < EQ_MAX_POINTS,
            frequency_bits@ == old_freqs,
            frequency_bits@.len() == EQ_MAX_POINTS,
            insertion_index(old_freqs, count as int, frequency, 0) == insertion_index(
                old_freqs,
                count as int,
                frequency,
                insertion as int,
            ),
        decreases count - insertion,
    {
        insertion = insertion + 1;
    }
    let mut index: usize = count;
    while index > insertion
        invariant
            insertion <= index <= count < EQ_MAX_POINTS,
            frequency_bits@.len() == EQ_MAX_POINTS,
            gain_bits@.len() == EQ_MAX_POINTS,
            forall|k: int| 0 <= k <= index ==> #[trigger] frequency_bits@[k] == old_freqs[k],
            forall|k: int| 0 <= k <= index ==> #[trigger] gain_bits@[k] == old_gains[k],
            forall|k: int| index < k <= count ==> #[trigger] frequency_bits@[k] == old_freqs[k - 1],
            forall|k: int| index < k <= count ==> #[trigger] gain_bits@[k] == old_gains[k - 1],
            forall|k: int| count < k < EQ_MAX_POINTS ==> #[trigger] frequency_bits@[k] == old_freqs[k],
            forall|k: int| count < k < EQ_MAX_POINTS ==> #[trigger] gain_bits@[k] == old_gains[k],
        decreases index,
    {
        let f = frequency_bits[index - 1];
        let g = gain_bits[index - 1];
        frequency_bits.set(index, f);
        gain_bits.set(index, g);
        index = index - 1;
    }
    frequency_bits.set(insertion, frequency);
    gain_bits.set(insertion, gain);
    *point_count = *point_count + 1;
    proof {
        let at = insertion as int;
        let c = count as int;
        assert(frequency_bits@ =~= inserted_at(old_freqs, c, at, frequency));
        assert(gain_bits@ =~= inserted_at(old_gains, c, at, gain));
    }
    Some(insertion)
}

/// In an ascending curve of finite positive frequencies the new point goes
/// after every point of lower frequency and before every other, so the
/// curve stays ascending.
pub proof fn inserted_point_keeps_the_curve_ascending(
    frequency_bits: Seq<u32>,
    gain_bits: Seq<u32>,
    count: int,
    frequency: u32,
    gain: u32,
)
    requires
        0 <= count < EQ_MAX_POINTS,
        frequency_bits.len() == EQ_MAX_POINTS,
        gain_bits.len() == EQ_MAX_POINTS,
        ascending(curve_points(frequency_bits, gain_bits, count)),
        forall|k: int| 0 <= k < count ==> #[trigger] frequency_bits[k] < 0x7f80_0000,
        frequency < 0x7f80_0000,
    ensures
        ({
            let at = insertion_index(frequency_bits, count, frequency, 0);
            &&& 0 <= at <= count
            &&& forall|k: int| 0 <= k < at ==> #[trigger] frequency_bits[k] < frequency
            &&& forall|k: int| at <= k < count ==> frequency <= #[trigger] frequency_bits[k]
            &&& ascending(
                curve_points(
                    inserted_at(frequency_bits, count, at, frequency),
                    inserted_at(gain_bits, count, at, gain),
                    count + 1,
                ),
            )
        }),
{
    assert(is_finite(frequency)) by {
        assert(frequency / 0x80_0000 < 255);
    }
    assert forall|k: int| 0 <= k < count implies #[trigger] less(frequency_bits[k], frequency)
        == (frequency_bits[k] < frequency) by {
        assert(frequency_bits[k] / 0x80_0000 < 255);
        positive_order_is_pattern_order(frequency_bits[k], frequency);
    }
    let points = curve_points(frequency_bits, gain_bits, count);
    insertion_index_bounds(frequency_bits, count, frequency, 0, points);
    let at = insertion_index(frequency_bits, count, frequency, 0);
    let new_freqs = inserted_at(frequency_bits, count, at, frequency);
    let new_points = curve_points(new_freqs, inserted_at(gain_bits, count, at, gain), count + 1);
    assert forall|k: int| 0 <= k < count + 1 implies #[trigger] new_freqs[k] == if k < at {
        frequency_bits[k]
    } else if k == at {
        frequency
    } else {
        frequency_bits[k - 1]
    } by {
        if k < at {
        } else if k == at {
        } else {
            assert(new_freqs[k] == frequency_bits.subrange(at, count)[k - at - 1]);
        }
    }
    assert forall|i: int, j: int| 0 <= i <= j < new_points.len() implies new_points[i].0
        <= new_points[j].0 by {
        assert(new_points[i].0 == new_freqs[i]);
        assert(new_points[j].0 == new_freqs[j]);
        if i < at && j < at {
            assert(points[i].0 <= points[j].0);
        } else if i > at && j > at {
            assert(points[i - 1].0 <= points[j - 1].0);
        } else if i < at && j > at {
            assert(points[i].0 <= points[j - 1].0);
        }
    }
}

proof fn insertion_index_bounds(
    frequency_bits: Seq<u32>,
    count: int,
    frequency: u32,
    from: int,
    points: Seq<(u32, u32)>,
)
    requires
        0 <= from <= count,
        count <= frequency_bits.len(),
        points.len() == count,
        forall|k: int| 0 <= k < count ==> #[trigger] points[k].0 == frequency_bits[k],
        ascending(points),
        forall|k: int| 0 <= k < count ==> #[trigger] less(frequency_bits[k], frequency) == (
        frequency_bits[k] < frequency),
        forall|k: int| 0 <= k < from ==> #[trigger] frequency_bits[k] < frequency,
    ensures
        ({
            let at = insertion_index(frequency_bits, count, frequency, from);
            &&& from <= at <= count
            &&& forall|k: int| 0 <= k < at ==> #[trigger] frequency_bits[k] < frequency
            &&& forall|k: int| at <= k < count ==> frequency <= #[trigger] frequency_bits[k]
        }),
    decreases count - from,
{
    if from < count && less(frequency_bits[from], frequency) {
        insertion_index_bounds(frequency_bits, count, frequency, from + 1, points);
    } else if from < count {
        assert forall|k: int| from <= k < count implies frequency <= #[trigger] frequency_bits[k] by {
            assert(points[from].0 <= points[k].0);
        }
    }
}

/// The band layout at 0 dB.
fn reset_points(profile: &mut EqProfileBits)
    ensures
        final(profile).wf(),
        final(profile).preset == old(profile).preset,
        final(profile).base_preset == old(profile).base_preset,
        final(profile).point_count == EQ_BAND_COUNT,
        final(profile).frequency_bits@ == default_frequency_bits_spec(),
        final(profile).gain_bits@ == Seq::new(EQ_MAX_POINTS as nat, |i: int| 0u32),
{
    let gains = vec![0u32; EQ_MAX_POINTS];
    assert(gains@ =~= Seq::new(EQ_MAX_POINTS as nat, |i: int| 0u32));
    profile.gain_bits = gains;
    profile.frequency_bits = default_frequency_bits();
    profile.point_count = EQ_BAND_COUNT as u8;
}

/// The curve being edited after `preset` is picked from the list: a
/// different preset becomes the base too and starts from the band layout at
/// 0 dB; picking the selected preset changes nothing. Answers whether the
/// curve changed, that is whether it is to be sent.
pub fn select_preset(profile: &mut EqProfileBits, preset: EqPreset) -> (changed: bool)
    requires
        old(profile).wf(),
    ensures
        final(profile).wf(),
        changed == (preset != old(profile).preset),
        !changed ==> final(profile).preset == old(profile).preset && final(profile).base_preset
            == old(profile).base_preset && final(profile).point_count == old(profile).point_count
            && final(profile).frequency_bits@ == old(profile).frequency_bits@
            && final(profile).gain_bits@ == old(profile).gain_bits@,
        changed ==> final(profile).preset == preset && final(profile).base_preset == preset
            && final(profile).point_count == EQ_BAND_COUNT && final(profile).frequency_bits@
            == default_frequency_bits_spec() && final(profile).gain_bits@ == Seq::new(
            EQ_MAX_POINTS as nat,
            |i: int| 0u32,
        ),
{
    if preset == profile.preset {
        return false;
    }
    profile.preset = preset;
    profile.base_preset = preset;
    reset_points(profile);
    true
}

/// The curve after RESET: the band layout at 0 dB, under the base preset.
pub fn reset_curve(profile: &mut EqProfileBits)
    ensures
        final(profile).wf(),
        final(profile).preset == old(profile).base_preset,
        final(profile).base_preset == old(profile).base_preset,
        final(profile).point_count == EQ_BAND_COUNT,
        final(profile).frequency_bits@ == default_frequency_bits_spec(),
        final(profile).gain_bits@ == Seq::new(EQ_MAX_POINTS as nat, |i: int| 0u32),
{
    profile.preset = profile.base_preset;
    reset_points(profile);
}

/// The curve once a point is added or moved by hand: a curve that is not
/// `Custom` yet becomes a `Custom` curve based on the preset it was, with
/// every gain set to 0 dB; a `Custom` curve stays as it is.
pub fn mark_edited(profile: &mut EqProfileBits)
    requires
        old(profile).wf(),
    ensures
        final(profile).wf(),
        final(profile).preset == EqPreset::Custom,
        final(profile).point_count == old(profile).point_count,
        final(profile).frequency_bits@ == old(profile).frequency_bits@,
        old(profile).preset == EqPreset::Custom ==> final(profile).base_preset == old(
            profile,
        ).base_preset && final(profile).gain_bits@ == old(profile).gain_bits@,
        old(profile).preset != EqPreset::Custom ==> final(profile).base_preset == old(
            profile,
        ).preset && final(profile).gain_bits@ == Seq::new(EQ_MAX_POINTS as nat, |i: int| 0u32),
{
    if profile.preset != EqPreset::Custom {
        profile.base_preset = profile.preset;
        let gains = vec![0u32; EQ_MAX_POINTS];
        assert(gains@ =~= Seq::new(EQ_MAX_POINTS as nat, |i: int| 0u32));
        profile.gain_bits = gains;
        profile.preset = EqPreset::Custom;
    }
}

/// The point count the editor works with: brought into `1..=EQ_MAX_POINTS`.
pub fn editor_point_count(point_count: u8) -> (count: u8)
    ensures
        count == if point_count < 1 {
            1
        } else if point_count > EQ_MAX_POINTS {
            EQ_MAX_POINTS as u8
        } else {
            point_count
        },
        1 <= count <= EQ_MAX_POINTS,
{
    if point_count < 1 {
        1
    } else if point_count > EQ_MAX_POINTS as u8 {
        EQ_MAX_POINTS as u8
    } else {
        point_count
    }
}

/// What the window saw in one frame: the settings it shows, which mode
/// button was clicked, and which controls were changed (the curve, when it
/// was, is handed over whole).
pub struct FrameInput {
    pub mode: Mode,
    pub clicked: Option<Mode>,
    pub subwoofer_changed: bool,
    pub subwoofer: u32,
    pub volume_changed: bool,
    pub volume: u32,
    pub edited_curve: Option<EqProfileBits>,
    pub pitch_changed: bool,
    pub pitch_enabled: bool,
    pub pitch_semitones: u32,
}

/// The mode after the frame: a click toggles it.
pub open spec fn frame_mode(mode: Mode, clicked: Option<Mode>) -> Mode {
    match clicked {
        Some(m) => toggled(mode, m),
        None => mode,
    }
}

/// The request for the mode, if the frame changed it.
pub open spec fn mode_requests(input: FrameInput) -> Seq<Request> {
    let mode = frame_mode(input.mode, input.clicked);
    if mode != input.mode {
        seq![Request::SetMode(mode_number(mode))]
    } else {
        seq![]
    }
}

/// The requests for the subwoofer level and the volume, if they were changed.
pub open spec fn level_requests(input: FrameInput) -> Seq<Request> {
    (if input.subwoofer_changed {
        seq![Request::SetSubwoofer(input.subwoofer)]
    } else {
        seq![]
    }) + (if input.volume_changed {
        seq![Request::SetVolume(input.volume)]
    } else {
        seq![]
    })
}

/// The request for the curve, if it was edited.
pub open spec fn curve_requests(input: FrameInput) -> Seq<Request> {
    match input.edited_curve {
        Some(curve) => seq![Request::SetEqProfile(curve)],
        None => seq![],
    }
}

/// The requests for the pitch switch and shift, if the control was changed.
pub open spec fn pitch_requests(input: FrameInput) -> Seq<Request> {
    if input.pitch_changed {
        seq![Request::SetPitchEnabled(input.pitch_enabled), Request::SetPitch(input.pitch_semitones)]
    } else {
        seq![]
    }
}

/// The requests a frame sends, in order: the mode if it changed, then the
/// subwoofer level, the volume and the curve if they were changed, then the
/// pitch switch and the pitch shift if the pitch control was changed.
pub open spec fn frame_requests_spec(input: FrameInput) -> Seq<Request> {
    mode_requests(input) + level_requests(input) + curve_requests(input) + pitch_requests(input)
}

/// Decides a frame: the mode shown next, and the requests to send.
pub fn frame_requests(input: FrameInput) -> (result: (Mode, Vec<Request>))
    ensures
        result.0 == frame_mode(input.mode, input.clicked),
        result.1@ == frame_requests_spec(input),
{
    let ghost given = input;
    let mode = match input.clicked {
        Some(m) => toggle(input.mode, m),
        None => input.mode,
    };
    let mut requests: Vec<Request> = Vec::new();
    if mode != input.mode {
        requests.push(Request::SetMode(mode.to_u8()));
    }
    assert(requests@ =~= mode_requests(given));
    let ghost before_levels = requests@;
    if input.subwoofer_changed {
        requests.push(Request::SetSubwoofer(input.subwoofer));
    }
    if input.volume_changed {
        requests.push(Request::SetVolume(input.volume));
    }
    assert(requests@ =~= before_levels + level_requests(given));
    let ghost before_curve = requests@;
    match input.edited_curve {
        Some(curve) => requests.push(Request::SetEqProfile(curve)),
        None => {},
    }
    assert(requests@ =~= before_curve + curve_requests(given));
    let ghost before_pitch = requests@;
    if input.pitch_changed {
        requests.push(Request::SetPitchEnabled(input.pitch_enabled));
        requests.push(Request::SetPitch(input.pitch_semitones));
    }
    assert(requests@ =~= before_pitch + pitch_requests(given));
    (mode, requests)
}

} // verus!
