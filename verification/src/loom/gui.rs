use vstd::prelude::*;
use crate::loom::daemon::Request;
use crate::loom::mode::{mode_number, Mode};

verus! {

/// The pixel icon drawn on each mode button.
#[derive(Clone, Copy, Debug, PartialEq, Eq, Structural)]
pub enum ModeIcon {
    Spatial,
    Stereo,
    Orbit,
    Cube,
    Ambience,
    Fidelity,
    Night,
}

/// The mode selected after a click on a mode button: clicking the selected
/// mode turns processing off, clicking another mode selects it.
pub open spec fn toggled(selected: Mode, clicked: Mode) -> Mode {
    if selected == clicked {
        Mode::Off
    } else {
        clicked
    }
}

/// The mode selected after `clicked` is pressed while `selected` is active.
pub fn toggle(selected: Mode, clicked: Mode) -> (mode: Mode)
    ensures
        mode == toggled(selected, clicked),
{
    if selected == clicked {
        Mode::Off
    } else {
        clicked
    }
}

/// The rows of an icon, top to bottom: `#` is a lit pixel, `.` a dark one.
pub open spec fn icon_rows(icon: ModeIcon) -> Seq<Seq<char>> {
    match icon {
        ModeIcon::Spatial => seq![
            "#...#...#"@,
            ".#..#..#."@,
            "..#.#.#.."@,
            "...###..."@,
            "####.####"@,
            "...###..."@,
            "..#.#.#.."@,
            ".#..#..#."@,
            "#...#...#"@,
        ],
        ModeIcon::Stereo => seq![
            ".###...###."@,
            ".#.#...#.#."@,
            ".###...###."@,
            ".#.#...#.#."@,
            ".###...###."@,
            ".#.#...#.#."@,
            ".###...###."@,
        ],
        ModeIcon::Orbit => seq![
            "..#####.."@,
            ".#.....#."@,
            "#..###..#"@,
            "#.#...#.#"@,
            "#.#.#.#.#"@,
            "#.#...#.#"@,
            "#..###..#"@,
            ".#.....#."@,
            "..#####.."@,
        ],
        ModeIcon::Cube => seq![
            "....#...."@,
            "..##.##.."@,
            "##.....##"@,
            "#.#...#.#"@,
            "#..#.#..#"@,
            "#...#...#"@,
            "##..#..##"@,
            "..#####.."@,
            "....#...."@,
        ],
        ModeIcon::Ambience => seq![
            "......#.."@,
            ".......#."@,
            "....#..#."@,
            ".....#..#"@,
            "..#..#..#"@,
            ".....#..#"@,
            "....#..#."@,
            ".......#."@,
            "......#.."@,
        ],
        ModeIcon::Fidelity => seq![
            "......#.."@,
            "..#...#.."@,
            "..#..#.#."@,
            ".#.#.#.#."@,
            ".#.#.#..#"@,
            "#...#...#"@,
            "#.......#"@,
        ],
        ModeIcon::Night => seq![
            "........."@,
            "...#####."@,
            "..###...."@,
            "..##....."@,
            "..##....."@,
            "..##....."@,
            "..###...."@,
            "...#####."@,
            "........."@,
        ],
    }
}

/// The number of pixels in each row of an icon.
pub open spec fn icon_width(icon: ModeIcon) -> nat {
    match icon {
        ModeIcon::Spatial => 9,
        ModeIcon::Stereo => 11,
        ModeIcon::Orbit => 9,
        ModeIcon::Cube => 9,
        ModeIcon::Ambience => 9,
        ModeIcon::Fidelity => 9,
        ModeIcon::Night => 9,
    }
}

/// Whether a row is `width` pixels of `#` and `.` only.
pub open spec fn is_pixel_row(row: Seq<char>, width: nat) -> bool {
    &&& row.len() == width
    &&& forall|x: int| 0 <= x < row.len() ==> (#[trigger] row[x] == '#' || row[x] == '.')
}

impl ModeIcon {
    /// The pixel rows of the icon.
    pub fn pattern(self) -> (rows: &'static [&'static str])
        ensures
            rows@.len() == icon_rows(self).len(),
            forall|i: int| 0 <= i < rows@.len() ==> #[trigger] rows@[i]@ == icon_rows(self)[i],
    {
        match self {
            ModeIcon::Spatial => &[
                "#...#...#",
                ".#..#..#.",
                "..#.#.#..",
                "...###...",
                "####.####",
                "...###...",
                "..#.#.#..",
                ".#..#..#.",
                "#...#...#",
            ],
            ModeIcon::Stereo => &[
                ".###...###.",
                ".#.#...#.#.",
                ".###...###.",
                ".#.#...#.#.",
                ".###...###.",
                ".#.#...#.#.",
                ".###...###.",
            ],
            ModeIcon::Orbit => &[
                "..#####..",
                ".#.....#.",
                "#..###..#",
                "#.#...#.#",
                "#.#.#.#.#",
                "#.#...#.#",
                "#..###..#",
                ".#.....#.",
                "..#####..",
            ],
            ModeIcon::Cube => &[
                "....#....",
                "..##.##..",
                "##.....##",
                "#.#...#.#",
                "#..#.#..#",
                "#...#...#",
                "##..#..##",
                "..#####..",
                "....#....",
            ],
            ModeIcon::Ambience => &[
                "......#..",
                ".......#.",
                "....#..#.",
                ".....#..#",
                "..#..#..#",
                ".....#..#",
                "....#..#.",
                ".......#.",
                "......#..",
            ],
            ModeIcon::Fidelity => &[
                "......#..",
                "..#...#..",
                "..#..#.#.",
                ".#.#.#.#.",
                ".#.#.#..#",
                "#...#...#",
                "#.......#",
            ],
            ModeIcon::Night => &[
                ".........",
                "...#####.",
                "..###....",
                "..##.....",
                "..##.....",
                "..##.....",
                "..###....",
                "...#####.",
                ".........",
            ],
        }
    }
}

/// Every icon is a rectangle of pixels: all its rows have the icon's width and
/// hold only `#` and `.`, so its width can be read off its first row.
pub proof fn icons_are_pixel_grids(icon: ModeIcon)
    ensures
        icon_rows(icon).len() > 0,
        forall|y: int|
            0 <= y < icon_rows(icon).len() ==> is_pixel_row(#[trigger] icon_rows(icon)[y], icon_width(icon)),
{
    reveal_strlit("#...#...#");
    reveal_strlit(".#..#..#.");
    reveal_strlit("..#.#.#..");
    reveal_strlit("...###...");
    reveal_strlit("####.####");
    reveal_strlit(".###...###.");
    reveal_strlit(".#.#...#.#.");
    reveal_strlit("..#####..");
    reveal_strlit(".#.....#.");
    reveal_strlit("#..###..#");
    reveal_strlit("#.#...#.#");
    reveal_strlit("#.#.#.#.#");
    reveal_strlit("....#....");
    reveal_strlit("..##.##..");
    reveal_strlit("##.....##");
    reveal_strlit("#..#.#..#");
    reveal_strlit("##..#..##");
    reveal_strlit("......#..");
    reveal_strlit(".......#.");
    reveal_strlit("....#..#.");
    reveal_strlit(".....#..#");
    reveal_strlit("..#..#..#");
    reveal_strlit("..#...#..");
    reveal_strlit("..#..#.#.");
    reveal_strlit(".#.#.#.#.");
    reveal_strlit(".#.#.#..#");
    reveal_strlit("#.......#");
    reveal_strlit(".........");
    reveal_strlit("...#####.");
    reveal_strlit("..###....");
    reveal_strlit("..##.....");
}

/// What the window saw in one frame: the settings it shows, which mode
/// button was clicked, and which controls were changed.
#[derive(Clone, Copy, Debug, PartialEq, Eq, Structural)]
pub struct FrameInput {
    pub mode: Mode,
    pub clicked: Option<Mode>,
    pub subwoofer_changed: bool,
    pub subwoofer: u32,
    pub volume_changed: bool,
    pub volume: u32,
    pub pitch_changed: bool,
    pub pitch_enabled: bool,
    pub pitch_semitones: u32,
}

/// The mode after the frame: a click toggles it.
pub open spec fn frame_mode(mode: Mode, clicked: Option<Mode>) -> Mode {
    match clicked {
        Some(m) => toggled(mode, m),
        None => mode,
    }
}

/// The requests a frame sends, in order: the mode if it changed, then the
/// subwoofer level and the volume if they were changed, then the pitch switch
/// and the pitch shift if the pitch control was changed.
pub open spec fn frame_requests_spec(input: FrameInput) -> Seq<Request> {
    let mode = frame_mode(input.mode, input.clicked);
    (if mode != input.mode {
        seq![Request::SetMode(mode_number(mode))]
    } else {
        seq![]
    }) + (if input.subwoofer_changed {
        seq![Request::SetSubwoofer(input.subwoofer)]
    } else {
        seq![]
    }) + (if input.volume_changed {
        seq![Request::SetVolume(input.volume)]
    } else {
        seq![]
    }) + (if input.pitch_changed {
        seq![Request::SetPitchEnabled(input.pitch_enabled), Request::SetPitch(input.pitch_semitones)]
    } else {
        seq![]
    })
}

/// Decides a frame: the mode shown next, and the requests to send.
pub fn frame_requests(input: FrameInput) -> (result: (Mode, Vec<Request>))
    ensures
        result.0 == frame_mode(input.mode, input.clicked),
        result.1@ == frame_requests_spec(input),
{
    let mode = match input.clicked {
        Some(m) => toggle(input.mode, m),
        None => input.mode,
    };
    let mut requests: Vec<Request> = Vec::new();
    if mode != input.mode {
        requests.push(Request::SetMode(mode.to_u8()));
    }
    if input.subwoofer_changed {
        requests.push(Request::SetSubwoofer(input.subwoofer));
    }
    if input.volume_changed {
        requests.push(Request::SetVolume(input.volume));
    }
    if input.pitch_changed {
        requests.push(Request::SetPitchEnabled(input.pitch_enabled));
        requests.push(Request::SetPitch(input.pitch_semitones));
    }
    assert(requests@ =~= frame_requests_spec(input));
    (mode, requests)
}

} // verus!
