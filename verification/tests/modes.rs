use loom::loom::daemon::Request;
use loom::loom::gui::{frame_requests, FrameInput};
use loom::loom::ctl::{parse_command, parse_flag_argument, parse_mode_argument, CtlCommand};
use loom::loom::gui::{toggle as loom_toggle, ModeIcon as LoomIcon};
use loom::loom::mode::Mode as LoomMode;
use loom::saq::gui::{toggle as saq_toggle, ModeIcon as SaqIcon};
use loom::saq::mode::Mode as SaqMode;

#[test]
fn loom_mode_numbers_decode() {
    assert_eq!(LoomMode::from_u8(0), LoomMode::Off);
    assert_eq!(LoomMode::from_u8(1), LoomMode::SpatialFilter);
    assert_eq!(LoomMode::from_u8(2), LoomMode::Surround3d);
    assert_eq!(LoomMode::from_u8(3), LoomMode::Ambience);
    assert_eq!(LoomMode::from_u8(4), LoomMode::Fidelity);
    assert_eq!(LoomMode::from_u8(5), LoomMode::Night);
    assert_eq!(LoomMode::from_u8(6), LoomMode::SpatialStereo);
    assert_eq!(LoomMode::from_u8(7), LoomMode::SpatialSurround);
    assert_eq!(LoomMode::from_u8(8), LoomMode::Off);
    assert_eq!(LoomMode::from_u8(255), LoomMode::Off);
}

#[test]
fn loom_mode_numbers_round_trip() {
    for value in 0u8..=7 {
        assert_eq!(LoomMode::from_u8(value).to_u8(), value);
    }
    assert_eq!(LoomMode::Night.to_u8(), 5);
}

#[test]
fn loom_mode_names_parse_exactly() {
    assert_eq!(LoomMode::from_str("Off"), Some(LoomMode::Off));
    assert_eq!(LoomMode::from_str("SpatialFilter"), Some(LoomMode::SpatialFilter));
    assert_eq!(LoomMode::from_str("Surround3d"), Some(LoomMode::Surround3d));
    assert_eq!(LoomMode::from_str("Ambience"), Some(LoomMode::Ambience));
    assert_eq!(LoomMode::from_str("Fidelity"), Some(LoomMode::Fidelity));
    assert_eq!(LoomMode::from_str("Night"), Some(LoomMode::Night));
    assert_eq!(LoomMode::from_str("SpatialStereo"), Some(LoomMode::SpatialStereo));
    assert_eq!(LoomMode::from_str("SpatialSurround"), Some(LoomMode::SpatialSurround));
    assert_eq!(LoomMode::from_str("night"), None);
    assert_eq!(LoomMode::from_str(" Night"), None);
    assert_eq!(LoomMode::from_str(""), None);
}

#[test]
fn loom_default_mode_is_surround() {
    assert_eq!(LoomMode::default(), LoomMode::Surround3d);
}

#[test]
fn saq_mode_numbers_and_names() {
    assert_eq!(SaqMode::from_u8(2), SaqMode::SurroundSound);
    assert_eq!(SaqMode::from_u8(3), SaqMode::Room);
    assert_eq!(SaqMode::from_u8(4), SaqMode::Clarity);
    assert_eq!(SaqMode::from_u8(9), SaqMode::Off);
    for value in 0u8..=7 {
        assert_eq!(SaqMode::from_u8(value).to_u8(), value);
    }
    assert_eq!(SaqMode::SurroundSound.display_name(), "surround-3d");
    assert_eq!(SaqMode::SpatialSurround.display_name(), "spatial-surround");
    assert_eq!(SaqMode::Off.display_name(), "off");
    assert_eq!(SaqMode::default(), SaqMode::SurroundSound);
}

#[test]
fn clicking_the_selected_mode_turns_processing_off() {
    assert_eq!(loom_toggle(LoomMode::Night, LoomMode::Night), LoomMode::Off);
    assert_eq!(loom_toggle(LoomMode::Night, LoomMode::Ambience), LoomMode::Ambience);
    assert_eq!(loom_toggle(LoomMode::Off, LoomMode::Off), LoomMode::Off);
    assert_eq!(saq_toggle(SaqMode::Room, SaqMode::Room), SaqMode::Off);
    assert_eq!(saq_toggle(SaqMode::Room, SaqMode::Clarity), SaqMode::Clarity);
}

fn assert_pixel_grid(rows: &[&str], width: usize, height: usize) {
    assert_eq!(rows.len(), height);
    for row in rows {
        assert_eq!(row.len(), width);
        assert!(row.bytes().all(|b| b == b'#' || b == b'.'));
    }
}

#[test]
fn icons_are_pixel_grids() {
    assert_pixel_grid(LoomIcon::Spatial.pattern(), 9, 9);
    assert_pixel_grid(LoomIcon::Stereo.pattern(), 11, 7);
    assert_pixel_grid(LoomIcon::Orbit.pattern(), 9, 9);
    assert_pixel_grid(LoomIcon::Cube.pattern(), 9, 9);
    assert_pixel_grid(LoomIcon::Ambience.pattern(), 9, 9);
    assert_pixel_grid(LoomIcon::Fidelity.pattern(), 9, 7);
    assert_pixel_grid(LoomIcon::Night.pattern(), 9, 9);
    assert_pixel_grid(SaqIcon::Room.pattern(), 9, 9);
    assert_pixel_grid(SaqIcon::Clarity.pattern(), 9, 7);
    assert_eq!(LoomIcon::Spatial.pattern()[4], "####.####");
    assert_eq!(LoomIcon::Night.pattern()[1], "...#####.");
    assert_eq!(SaqIcon::Room.pattern(), LoomIcon::Ambience.pattern());
    assert_eq!(SaqIcon::Clarity.pattern(), LoomIcon::Fidelity.pattern());
}

#[test]
fn control_commands_are_read_by_word() {
    assert_eq!(parse_command("volume"), CtlCommand::Volume);
    assert_eq!(parse_command("mode"), CtlCommand::Mode);
    assert_eq!(parse_command("pitch_enabled"), CtlCommand::PitchEnabled);
    assert_eq!(parse_command("pitch"), CtlCommand::Pitch);
    assert_eq!(parse_command("get_state"), CtlCommand::GetState);
    assert_eq!(parse_command("help"), CtlCommand::Help);
    assert_eq!(parse_command("Volume"), CtlCommand::Unknown);
    assert_eq!(parse_command(""), CtlCommand::Unknown);
}

#[test]
fn mode_argument_is_a_number_or_a_name() {
    assert_eq!(parse_mode_argument("5"), Some(LoomMode::Night));
    assert_eq!(parse_mode_argument("+3"), Some(LoomMode::Ambience));
    assert_eq!(parse_mode_argument("42"), Some(LoomMode::Off));
    assert_eq!(parse_mode_argument("255"), Some(LoomMode::Off));
    assert_eq!(parse_mode_argument("Fidelity"), Some(LoomMode::Fidelity));
    assert_eq!(parse_mode_argument("256"), None);
    assert_eq!(parse_mode_argument("-1"), None);
    assert_eq!(parse_mode_argument("fidelity"), None);
    assert_eq!(parse_mode_argument(""), None);
}

#[test]
fn flag_argument_is_true_or_false() {
    assert_eq!(parse_flag_argument("true"), Some(true));
    assert_eq!(parse_flag_argument("false"), Some(false));
    assert_eq!(parse_flag_argument("True"), None);
    assert_eq!(parse_flag_argument("1"), None);
    assert_eq!("true".parse::<bool>().ok(), parse_flag_argument("true"));
}

#[test]
fn loom_frame_sends_changes_in_order() {
    let input = FrameInput {
        mode: LoomMode::Night,
        clicked: Some(LoomMode::Ambience),
        subwoofer_changed: true,
        subwoofer: 7,
        volume_changed: true,
        volume: 9,
        pitch_changed: true,
        pitch_enabled: true,
        pitch_semitones: 3,
    };
    let (mode, requests) = frame_requests(input);
    assert_eq!(mode, LoomMode::Ambience);
    assert_eq!(
        requests,
        vec![
            Request::SetMode(3),
            Request::SetSubwoofer(7),
            Request::SetVolume(9),
            Request::SetPitchEnabled(true),
            Request::SetPitch(3),
        ]
    );
    let quiet = FrameInput { clicked: None, subwoofer_changed: false, volume_changed: false, pitch_changed: false, ..input };
    assert_eq!(frame_requests(quiet), (LoomMode::Night, vec![]));
    let off = FrameInput { clicked: Some(LoomMode::Night), ..quiet };
    assert_eq!(frame_requests(off), (LoomMode::Off, vec![Request::SetMode(0)]));
}
