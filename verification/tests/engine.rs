use loom::loom::engine::{Cycle, Processor, MAX_PIPEWIRE_PORT_BUFFERS};
use loom::loom::mode::Mode;
use loom::loom::shutdown::{DoneAction, ShutdownSequencer};

fn cycle(mode: Mode, inputs_ready: bool, pitch_enabled: bool) -> Cycle {
    Cycle { mode, outputs_ready: true, inputs_ready, pitch_enabled }
}

#[test]
fn switching_resets_the_engine_left_behind() {
    let mut processor = Processor::new();
    assert_eq!(processor.switch_mode(Mode::Night), None);
    assert_eq!(processor.active_mode, Mode::Night);
    assert_eq!(processor.switch_mode(Mode::Night), None);
    assert_eq!(processor.switch_mode(Mode::Ambience), Some(Mode::Night));
    assert_eq!(processor.switch_mode(Mode::Off), Some(Mode::Ambience));
    assert_eq!(processor.switch_mode(Mode::Fidelity), None);
}

#[test]
fn connected_cycles_render_and_reset_pitch_once() {
    let mut processor = Processor::new();
    let first = processor.on_cycle(cycle(Mode::Surround3d, true, false));
    assert!(first.render);
    assert!(!first.reset_pitch && !first.shift_pitch);
    assert_eq!(first.reset_engine, None);
    let enabled = processor.on_cycle(cycle(Mode::Surround3d, true, true));
    assert!(enabled.reset_pitch && enabled.shift_pitch);
    let again = processor.on_cycle(cycle(Mode::Surround3d, true, true));
    assert!(!again.reset_pitch && again.shift_pitch);
    let switched = processor.on_cycle(cycle(Mode::Night, true, true));
    assert_eq!(switched.reset_engine, Some(Mode::Surround3d));
}

#[test]
fn input_loss_writes_silence_for_every_port_buffer_then_stops() {
    let mut processor = Processor::new();
    processor.on_cycle(cycle(Mode::Night, true, false));
    let mut silent = 0;
    let mut full_resets = 0;
    for _ in 0..100 {
        let actions = processor.on_cycle(cycle(Mode::Night, false, false));
        assert!(!actions.render);
        if actions.zero_outputs {
            silent += 1;
        }
        if actions.reset_all {
            full_resets += 1;
        }
    }
    assert_eq!(silent, MAX_PIPEWIRE_PORT_BUFFERS as usize);
    assert_eq!(full_resets, 1);
    assert_eq!(processor.output_buffer_resets_left, 0);
    let back = processor.on_cycle(cycle(Mode::Night, true, false));
    assert!(back.render);
    assert!(!processor.input_already_disconnected);
}

#[test]
fn no_silence_before_any_input() {
    let mut processor = Processor::new();
    let actions = processor.on_cycle(cycle(Mode::Off, false, false));
    assert!(!actions.zero_outputs && !actions.reset_all && !actions.render);
}

#[test]
fn missing_outputs_only_switch_the_mode() {
    let mut processor = Processor::new();
    processor.on_cycle(cycle(Mode::Night, true, false));
    let actions = processor.on_cycle(Cycle {
        mode: Mode::Ambience,
        outputs_ready: false,
        inputs_ready: false,
        pitch_enabled: true,
    });
    assert_eq!(actions.reset_engine, Some(Mode::Night));
    assert!(!actions.render && !actions.zero_outputs && !actions.reset_all && !actions.shift_pitch);
    assert_eq!(processor.active_mode, Mode::Ambience);
    assert!(!processor.input_already_disconnected);
}

#[test]
fn orderly_shutdown_sequence() {
    let mut sequencer = ShutdownSequencer::new();
    assert!(sequencer.request());
    assert!(!sequencer.began(Some(4)));
    assert!(!sequencer.request());
    assert_eq!(sequencer.on_done(true, 3), DoneAction::Ignore);
    assert_eq!(sequencer.on_done(false, 4), DoneAction::Ignore);
    assert_eq!(sequencer.on_done(true, 4), DoneAction::FinishShutdown);
    assert!(!sequencer.finished(Some(5)));
    assert!(!sequencer.request());
    assert_eq!(sequencer.on_done(true, 4), DoneAction::Ignore);
    assert_eq!(sequencer.on_done(true, 5), DoneAction::Settle);
    assert_eq!(sequencer, ShutdownSequencer::new());
}

#[test]
fn failed_round_trips_quit_or_settle_at_once() {
    let mut sequencer = ShutdownSequencer::new();
    assert!(sequencer.began(None));
    assert_eq!(sequencer, ShutdownSequencer::new());
    sequencer.began(Some(1));
    assert_eq!(sequencer.on_done(true, 1), DoneAction::FinishShutdown);
    assert!(sequencer.finished(None));
}
