use vstd::prelude::*;
use crate::loom::mode::Mode;

verus! {

/// How many output buffers PipeWire may hold on one port: after the input
/// goes away, this many cycles of silence flush every buffer.
pub const MAX_PIPEWIRE_PORT_BUFFERS: u8 = 64;

/// The control state of the audio processing callback.
#[derive(Clone, Copy, Debug, PartialEq, Eq, Structural)]
pub struct Processor {
    /// The mode whose engine processed the last samples.
    pub active_mode: Mode,
    /// Whether pitch shifting ran in the last rendered cycle.
    pub pitch_was_enabled: bool,
    /// Whether the input ports had no buffers in the last cycle.
    pub input_already_disconnected: bool,
    /// How many more silent cycles to write after the input went away.
    pub output_buffer_resets_left: u8,
}

/// What one processing cycle finds.
#[derive(Clone, Copy, Debug, PartialEq, Eq, Structural)]
pub struct Cycle {
    /// The mode the settings ask for.
    pub mode: Mode,
    /// Whether both output ports handed out a buffer.
    pub outputs_ready: bool,
    /// Whether both input ports handed out a buffer.
    pub inputs_ready: bool,
    /// Whether the settings ask for pitch shifting.
    pub pitch_enabled: bool,
}

/// What the processing callback does in one cycle, in this order: reset the
/// engine of the mode left behind, then either write silence and reset every
/// engine (input gone) or render the samples through the engine of `mode`,
/// resetting and then running the pitch shifter as asked.
#[derive(Clone, Copy, Debug, PartialEq, Eq, Structural)]
pub struct CycleActions {
    pub reset_engine: Option<Mode>,
    pub zero_outputs: bool,
    pub reset_all: bool,
    pub render: bool,
    pub reset_pitch: bool,
    pub shift_pitch: bool,
}

/// The engine to reset when switching from `active` to `mode`: the one left
/// behind, unless nothing changes or processing was off.
pub open spec fn engine_left_behind(active: Mode, mode: Mode) -> Option<Mode> {
    if mode == active || active == Mode::Off {
        None
    } else {
        Some(active)
    }
}

impl Processor {
    /// The state before the first cycle: processing off, no input yet.
    pub open spec fn initial() -> Processor {
        Processor {
            active_mode: Mode::Off,
            pitch_was_enabled: false,
            input_already_disconnected: true,
            output_buffer_resets_left: 0,
        }
    }

    /// The counter never exceeds the number of port buffers.
    pub open spec fn wf(self) -> bool {
        self.output_buffer_resets_left <= MAX_PIPEWIRE_PORT_BUFFERS
    }

    /// The state after one cycle, and what the cycle does.
    pub open spec fn step(self, cycle: Cycle) -> (Processor, CycleActions) {
        let switched = Processor { active_mode: cycle.mode, ..self };
        let reset_engine = engine_left_behind(self.active_mode, cycle.mode);
        if !cycle.outputs_ready {
            (switched, CycleActions {
                reset_engine,
                zero_outputs: false,
                reset_all: false,
                render: false,
                reset_pitch: false,
                shift_pitch: false,
            })
        } else if !cycle.inputs_ready {
            let just_disconnected = !self.input_already_disconnected;
            let left: u8 = if just_disconnected {
                MAX_PIPEWIRE_PORT_BUFFERS
            } else {
                self.output_buffer_resets_left
            };
            let zero = left > 0;
            (Processor {
                input_already_disconnected: true,
                output_buffer_resets_left: if zero { (left - 1) as u8 } else { left },
                ..switched
            }, CycleActions {
                reset_engine,
                zero_outputs: zero,
                reset_all: just_disconnected,
                render: false,
                reset_pitch: false,
                shift_pitch: false,
            })
        } else {
            (Processor {
                input_already_disconnected: false,
                output_buffer_resets_left: 0,
                pitch_was_enabled: cycle.pitch_enabled,
                ..switched
            }, CycleActions {
                reset_engine,
                zero_outputs: false,
                reset_all: false,
                render: true,
                reset_pitch: cycle.pitch_enabled && !self.pitch_was_enabled,
                shift_pitch: cycle.pitch_enabled,
            })
        }
    }

    /// The control state before the first cycle.
    pub fn new() -> (processor: Processor)
        ensures
            processor == Processor::initial(),
            processor.wf(),
    {
        Processor {
            active_mode: Mode::Off,
            pitch_was_enabled: false,
            input_already_disconnected: true,
            output_buffer_resets_left: 0,
        }
    }

    /// Makes `mode` the active mode and returns the engine to reset: the one
    /// of the mode left behind, if the mode changes and was not `Off`.
    pub fn switch_mode(&mut self, mode: Mode) -> (reset: Option<Mode>)
        ensures
            reset == engine_left_behind(old(self).active_mode, mode),
            *final(self) == (Processor { active_mode: mode, ..*old(self) }),
    {
        if mode == self.active_mode {
            return None;
        }
        let left_behind = self.active_mode;
        self.active_mode = mode;
        match left_behind {
            Mode::Off => None,
            _ => Some(left_behind),
        }
    }

    /// Decides one processing cycle and moves to the next state.
    pub fn on_cycle(&mut self, cycle: Cycle) -> (actions: CycleActions)
        requires
            old(self).wf(),
        ensures
            (*final(self), actions) == old(self).step(cycle),
            final(self).wf(),
    {
        let reset_engine = self.switch_mode(cycle.mode);
        if !cycle.outputs_ready {
            return CycleActions {
                reset_engine,
                zero_outputs: false,
                reset_all: false,
                render: false,
                reset_pitch: false,
                shift_pitch: false,
            };
        }
        if !cycle.inputs_ready {
            let just_disconnected = !self.input_already_disconnected;
            if just_disconnected {
                self.input_already_disconnected = true;
                self.output_buffer_resets_left = MAX_PIPEWIRE_PORT_BUFFERS;
            }
            let zero = self.output_buffer_resets_left > 0;
            if zero {
                self.output_buffer_resets_left = self.output_buffer_resets_left - 1;
            }
            return CycleActions {
                reset_engine,
                zero_outputs: zero,
                reset_all: just_disconnected,
                render: false,
                reset_pitch: false,
                shift_pitch: false,
            };
        }
        self.input_already_disconnected = false;
        self.output_buffer_resets_left = 0;
        let reset_pitch = cycle.pitch_enabled && !self.pitch_was_enabled;
        self.pitch_was_enabled = cycle.pitch_enabled;
        CycleActions {
            reset_engine,
            zero_outputs: false,
            reset_all: false,
            render: true,
            reset_pitch,
            shift_pitch: cycle.pitch_enabled,
        }
    }
}

/// Whether every cycle finds its outputs but no input.
pub open spec fn input_gone_throughout(cycles: Seq<Cycle>) -> bool {
    forall|i: int| 0 <= i < cycles.len() ==> #[trigger] cycles[i].outputs_ready && !cycles[i].inputs_ready
}

/// What each cycle does, from `processor` on, in order.
pub open spec fn cycle_actions(processor: Processor, cycles: Seq<Cycle>) -> Seq<CycleActions>
    decreases cycles.len(),
{
    if cycles.len() == 0 {
        Seq::empty()
    } else {
        let (next, actions) = processor.step(cycles[0]);
        seq![actions] + cycle_actions(next, cycles.drop_first())
    }
}

/// While the input stays away, silence is written on the first cycles until
/// the counter runs out, nothing is rendered, and nothing resets every engine
/// again.
proof fn silence_runs_down(processor: Processor, cycles: Seq<Cycle>)
    requires
        processor.wf(),
        processor.input_already_disconnected,
        input_gone_throughout(cycles),
    ensures
        cycle_actions(processor, cycles).len() == cycles.len(),
        forall|i: int|
            0 <= i < cycles.len() ==> {
                let actions = #[trigger] cycle_actions(processor, cycles)[i];
                &&& actions.zero_outputs == (i < processor.output_buffer_resets_left)
                &&& !actions.reset_all
                &&& !actions.render
            },
    decreases cycles.len(),
{
    if cycles.len() > 0 {
        let rest = cycles.drop_first();
        let next = processor.step(cycles[0]).0;
        assert(cycles[0].outputs_ready && !cycles[0].inputs_ready);
        assert forall|i: int| 0 <= i < rest.len() implies #[trigger] rest[i].outputs_ready
            && !rest[i].inputs_ready by {
            assert(rest[i] == cycles[i + 1]);
            assert(cycles[i + 1].outputs_ready && !cycles[i + 1].inputs_ready);
        }
        silence_runs_down(next, rest);
        let all = cycle_actions(processor, cycles);
        let later = cycle_actions(next, rest);
        assert forall|i: int| 0 < i < cycles.len() implies #[trigger] all[i] == later[i - 1] by {}
    }
}

/// When the input goes away while both outputs are there, the outputs are
/// silenced on exactly the first `min(n, 64)` of the `n` cycles without
/// input (as many cycles as PipeWire holds buffers) and left alone after,
/// every engine is reset on the first of them and on no other, and nothing is
/// rendered.
pub proof fn input_loss_is_flushed_once(processor: Processor, cycles: Seq<Cycle>)
    requires
        processor.wf(),
        !processor.input_already_disconnected,
        cycles.len() > 0,
        input_gone_throughout(cycles),
    ensures
        cycle_actions(processor, cycles).len() == cycles.len(),
        forall|i: int|
            0 <= i < cycles.len() ==> {
                let actions = #[trigger] cycle_actions(processor, cycles)[i];
                &&& actions.zero_outputs == (i < MAX_PIPEWIRE_PORT_BUFFERS)
                &&& actions.reset_all == (i == 0)
                &&& !actions.render
            },
{
    let rest = cycles.drop_first();
    let next = processor.step(cycles[0]).0;
    assert(cycles[0].outputs_ready && !cycles[0].inputs_ready);
    assert forall|i: int| 0 <= i < rest.len() implies #[trigger] rest[i].outputs_ready
        && !rest[i].inputs_ready by {
        assert(rest[i] == cycles[i + 1]);
        assert(cycles[i + 1].outputs_ready && !cycles[i + 1].inputs_ready);
    }
    silence_runs_down(next, rest);
    let all = cycle_actions(processor, cycles);
    let later = cycle_actions(next, rest);
    assert forall|i: int| 0 < i < cycles.len() implies #[trigger] all[i] == later[i - 1] by {}
}

/// The pitch shifter is reset exactly when a rendered cycle turns pitch
/// shifting on, and the engine reset on a mode switch is always the engine of
/// the mode that was active.
pub proof fn resets_follow_changes(processor: Processor, cycle: Cycle)
    ensures
        processor.step(cycle).1.reset_pitch <==> (processor.step(cycle).1.render && cycle.pitch_enabled
            && !processor.pitch_was_enabled),
        processor.step(cycle).1.reset_engine matches Some(m) ==> m == processor.active_mode && m
            != cycle.mode && m != Mode::Off,
        processor.step(cycle).0.active_mode == cycle.mode,
{
}

/// The pitch shifter remembers the switch of the last rendered cycle, so it is
/// reset every time pitch shifting is turned back on: a rendered cycle leaves
/// the memory equal to its own switch, a cycle that renders nothing leaves it
/// alone, and of two rendered cycles in a row the second resets the shifter
/// exactly when it turns pitch shifting on after the first had it off.
pub proof fn pitch_shifter_resets_on_every_switch_on(processor: Processor, first: Cycle, second: Cycle)
    ensures
        first.outputs_ready && first.inputs_ready ==> processor.step(first).0.pitch_was_enabled
            == first.pitch_enabled,
        !(first.outputs_ready && first.inputs_ready) ==> processor.step(first).0.pitch_was_enabled
            == processor.pitch_was_enabled,
        first.outputs_ready && first.inputs_ready && second.outputs_ready && second.inputs_ready
            ==> processor.step(first).0.step(second).1.reset_pitch == (second.pitch_enabled
            && !first.pitch_enabled),
{
}

/// What a cycle does follows the ports and the settings: samples are rendered
/// exactly when both inputs and both outputs are there, the pitch shifter runs
/// exactly on rendered cycles with pitch shifting on, silence is written only
/// when the outputs are there and the input is not, and the engine of the
/// previous mode is reset exactly when the mode changes away from a mode other
/// than `Off`; the new mode is always the one asked for.
pub proof fn cycle_follows_ports_and_settings(processor: Processor, cycle: Cycle)
    ensures
        ({
            let (next, actions) = processor.step(cycle);
            &&& actions.render == (cycle.outputs_ready && cycle.inputs_ready)
            &&& actions.shift_pitch == (actions.render && cycle.pitch_enabled)
            &&& actions.zero_outputs ==> cycle.outputs_ready && !cycle.inputs_ready
            &&& actions.reset_all ==> cycle.outputs_ready && !cycle.inputs_ready
            &&& (actions.reset_engine is Some) == (processor.active_mode != cycle.mode
                && processor.active_mode != Mode::Off)
            &&& actions.reset_engine matches Some(m) ==> m == processor.active_mode
            &&& next.active_mode == cycle.mode
        }),
{
}

} // verus!
