use vstd::prelude::*;

verus! {

/// What to do after PipeWire reports that a round trip finished.
#[derive(Clone, Copy, Debug, PartialEq, Eq, Structural)]
pub enum DoneAction {
    /// The report is not one the shutdown waits for.
    Ignore,
    /// The routing has dropped its links: relink the outputs.
    FinishShutdown,
    /// The last round trip is done: wait for the links to settle, then release
    /// them and quit.
    Settle,
}

/// The two round trips of an orderly shutdown: the sequence number of the
/// round trip that confirms the disconnect, then the one that confirms the
/// relink.
#[derive(Clone, Copy, Debug, PartialEq, Eq, Structural)]
pub struct ShutdownSequencer {
    pub requested: Option<i32>,
    pub completed: Option<i32>,
}

impl ShutdownSequencer {
    /// Whether a shutdown is under way.
    pub open spec fn pending(self) -> bool {
        self.requested.is_some() || self.completed.is_some()
    }

    /// The sequencer after a round trip `sequence` finished, and what to do.
    pub open spec fn after_done(self, from_core: bool, sequence: i32) -> (ShutdownSequencer, DoneAction) {
        if !from_core {
            (self, DoneAction::Ignore)
        } else if self.requested == Some(sequence) {
            (ShutdownSequencer { requested: None, ..self }, DoneAction::FinishShutdown)
        } else if self.completed == Some(sequence) {
            (ShutdownSequencer { completed: None, ..self }, DoneAction::Settle)
        } else {
            (self, DoneAction::Ignore)
        }
    }

    /// No shutdown under way.
    pub fn new() -> (sequencer: ShutdownSequencer)
        ensures
            sequencer == (ShutdownSequencer { requested: None, completed: None }),
    {
        ShutdownSequencer { requested: None, completed: None }
    }

    /// Whether a shutdown request starts the shutdown: only when none is
    /// under way; a repeated request is dropped.
    pub fn request(&self) -> (begin: bool)
        ensures
            begin == !self.pending(),
    {
        self.requested.is_none() && self.completed.is_none()
    }

    /// Records the round trip that the disconnect started, or, when it could
    /// not be started, answers that the main loop must quit.
    pub fn began(&mut self, sequence: Option<i32>) -> (quit: bool)
        ensures
            quit == sequence.is_none(),
            *final(self) == (match sequence {
                Some(s) => ShutdownSequencer { requested: Some(s), ..*old(self) },
                None => *old(self),
            }),
    {
        match sequence {
            Some(s) => {
                self.requested = Some(s);
                false
            },
            None => true,
        }
    }

    /// Decides what a finished round trip means for the shutdown.
    pub fn on_done(&mut self, from_core: bool, sequence: i32) -> (action: DoneAction)
        ensures
            (*final(self), action) == old(self).after_done(from_core, sequence),
    {
        if !from_core {
            return DoneAction::Ignore;
        }
        if self.requested == Some(sequence) {
            self.requested = None;
            DoneAction::FinishShutdown
        } else if self.completed == Some(sequence) {
            self.completed = None;
            DoneAction::Settle
        } else {
            DoneAction::Ignore
        }
    }

    /// Records the round trip that the relink started, or, when it could not
    /// be started, answers that the links must settle now.
    pub fn finished(&mut self, sequence: Option<i32>) -> (settle: bool)
        ensures
            settle == sequence.is_none(),
            *final(self) == (match sequence {
                Some(s) => ShutdownSequencer { completed: Some(s), ..*old(self) },
                None => *old(self),
            }),
    {
        match sequence {
            Some(s) => {
                self.completed = Some(s);
                false
            },
            None => true,
        }
    }
}

/// A round trip that is not awaited changes nothing and does nothing.
pub proof fn unawaited_round_trips_are_ignored(
    sequencer: ShutdownSequencer,
    from_core: bool,
    sequence: i32,
)
    requires
        !from_core || (sequencer.requested != Some(sequence) && sequencer.completed != Some(
            sequence,
        )),
    ensures
        sequencer.after_done(from_core, sequence) == (sequencer, DoneAction::Ignore),
{
}

/// Each awaited round trip is answered once: the same report a second time is
/// ignored (unless both round trips carry the same number).
pub proof fn round_trips_are_answered_once(
    sequencer: ShutdownSequencer,
    from_core: bool,
    sequence: i32,
)
    requires
        !(sequencer.requested == Some(sequence) && sequencer.completed == Some(sequence)),
    ensures
        ({
            let (next, action) = sequencer.after_done(from_core, sequence);
            action != DoneAction::Ignore ==> next.after_done(from_core, sequence) == (
            next,
            DoneAction::Ignore,
            )
        }),
{
}

/// An orderly shutdown: once the disconnect round trip `a` and the relink
/// round trip `b` are both answered, the sequencer asks to settle and is idle
/// again, and while either is awaited a new request is dropped.
pub proof fn shutdown_runs_to_settle(a: i32, b: i32)
    ensures
        ({
            let idle = ShutdownSequencer { requested: None, completed: None };
            let waiting = ShutdownSequencer { requested: Some(a), ..idle };
            let (relinking, first) = waiting.after_done(true, a);
            let relinked = ShutdownSequencer { completed: Some(b), ..relinking };
            let (done, second) = relinked.after_done(true, b);
            &&& !idle.pending()
            &&& waiting.pending() && relinked.pending()
            &&& first == DoneAction::FinishShutdown
            &&& second == DoneAction::Settle
            &&& done == idle
        }),
{
}

} // verus!
