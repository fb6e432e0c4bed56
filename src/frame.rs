//! The per-frame state machine, with the retry policy for acquiring the
//! next presentable image.
use vstd::prelude::*;

verus! {

/// Why the next presentable image could not be had.
#[derive(Clone, Copy, Debug, PartialEq, Eq, Structural)]
pub enum AcquireError {
    Timeout,
    Outdated,
    Lost,
    OutOfMemory,
}

/// Where a frame stands. `Acquiring` records whether the one retry has
/// been spent.
#[derive(Clone, Copy, Debug, PartialEq, Eq, Structural)]
pub enum FramePhase {
    Idle,
    Acquiring { retried: bool },
    Updating,
    Recording,
    Submitting,
    Presented,
    Failed,
}

/// What the driver of the frame reports back.
#[derive(Clone, Copy, Debug, PartialEq, Eq, Structural)]
pub enum FrameEvent {
    /// Time for a new frame.
    Tick,
    /// The presentable image was acquired.
    Acquired,
    /// Acquiring the presentable image failed.
    AcquireFailed(AcquireError),
    /// The work of the current phase is done.
    Done,
}

/// What the driver of the frame must do next.
#[derive(Clone, Copy, Debug, PartialEq, Eq, Structural)]
pub enum FrameCommand {
    /// Wait for the next tick.
    Wait,
    /// Acquire the next presentable image.
    Acquire,
    /// Configure the surface again, then acquire.
    ReconfigureAndAcquire,
    /// Advance the time, camera and light uniforms and upload them.
    Update,
    /// Record the scene pass and the overlay pass.
    Record,
    /// Finish the commands and submit them.
    Submit,
    /// Present the acquired image.
    Present,
    /// Stop rendering: the surface cannot be acquired.
    Abort,
}

/// The command that a phase waits on.
pub open spec fn command_of(phase: FramePhase) -> FrameCommand {
    match phase {
        FramePhase::Idle => FrameCommand::Wait,
        FramePhase::Acquiring { .. } => FrameCommand::Acquire,
        FramePhase::Updating => FrameCommand::Update,
        FramePhase::Recording => FrameCommand::Record,
        FramePhase::Submitting => FrameCommand::Submit,
        FramePhase::Presented => FrameCommand::Present,
        FramePhase::Failed => FrameCommand::Abort,
    }
}

/// The next phase and command. A frame runs Idle, Acquiring, Updating,
/// Recording, Submitting, Presented and back to Idle. A failed acquire is
/// retried once: as is after a timeout, after configuring the surface again
/// otherwise; a second failure ends rendering. An event that the phase does
/// not wait for changes nothing and repeats the phase's command.
pub open spec fn frame_step(phase: FramePhase, event: FrameEvent) -> (FramePhase, FrameCommand) {
    match (phase, event) {
        (FramePhase::Idle, FrameEvent::Tick) => (
            FramePhase::Acquiring { retried: false },
            FrameCommand::Acquire,
        ),
        (FramePhase::Acquiring { .. }, FrameEvent::Acquired) => (
            FramePhase::Updating,
            FrameCommand::Update,
        ),
        (FramePhase::Acquiring { retried }, FrameEvent::AcquireFailed(error)) => if retried {
            (FramePhase::Failed, FrameCommand::Abort)
        } else if error == AcquireError::Timeout {
            (FramePhase::Acquiring { retried: true }, FrameCommand::Acquire)
        } else {
            (FramePhase::Acquiring { retried: true }, FrameCommand::ReconfigureAndAcquire)
        },
        (FramePhase::Updating, FrameEvent::Done) => (FramePhase::Recording, FrameCommand::Record),
        (FramePhase::Recording, FrameEvent::Done) => (
            FramePhase::Submitting,
            FrameCommand::Submit,
        ),
        (FramePhase::Submitting, FrameEvent::Done) => (
            FramePhase::Presented,
            FrameCommand::Present,
        ),
        (FramePhase::Presented, FrameEvent::Done) => (FramePhase::Idle, FrameCommand::Wait),
        _ => (phase, command_of(phase)),
    }
}

/// The per-frame state machine.
pub struct FrameCycle {
    pub phase: FramePhase,
}

impl FrameCycle {
    /// A cycle that waits for its first tick.
    pub fn new() -> (r: FrameCycle)
        ensures
            r.phase == FramePhase::Idle,
    {
        FrameCycle { phase: FramePhase::Idle }
    }

    /// Takes one event and says what to do next.
    pub fn advance(&mut self, event: FrameEvent) -> (command: FrameCommand)
        ensures
            (final(self).phase, command) == frame_step(old(self).phase, event),
    {
        let (phase, command) = match (self.phase, event) {
            (FramePhase::Idle, FrameEvent::Tick) => (
                FramePhase::Acquiring { retried: false },
                FrameCommand::Acquire,
            ),
            (FramePhase::Acquiring { .. }, FrameEvent::Acquired) => (
                FramePhase::Updating,
                FrameCommand::Update,
            ),
            (FramePhase::Acquiring { retried }, FrameEvent::AcquireFailed(error)) => if retried {
                (FramePhase::Failed, FrameCommand::Abort)
            } else {
                match error {
                    AcquireError::Timeout => (
                        FramePhase::Acquiring { retried: true },
                        FrameCommand::Acquire,
                    ),
                    _ => (
                        FramePhase::Acquiring { retried: true },
                        FrameCommand::ReconfigureAndAcquire,
                    ),
                }
            },
            (FramePhase::Updating, FrameEvent::Done) => (
                FramePhase::Recording,
                FrameCommand::Record,
            ),
            (FramePhase::Recording, FrameEvent::Done) => (
                FramePhase::Submitting,
                FrameCommand::Submit,
            ),
            (FramePhase::Submitting, FrameEvent::Done) => (
                FramePhase::Presented,
                FrameCommand::Present,
            ),
            (FramePhase::Presented, FrameEvent::Done) => (FramePhase::Idle, FrameCommand::Wait),
            (phase, _) => (phase, phase_command(phase)),
        };
        self.phase = phase;
        command
    }
}

fn phase_command(phase: FramePhase) -> (r: FrameCommand)
    ensures
        r == command_of(phase),
{
    match phase {
        FramePhase::Idle => FrameCommand::Wait,
        FramePhase::Acquiring { .. } => FrameCommand::Acquire,
        FramePhase::Updating => FrameCommand::Update,
        FramePhase::Recording => FrameCommand::Record,
        FramePhase::Submitting => FrameCommand::Submit,
        FramePhase::Presented => FrameCommand::Present,
        FramePhase::Failed => FrameCommand::Abort,
    }
}

/// At most one retry per frame: two failed acquires in a row end rendering,
/// whatever the errors were, and nothing leaves the failed phase.
pub proof fn lemma_second_acquire_failure_is_fatal(first: AcquireError, second: AcquireError, later: FrameEvent)
    ensures
        ({
            let (p1, _) = frame_step(FramePhase::Acquiring { retried: false }, FrameEvent::AcquireFailed(first));
            let (p2, c2) = frame_step(p1, FrameEvent::AcquireFailed(second));
            &&& p2 == FramePhase::Failed
            &&& c2 == FrameCommand::Abort
            &&& frame_step(p2, later) == (FramePhase::Failed, FrameCommand::Abort)
        }),
{
}

} // verus!
