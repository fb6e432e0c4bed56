use orbit_render::frame::{AcquireError, FrameCommand, FrameCycle, FrameEvent, FramePhase};

#[test]
fn frame_runs_through_every_phase() {
    let mut cycle = FrameCycle::new();
    assert_eq!(cycle.phase, FramePhase::Idle);
    assert_eq!(cycle.advance(FrameEvent::Tick), FrameCommand::Acquire);
    assert_eq!(cycle.advance(FrameEvent::Acquired), FrameCommand::Update);
    assert_eq!(cycle.phase, FramePhase::Updating);
    assert_eq!(cycle.advance(FrameEvent::Done), FrameCommand::Record);
    assert_eq!(cycle.advance(FrameEvent::Done), FrameCommand::Submit);
    assert_eq!(cycle.advance(FrameEvent::Done), FrameCommand::Present);
    assert_eq!(cycle.phase, FramePhase::Presented);
    assert_eq!(cycle.advance(FrameEvent::Done), FrameCommand::Wait);
    assert_eq!(cycle.phase, FramePhase::Idle);
}

#[test]
fn timeout_is_retried_once() {
    let mut cycle = FrameCycle::new();
    cycle.advance(FrameEvent::Tick);
    assert_eq!(cycle.advance(FrameEvent::AcquireFailed(AcquireError::Timeout)), FrameCommand::Acquire);
    assert_eq!(cycle.advance(FrameEvent::Acquired), FrameCommand::Update);
}

#[test]
fn lost_surface_is_reconfigured_then_retried() {
    for error in [AcquireError::Outdated, AcquireError::Lost, AcquireError::OutOfMemory] {
        let mut cycle = FrameCycle::new();
        cycle.advance(FrameEvent::Tick);
        assert_eq!(cycle.advance(FrameEvent::AcquireFailed(error)), FrameCommand::ReconfigureAndAcquire);
        assert_eq!(cycle.phase, FramePhase::Acquiring { retried: true });
    }
}

#[test]
fn second_failure_aborts() {
    let mut cycle = FrameCycle::new();
    cycle.advance(FrameEvent::Tick);
    cycle.advance(FrameEvent::AcquireFailed(AcquireError::Lost));
    assert_eq!(cycle.advance(FrameEvent::AcquireFailed(AcquireError::Timeout)), FrameCommand::Abort);
    assert_eq!(cycle.phase, FramePhase::Failed);
    assert_eq!(cycle.advance(FrameEvent::Tick), FrameCommand::Abort);
}

#[test]
fn unexpected_event_repeats_the_command() {
    let mut cycle = FrameCycle::new();
    assert_eq!(cycle.advance(FrameEvent::Done), FrameCommand::Wait);
    cycle.advance(FrameEvent::Tick);
    cycle.advance(FrameEvent::Acquired);
    assert_eq!(cycle.advance(FrameEvent::Tick), FrameCommand::Update);
    assert_eq!(cycle.phase, FramePhase::Updating);
}

#[test]
fn retry_budget_is_renewed_each_frame() {
    let mut cycle = FrameCycle::new();
    cycle.advance(FrameEvent::Tick);
    cycle.advance(FrameEvent::AcquireFailed(AcquireError::Timeout));
    cycle.advance(FrameEvent::Acquired);
    for _ in 0..4 {
        cycle.advance(FrameEvent::Done);
    }
    assert_eq!(cycle.advance(FrameEvent::Tick), FrameCommand::Acquire);
    assert_eq!(cycle.advance(FrameEvent::AcquireFailed(AcquireError::Timeout)), FrameCommand::Acquire);
}
