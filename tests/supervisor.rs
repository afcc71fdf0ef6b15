use node_network::supervisor::{pass_step, PassStep, Phase, PhaseEvent};

#[test]
fn lifecycle_reaches_running_through_initialization() {
    let p = Phase::Created.next(PhaseEvent::Tick);
    assert_eq!(p, Phase::Created);
    let p = p.next(PhaseEvent::Start);
    assert_eq!(p, Phase::Initializing);
    let p = p.next(PhaseEvent::Initialized(true));
    assert_eq!(p, Phase::Running);
    assert!(p.is_running());
    assert_eq!(p.next(PhaseEvent::Tick), Phase::Running);
    let r = p.next(PhaseEvent::Restart);
    assert_eq!(r, Phase::Restarting);
    assert!(!r.is_running());
    assert_eq!(r.next(PhaseEvent::Start), Phase::Initializing);
}

#[test]
fn failed_initialization_stops_for_good() {
    let p = Phase::Initializing.next(PhaseEvent::Initialized(false));
    assert_eq!(p, Phase::Stopped);
    for e in [PhaseEvent::Start, PhaseEvent::Tick, PhaseEvent::Restart, PhaseEvent::Initialized(true)] {
        assert_eq!(p.next(e), Phase::Stopped);
    }
    assert_eq!(Phase::Running.next(PhaseEvent::Stop), Phase::Stopped);
}

#[test]
fn pass_stops_at_first_failure() {
    assert_eq!(pass_step(3, 0, true), PassStep::Next(0));
    assert_eq!(pass_step(3, 2, true), PassStep::Next(2));
    assert_eq!(pass_step(3, 3, true), PassStep::Done);
    assert_eq!(pass_step(3, 1, false), PassStep::Failed);
    assert_eq!(pass_step(0, 0, true), PassStep::Done);
}
