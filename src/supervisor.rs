use vstd::prelude::*;

verus! {

/// The lifecycle of one host.
#[derive(Clone, Copy, Debug, PartialEq, Eq, Structural)]
pub enum Phase {
    /// Identity and roster are empty.
    Created,
    /// Identity and roster are being loaded and the startup connect pass runs.
    Initializing,
    /// The transport is serviced tick by tick.
    Running,
    /// Configuration is to be reloaded before initialising again.
    Restarting,
    /// Terminal: nothing is serviced any more.
    Stopped,
}

/// What moves a host from one phase to the next.
#[derive(Clone, Copy, Debug, PartialEq, Eq, Structural)]
pub enum PhaseEvent {
    Start,
    /// The outcome of loading identity and roster and of the connect pass.
    Initialized(bool),
    Tick,
    Restart,
    Stop,
}

/// The phase that `e` leads to from `p`; an event that does not apply to a
/// phase leaves it as it is.
pub open spec fn next_phase(p: Phase, e: PhaseEvent) -> Phase {
    match (p, e) {
        (Phase::Stopped, _) => Phase::Stopped,
        (Phase::Created, PhaseEvent::Start) => Phase::Initializing,
        (Phase::Restarting, PhaseEvent::Start) => Phase::Initializing,
        (Phase::Initializing, PhaseEvent::Initialized(true)) => Phase::Running,
        (Phase::Initializing, PhaseEvent::Initialized(false)) => Phase::Stopped,
        (Phase::Running, PhaseEvent::Restart) => Phase::Restarting,
        (Phase::Running, PhaseEvent::Stop) => Phase::Stopped,
        _ => p,
    }
}

impl Phase {
    pub fn next(self, e: PhaseEvent) -> (r: Phase)
        ensures
            r == next_phase(self, e),
    {
        match (self, e) {
            (Phase::Stopped, _) => Phase::Stopped,
            (Phase::Created, PhaseEvent::Start) => Phase::Initializing,
            (Phase::Restarting, PhaseEvent::Start) => Phase::Initializing,
            (Phase::Initializing, PhaseEvent::Initialized(ok)) => {
                if ok {
                    Phase::Running
                } else {
                    Phase::Stopped
                }
            },
            (Phase::Running, PhaseEvent::Restart) => Phase::Restarting,
            (Phase::Running, PhaseEvent::Stop) => Phase::Stopped,
            _ => self,
        }
    }

    /// Whether the transport is serviced in this phase.
    pub fn is_running(self) -> (r: bool)
        ensures
            r == (self == Phase::Running),
    {
        match self {
            Phase::Running => true,
            _ => false,
        }
    }
}

/// Once stopped, a host stays stopped whatever happens.
pub proof fn lemma_stopped_is_terminal(e: PhaseEvent)
    ensures
        next_phase(Phase::Stopped, e) == Phase::Stopped,
{
}

/// A host reaches `Running` only from `Initializing`, through a successful
/// initialisation, and a failed one ends in `Stopped`.
pub proof fn lemma_running_needs_initialization(p: Phase, e: PhaseEvent)
    ensures
        next_phase(p, e) == Phase::Running ==> p == Phase::Running || (p == Phase::Initializing
            && e == PhaseEvent::Initialized(true)),
        p == Phase::Initializing && e == PhaseEvent::Initialized(false) ==> next_phase(p, e)
            == Phase::Stopped,
{
}

/// The next move of a pass that tries `total` steps in order and stops at the
/// first that fails: the startup connect pass over its targets, or the
/// initialisation of each host of a node.
#[derive(Clone, Copy, Debug, PartialEq, Eq, Structural)]
pub enum PassStep {
    /// Try the step at this position next.
    Next(usize),
    /// Every step succeeded.
    Done,
    /// The last step tried failed: the pass stops there.
    Failed,
}

/// After `attempted` steps, the last of which succeeded where `last_ok`
/// (true before the first step), what the pass does next.
pub fn pass_step(total: usize, attempted: usize, last_ok: bool) -> (r: PassStep)
    requires
        attempted <= total,
    ensures
        !last_ok ==> r == PassStep::Failed,
        last_ok && attempted < total ==> r == PassStep::Next(attempted),
        last_ok && attempted == total ==> r == PassStep::Done,
{
    if !last_ok {
        PassStep::Failed
    } else if attempted < total {
        PassStep::Next(attempted)
    } else {
        PassStep::Done
    }
}

} // verus!
