use vstd::prelude::*;

verus! {

/// Lifecycle phase of a pod or of a container.
///
/// A record moves forward through `Created -> Running -> Stopping` and ends
/// in one of the terminal phases `Stopped` or `Failed`; it never moves
/// backward and never leaves a terminal phase.
#[derive(Clone, Copy, Debug, PartialEq, Eq, Structural)]
pub enum Phase {
    Created,
    Running,
    Stopping,
    Stopped,
    Failed,
}

impl Phase {
    /// Position of a phase in the forward-only lifecycle order; the two
    /// terminal phases share the last position.
    pub open spec fn rank(self) -> int {
        match self {
            Phase::Created => 0,
            Phase::Running => 1,
            Phase::Stopping => 2,
            Phase::Stopped => 3,
            Phase::Failed => 3,
        }
    }

    /// A terminal phase is never left.
    pub open spec fn is_terminal(self) -> bool {
        self is Stopped || self is Failed
    }

    /// Executable test for a terminal phase.
    pub fn terminal(self) -> (r: bool)
        ensures
            r == self.is_terminal(),
    {
        matches!(self, Phase::Stopped | Phase::Failed)
    }
}

/// The allowed transition table: a step never moves backward in the
/// lifecycle order, and a terminal phase only steps to itself.
pub open spec fn step_allowed(from: Phase, to: Phase) -> bool {
    &&& from.rank() <= to.rank()
    &&& from.is_terminal() ==> to == from
}

/// Monotonicity of the transition table: allowed steps compose, so a record
/// that only takes allowed steps never returns to an earlier phase.
pub proof fn lemma_step_allowed_transitive(a: Phase, b: Phase, c: Phase)
    requires
        step_allowed(a, b),
        step_allowed(b, c),
    ensures
        step_allowed(a, c),
{
}

} // verus!
