use vstd::prelude::*;

verus! {

/// How a branch of the agent ended.
#[derive(Clone, Copy, Debug, PartialEq, Eq, Structural)]
pub enum ExitKind {
    /// Orderly supervised shutdown: the only zero exit.
    CleanShutdown,
    /// The root-filesystem mount failed.
    MountFailure,
    /// Creating the channel pair failed.
    ChannelFailure,
    /// Process duplication failed.
    SplitFailure,
    /// The identity downgrade failed in the restricted branch.
    DowngradeFailure,
    /// The branch's service loop ended with an error.
    ServiceError,
}

/// What the supervisor does when the privileged branch terminates.
#[derive(Clone, Copy, Debug, PartialEq, Eq, Structural)]
pub enum SupervisorAction {
    /// This process is the virtual machine's first process: power the
    /// whole machine off — the agent's lifetime is the machine's lifetime.
    PowerOff,
    /// Nested or test execution: report termination to the parent process.
    ReportToParent,
}

/// Decide what follows the termination of the privileged branch's service
/// loop.  Whether this process is the machine's first process is injected
/// (`is_init`), not queried, so the decision is the same in a real and in
/// a nested run.
pub fn shutdown_action(is_init: bool) -> (a: SupervisorAction)
    ensures
        a == (if is_init {
            SupervisorAction::PowerOff
        } else {
            SupervisorAction::ReportToParent
        }),
{
    if is_init {
        SupervisorAction::PowerOff
    } else {
        SupervisorAction::ReportToParent
    }
}

/// Decide whether the privileged branch keeps serving when the restricted
/// branch ends.  A crash of the restricted branch is reported but never
/// tears the control plane down by itself: the control plane may serve a
/// reconnect.  Only an orderly shutdown of the restricted branch ends the
/// supervision.
pub fn keep_serving_after_peer_exit(peer: ExitKind) -> (r: bool)
    ensures
        r == (peer != ExitKind::CleanShutdown),
{
    !matches!(peer, ExitKind::CleanShutdown)
}

/// The process exit code for an outcome.
pub open spec fn spec_exit_code(k: ExitKind) -> i32 {
    match k {
        ExitKind::CleanShutdown => 0,
        ExitKind::MountFailure => 1,
        ExitKind::ChannelFailure => 2,
        ExitKind::SplitFailure => 3,
        ExitKind::DowngradeFailure => 4,
        ExitKind::ServiceError => 5,
    }
}

/// The process exit code for an outcome: zero exactly on an orderly
/// supervised shutdown, and a distinct non-zero code for every startup
/// failure and for a service error.
pub fn exit_code(k: ExitKind) -> (c: i32)
    ensures
        c == spec_exit_code(k),
        (c == 0) <==> (k == ExitKind::CleanShutdown),
{
    match k {
        ExitKind::CleanShutdown => 0,
        ExitKind::MountFailure => 1,
        ExitKind::ChannelFailure => 2,
        ExitKind::SplitFailure => 3,
        ExitKind::DowngradeFailure => 4,
        ExitKind::ServiceError => 5,
    }
}

/// Law: a failed identity downgrade never exits clean — the restricted
/// branch that could not drop its privileges reports a non-zero code
/// before serving anything, and so does every other startup failure.
pub proof fn lemma_startup_failures_nonzero(k: ExitKind)
    requires
        k != ExitKind::CleanShutdown,
    ensures
        spec_exit_code(k) != 0,
{
}

} // verus!
