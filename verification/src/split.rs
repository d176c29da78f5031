use vstd::prelude::*;

verus! {

/// The two endpoints of the private channel pair, created before the
/// process splits so that no third process can observe or join it.
#[derive(Clone, Copy, Debug, PartialEq, Eq, Structural)]
pub enum Endpoint {
    /// The endpoint serving the privileged control plane.
    ControlEnd,
    /// The endpoint serving the restricted, outward-facing branch.
    EdgeEnd,
}

/// What the process-duplication call reported.
#[derive(Clone, Copy, Debug, PartialEq, Eq, Structural)]
pub enum ForkOutcome {
    /// This process is the original: it keeps its elevated identity.
    Parent,
    /// This process is the duplicate: it must downgrade its identity.
    Child,
    /// Duplication failed.
    Failed,
}

/// Which branch of the split this process is.
#[derive(Clone, Copy, Debug, PartialEq, Eq, Structural)]
pub enum Role {
    /// Elevated identity; runs the control plane.
    Privileged,
    /// Downgraded identity; runs the outward-facing edge.
    Restricted,
}

/// The endpoint a role keeps; the other endpoint must be closed at once,
/// so each endpoint belongs exclusively to one process.
pub open spec fn spec_kept_endpoint(r: Role) -> Endpoint {
    match r {
        Role::Privileged => Endpoint::ControlEnd,
        Role::Restricted => Endpoint::EdgeEnd,
    }
}

/// The role a branch takes from the fork outcome; `None` means the whole
/// agent fails fast — a failed duplication leaves no partial state.
pub fn role_of(f: ForkOutcome) -> (r: Option<Role>)
    ensures
        r == (match f {
            ForkOutcome::Parent => Some(Role::Privileged),
            ForkOutcome::Child => Some(Role::Restricted),
            ForkOutcome::Failed => None::<Role>,
        }),
{
    match f {
        ForkOutcome::Parent => Some(Role::Privileged),
        ForkOutcome::Child => Some(Role::Restricted),
        ForkOutcome::Failed => None,
    }
}

/// The endpoint this role keeps.
pub fn kept_endpoint(r: Role) -> (e: Endpoint)
    ensures
        e == spec_kept_endpoint(r),
{
    match r {
        Role::Privileged => Endpoint::ControlEnd,
        Role::Restricted => Endpoint::EdgeEnd,
    }
}

/// The endpoint this role must close immediately after the split, so that
/// no descriptor leaks across the privilege boundary.
pub fn closed_endpoint(r: Role) -> (e: Endpoint)
    ensures
        e != spec_kept_endpoint(r),
        r == Role::Privileged ==> e == Endpoint::EdgeEnd,
        r == Role::Restricted ==> e == Endpoint::ControlEnd,
{
    match r {
        Role::Privileged => Endpoint::EdgeEnd,
        Role::Restricted => Endpoint::ControlEnd,
    }
}

/// Law: endpoint ownership is exclusive — the two roles keep different
/// endpoints, and together they keep both, so each endpoint belongs to
/// exactly one branch after the split.
pub proof fn lemma_endpoint_exclusive()
    ensures
        spec_kept_endpoint(Role::Privileged) != spec_kept_endpoint(Role::Restricted),
{
}

/// Progress of the identity downgrade in the restricted branch.
///
/// The downgrade is a strict two-step operation: the group is dropped
/// first, and the user is dropped only after the group drop succeeded —
/// dropping the user first would forbid dropping the group afterwards.
/// Any failure aborts the branch before it does any work; a failed
/// downgrade is never ignored, since continuing would run outward-facing
/// code at elevated privilege.
#[derive(Clone, Copy, Debug, PartialEq, Eq, Structural)]
pub enum DowngradeStep {
    /// Nothing dropped yet.
    Start,
    /// The group has been dropped; the user may be dropped now.
    GroupDropped,
    /// Group and user are dropped: the branch may begin serving.
    Done,
    /// A drop failed: the branch must exit without serving.
    Aborted,
}

/// What the next identity-change call reported.
#[derive(Clone, Copy, Debug, PartialEq, Eq, Structural)]
pub enum DownEvent {
    /// The group drop returned, successfully or not.
    GroupResult(bool),
    /// The user drop returned, successfully or not.
    UserResult(bool),
}

/// The downgrade transition function.  An event that does not belong to
/// the current step (a user result before the group was dropped, or any
/// event after the downgrade ended) aborts: the protocol tolerates no
/// out-of-order identity changes.
pub open spec fn spec_downgrade_step(s: DowngradeStep, ev: DownEvent) -> DowngradeStep {
    match (s, ev) {
        (DowngradeStep::Start, DownEvent::GroupResult(true)) => DowngradeStep::GroupDropped,
        (DowngradeStep::GroupDropped, DownEvent::UserResult(true)) => DowngradeStep::Done,
        _ => DowngradeStep::Aborted,
    }
}

/// The identity downgrade of the restricted branch, driven by the runner:
/// it performs each identity-change call and feeds the result back.
#[derive(Clone, Copy, Debug)]
pub struct Downgrade {
    /// The restricted user to become.
    pub uid: u32,
    /// The restricted group to become.
    pub gid: u32,
    /// How far the downgrade has come.
    pub step: DowngradeStep,
}

impl Downgrade {
    /// A downgrade towards the given restricted identity, nothing dropped
    /// yet.
    pub fn new(uid: u32, gid: u32) -> (d: Downgrade)
        ensures
            d.uid == uid,
            d.gid == gid,
            d.step == DowngradeStep::Start,
    {
        Downgrade { uid, gid, step: DowngradeStep::Start }
    }

    /// Feed the outcome of an identity-change call into the downgrade.
    pub fn advance(&mut self, ev: DownEvent)
        ensures
            final(self).uid == old(self).uid,
            final(self).gid == old(self).gid,
            final(self).step == spec_downgrade_step(old(self).step, ev),
    {
        self.step = match (self.step, ev) {
            (DowngradeStep::Start, DownEvent::GroupResult(true)) => DowngradeStep::GroupDropped,
            (DowngradeStep::GroupDropped, DownEvent::UserResult(true)) => DowngradeStep::Done,
            _ => DowngradeStep::Aborted,
        };
    }

    /// Whether the branch may start serving outward-facing requests: only
    /// with the downgrade fully done.
    pub fn may_serve(&self) -> (r: bool)
        ensures
            r == (self.step == DowngradeStep::Done),
    {
        self.step == DowngradeStep::Done
    }
}

/// Law: the downgrade order is strict.  `Done` is reachable only from
/// `GroupDropped` by a successful user drop, and `GroupDropped` only from
/// `Start` by a successful group drop — so the user is never dropped
/// before the group, and a failed step can never be followed by a
/// successful downgrade.
pub proof fn lemma_downgrade_order(s: DowngradeStep, ev: DownEvent)
    ensures
        spec_downgrade_step(s, ev) == DowngradeStep::Done ==> s == DowngradeStep::GroupDropped
            && ev == DownEvent::UserResult(true),
        spec_downgrade_step(s, ev) == DowngradeStep::GroupDropped ==> s == DowngradeStep::Start
            && ev == DownEvent::GroupResult(true),
        s == DowngradeStep::Aborted ==> spec_downgrade_step(s, ev) == DowngradeStep::Aborted,
{
}

/// Progress of the startup sequence, up to the split.  The order is
/// fixed: the root filesystem is mounted first, the private channel pair
/// is created next (strictly before the split, so each end is inherited),
/// the restricted identity's private directory is created and chowned
/// before the split (the restricted branch could not create it
/// afterwards), and only then does the process duplicate.
#[derive(Clone, Copy, Debug, PartialEq, Eq, Structural)]
pub enum BootStep {
    /// Nothing done yet.
    Init,
    /// The minimal root filesystem is mounted.
    Mounted,
    /// The channel pair exists.
    ChannelReady,
    /// The restricted identity's private directory exists with the right
    /// owner.
    DirPrepared,
    /// The split happened; this process now has a role.
    SplitDone,
    /// A startup step failed: the agent aborts with a non-zero exit code.
    FailedStartup,
}

/// The startup state machine, driven by the runner.
#[derive(Clone, Copy, Debug)]
pub struct Boot {
    /// How far startup has come.
    pub step: BootStep,
}

impl Boot {
    /// Startup not begun.
    pub fn new() -> (b: Boot)
        ensures
            b.step == BootStep::Init,
    {
        Boot { step: BootStep::Init }
    }

    /// The bootstrap collaborator mounted the root filesystem (or failed).
    pub fn mount_result(&mut self, ok: bool)
        requires
            old(self).step == BootStep::Init,
        ensures
            final(self).step == (if ok {
                BootStep::Mounted
            } else {
                BootStep::FailedStartup
            }),
    {
        self.step = if ok {
            BootStep::Mounted
        } else {
            BootStep::FailedStartup
        };
    }

    /// The private channel pair was created (or not).  Requires the
    /// filesystem mounted first.
    pub fn channel_result(&mut self, ok: bool)
        requires
            old(self).step == BootStep::Mounted,
        ensures
            final(self).step == (if ok {
                BootStep::ChannelReady
            } else {
                BootStep::FailedStartup
            }),
    {
        self.step = if ok {
            BootStep::ChannelReady
        } else {
            BootStep::FailedStartup
        };
    }

    /// The restricted identity's private directory was created and chowned
    /// (or not).  Requires the channel first, and comes strictly before
    /// the split.
    pub fn dir_result(&mut self, ok: bool)
        requires
            old(self).step == BootStep::ChannelReady,
        ensures
            final(self).step == (if ok {
                BootStep::DirPrepared
            } else {
                BootStep::FailedStartup
            }),
    {
        self.step = if ok {
            BootStep::DirPrepared
        } else {
            BootStep::FailedStartup
        };
    }

    /// The process duplicated (or failed to).  Admissible only with the
    /// directory prepared — so the split can never precede the directory,
    /// the channel, or the mount.  Returns the branch's role, or `None`
    /// on a failed duplication, which fails the whole agent fast.
    pub fn fork_result(&mut self, f: ForkOutcome) -> (r: Option<Role>)
        requires
            old(self).step == BootStep::DirPrepared,
        ensures
            r == (match f {
                ForkOutcome::Parent => Some(Role::Privileged),
                ForkOutcome::Child => Some(Role::Restricted),
                ForkOutcome::Failed => None::<Role>,
            }),
            final(self).step == (if f == ForkOutcome::Failed {
                BootStep::FailedStartup
            } else {
                BootStep::SplitDone
            }),
    {
        let r = role_of(f);
        self.step = if r.is_some() {
            BootStep::SplitDone
        } else {
            BootStep::FailedStartup
        };
        r
    }
}

} // verus!
