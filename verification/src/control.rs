use vstd::prelude::*;

use crate::errors::ApiError;
use crate::state::Phase;

verus! {

/// One managed workload process, owned by exactly one pod.
#[derive(Clone, Copy, Debug)]
pub struct Container {
    /// The owning pod (an index into the pod arena); containers are never
    /// orphaned.
    pub pod: usize,
    /// Lifecycle phase of this container.
    pub phase: Phase,
    /// Whether the pod needs this container to count as healthy.
    pub required: bool,
    /// A start is in flight on this container: the privileged setup call
    /// has been issued and its outcome has not come back yet.
    pub busy: bool,
    /// Opaque workload descriptor; resolved by the image collaborator.
    pub image: u64,
    /// The process handle, once the workload runs.
    pub process: Option<u64>,
    /// The exit status, recorded exactly once when the workload ends.
    pub exit_status: Option<i64>,
    /// While the container is `Stopping`: the instant at which the graceful
    /// wait ends and the process is force-terminated.
    pub deadline: Option<u64>,
    /// False once the record has been removed.
    pub present: bool,
}

/// A group of containers sharing one resource scope, with an aggregate
/// lifecycle phase.
#[derive(Clone, Copy, Debug)]
pub struct Pod {
    /// Lifecycle phase of the pod.
    pub phase: Phase,
    /// False once the record has been removed.
    pub present: bool,
}

/// Every present member of pod `p` in `cs` has reached a terminal phase.
pub open spec fn members_terminal(cs: Seq<Container>, p: int) -> bool {
    forall|i: int|
        0 <= i < cs.len() && (#[trigger] cs[i]).present && cs[i].pod == p
            ==> cs[i].phase.is_terminal()
}

/// Some present member of pod `p` in `cs` was required for readiness and has
/// failed.
pub open spec fn required_failed(cs: Seq<Container>, p: int) -> bool {
    exists|i: int|
        0 <= i < cs.len() && (#[trigger] cs[i]).present && cs[i].pod == p && cs[i].required
            && cs[i].phase is Failed
}

/// The phase a pod with members `cs` and current phase `ph` settles to when
/// its membership is reexamined: once every member is terminal, a pod whose
/// required member failed becomes `Failed`, a pod that was being stopped
/// becomes `Stopped`, and otherwise the pod keeps its phase (a running pod
/// with only optional members failed stays degraded but running).
pub open spec fn resolved_phase(cs: Seq<Container>, ph: Phase, p: int) -> Phase {
    if (ph is Running || ph is Stopping) && members_terminal(cs, p) {
        if required_failed(cs, p) {
            Phase::Failed
        } else if ph is Stopping {
            Phase::Stopped
        } else {
            ph
        }
    } else {
        ph
    }
}

/// The authoritative pod/container state.  The privileged branch is its
/// sole owner; every mutation goes through one of the operations below, and
/// the operations are serialized by the privileged branch's single event
/// loop, so no two of them ever interleave on the same state.
pub struct ControlPlane {
    /// Pod arena; a pod's identifier is its index, so identifiers stay
    /// stable across removals.
    pub pods: Vec<Pod>,
    /// Container arena, addressed the same way.
    pub containers: Vec<Container>,
}

impl ControlPlane {
    /// Consistency of one container record with its surroundings.
    pub open spec fn container_ok(self, i: int) -> bool {
        let c = self.containers@[i];
        &&& c.pod < self.pods@.len()
        &&& c.present ==> self.pods@[c.pod as int].present
        &&& c.phase is Running ==> c.present && self.pods@[c.pod as int].phase is Running
            && c.process is Some
        &&& c.phase is Stopping ==> c.present && c.deadline is Some && c.process is Some
        &&& c.phase is Created ==> c.process is None
        &&& !c.phase.is_terminal() ==> c.exit_status is None
        &&& c.busy ==> c.present && c.phase is Created
        &&& !(c.phase is Stopping) ==> c.deadline is None
    }

    /// Consistency of one pod record: a pod is `Stopped` only once every
    /// present member is terminal.
    pub open spec fn pod_ok(self, p: int) -> bool {
        self.pods@[p].phase is Stopped ==> members_terminal(self.containers@, p)
    }

    /// Well-formedness of the whole state; established by `new` and
    /// preserved by every operation.
    pub open spec fn wf(self) -> bool {
        &&& forall|i: int| 0 <= i < self.containers@.len() ==> #[trigger] self.container_ok(i)
        &&& forall|p: int| 0 <= p < self.pods@.len() ==> #[trigger] self.pod_ok(p)
    }

    /// The pod exists and has not been removed.
    pub open spec fn pod_live(self, p: int) -> bool {
        &&& 0 <= p < self.pods@.len()
        &&& self.pods@[p].present
    }

    /// The container exists and has not been removed.
    pub open spec fn container_live(self, c: int) -> bool {
        &&& 0 <= c < self.containers@.len()
        &&& self.containers@[c].present
    }

    /// An empty control plane.
    pub fn new() -> (s: ControlPlane)
        ensures
            s.wf(),
            s.pods@.len() == 0,
            s.containers@.len() == 0,
    {
        ControlPlane { pods: Vec::new(), containers: Vec::new() }
    }

    /// Number of pod records ever created.
    pub fn pod_count(&self) -> (n: usize)
        ensures
            n == self.pods@.len(),
    {
        self.pods.len()
    }

    /// Number of container records ever created.
    pub fn container_count(&self) -> (n: usize)
        ensures
            n == self.containers@.len(),
    {
        self.containers.len()
    }

    /// Query one pod record.
    pub fn get_pod(&self, p: usize) -> (r: Option<Pod>)
        ensures
            r matches Some(rec) ==> p < self.pods@.len() && rec == self.pods@[p as int],
            r is None <==> p >= self.pods@.len(),
    {
        if p < self.pods.len() {
            Some(self.pods[p])
        } else {
            None
        }
    }

    /// Query one container record.
    pub fn get_container(&self, c: usize) -> (r: Option<Container>)
        ensures
            r matches Some(rec) ==> c < self.containers@.len() && rec == self.containers@[
                c as int
            ],
            r is None <==> c >= self.containers@.len(),
    {
        if c < self.containers.len() {
            Some(self.containers[c])
        } else {
            None
        }
    }

    /// Identifiers of the present members of pod `p`, in creation order:
    /// exactly the containers that are present and owned by `p`, each
    /// listed once.
    pub fn list_members(&self, p: usize) -> (ids: Vec<usize>)
        ensures
            forall|j: int|
                0 <= j < ids@.len() ==> {
                    &&& (#[trigger] ids@[j]) < self.containers@.len()
                    &&& self.containers@[ids@[j] as int].present
                    &&& self.containers@[ids@[j] as int].pod == p
                },
            forall|i: int|
                0 <= i < self.containers@.len() && (#[trigger] self.containers@[i]).present
                    && self.containers@[i].pod == p ==> ids@.contains(i as usize),
            forall|a: int, b: int| 0 <= a < b < ids@.len() ==> ids@[a] < ids@[b],
    {
        let n = self.containers.len();
        let mut ids: Vec<usize> = Vec::new();
        let mut i: usize = 0;
        while i < n
            invariant
                n == self.containers@.len(),
                i <= n,
                forall|j: int|
                    0 <= j < ids@.len() ==> {
                        &&& (#[trigger] ids@[j]) < i
                        &&& self.containers@[ids@[j] as int].present
                        &&& self.containers@[ids@[j] as int].pod == p
                    },
                forall|k: int|
                    0 <= k < i && (#[trigger] self.containers@[k]).present && self.containers@[
                        k
                    ].pod == p ==> ids@.contains(k as usize),
                forall|a: int, b: int| 0 <= a < b < ids@.len() ==> ids@[a] < ids@[b],
            decreases n - i,
        {
            let k = self.containers[i];
            if k.present && k.pod == p {
                let ghost pre_ids = ids@;
                ids.push(i);
                proof {
                    assert forall|k2: int|
                        0 <= k2 < i + 1 && (#[trigger] self.containers@[k2]).present && self
                            .containers@[k2].pod == p implies ids@.contains(k2 as usize) by {
                        if k2 < i {
                            let w = choose|w: int|
                                0 <= w < pre_ids.len() && pre_ids[w] == k2 as usize;
                            assert(ids@[w] == k2 as usize);
                        } else {
                            assert(ids@[ids@.len() - 1] == k2 as usize);
                        }
                    }
                }
            }
            i = i + 1;
        }
        ids
    }

    /// Create a pod.  The new pod is `Created`, present, and empty; its
    /// identifier is returned.
    pub fn create_pod(&mut self) -> (p: usize)
        requires
            old(self).wf(),
            old(self).pods@.len() < usize::MAX,
        ensures
            final(self).wf(),
            p == old(self).pods@.len(),
            final(self).pods@ == old(self).pods@.push(
                Pod { phase: Phase::Created, present: true },
            ),
            final(self).containers@ == old(self).containers@,
            final(self).pod_live(p as int),
            final(self).pods@[p as int].phase is Created,
    {
        let p = self.pods.len();
        self.pods.push(Pod { phase: Phase::Created, present: true });
        proof {
            assert forall|i: int| 0 <= i < self.containers@.len() implies #[trigger] self
                .container_ok(i) by {
            assert(old(self).container_ok(i));
            }
            assert forall|q: int| 0 <= q < self.pods@.len() implies #[trigger] self.pod_ok(
                q,
            ) by {
                if q < p {
                    assert(old(self).pod_ok(q));
                }
            }
        }
        p
    }

    /// Why creating a container under pod `p` would be refused, if it would
    /// be: the pod must exist and must not have begun stopping.
    pub open spec fn create_container_check(self, p: int) -> Option<ApiError> {
        if !self.pod_live(p) {
            Some(ApiError::NotFound)
        } else if !(self.pods@[p].phase is Created || self.pods@[p].phase is Running) {
            Some(ApiError::StateConflict)
        } else {
            None
        }
    }

    /// Create a container under pod `p` with an opaque workload descriptor.
    /// The new container is `Created` and owned by `p`; refused exactly as
    /// `create_container_check` says, and a refused call changes nothing.
    pub fn create_container(&mut self, p: usize, image: u64, required: bool) -> (r: Result<
        usize,
        ApiError,
    >)
        requires
            old(self).wf(),
            old(self).containers@.len() < usize::MAX,
        ensures
            final(self).wf(),
            r is Err <==> old(self).create_container_check(p as int) is Some,
            r matches Err(e) ==> Some(e) == old(self).create_container_check(p as int)
                && *final(self) == *old(self),
            r matches Ok(c) ==> {
                &&& c == old(self).containers@.len()
                &&& final(self).containers@ == old(self).containers@.push(
                    Container {
                        pod: p,
                        phase: Phase::Created,
                        required,
                        busy: false,
                        image,
                        process: None,
                        exit_status: None,
                        deadline: None,
                        present: true,
                    },
                )
                &&& final(self).pods@ == old(self).pods@
            },
    {
        if p >= self.pods.len() || !self.pods[p].present {
            return Err(ApiError::NotFound);
        }
        let ph = self.pods[p].phase;
        if !(ph == Phase::Created || ph == Phase::Running) {
            return Err(ApiError::StateConflict);
        }
        let c = self.containers.len();
        self.containers.push(
            Container {
                pod: p,
                phase: Phase::Created,
                required,
                busy: false,
                image,
                process: None,
                exit_status: None,
                deadline: None,
                present: true,
            },
        );
        proof {
            assert forall|i: int| 0 <= i < self.containers@.len() implies #[trigger] self
                .container_ok(i) by {
                if i < c {
                    assert(old(self).container_ok(i));
                }
            }
            assert forall|q: int| 0 <= q < self.pods@.len() implies #[trigger] self.pod_ok(
                q,
            ) by {
                assert(old(self).pod_ok(q));
                if self.pods@[q].phase is Stopped {
                    assert forall|i: int|
                        0 <= i < self.containers@.len() && (#[trigger] self.containers@[
                            i
                        ]).present && self.containers@[i].pod == q implies self.containers@[
                        i
                    ].phase.is_terminal() by {
                        if i < c {
                            assert(old(self).containers@[i] == self.containers@[i]);
                        } else {
                            // the new container's pod is not Stopped
                            assert(old(self).pod_ok(q));
                        }
                    }
                }
            }
        }
        Ok(c)
    }

    /// Why starting container `c` would be refused, if it would be: the
    /// container must exist, must have no other operation in flight, must
    /// still be `Created`, and its pod must not have begun stopping.
    pub open spec fn start_check(self, c: int) -> Option<ApiError> {
        if !self.container_live(c) {
            Some(ApiError::NotFound)
        } else if self.containers@[c].busy {
            Some(ApiError::StateConflict)
        } else if !(self.containers@[c].phase is Created) {
            Some(ApiError::StateConflict)
        } else if !(self.pods@[self.containers@[c].pod as int].phase is Created
            || self.pods@[self.containers@[c].pod as int].phase is Running) {
            Some(ApiError::StateConflict)
        } else {
            None
        }
    }

    /// Admit a start on container `c`: mark the start in flight and move
    /// the owning pod to `Running`.  The caller then performs the
    /// privileged setup and reports its outcome through `finish_start`.
    /// Returns the opaque workload descriptor to hand to the setup
    /// collaborator.  Refused exactly as `start_check` says; a refused call
    /// changes nothing, so a container under a stopping pod stays
    /// `Created`.
    pub fn begin_start(&mut self, c: usize) -> (r: Result<u64, ApiError>)
        requires
            old(self).wf(),
        ensures
            final(self).wf(),
            r is Err <==> old(self).start_check(c as int) is Some,
            r matches Err(e) ==> Some(e) == old(self).start_check(c as int)
                && *final(self) == *old(self),
            r matches Ok(image) ==> {
                &&& image == old(self).containers@[c as int].image
                &&& start_applied_to(*old(self), *final(self), c as int)
            },
    {
        if c >= self.containers.len() || !self.containers[c].present {
            return Err(ApiError::NotFound);
        }
        let k = self.containers[c];
        proof {
            assert(old(self).container_ok(c as int));
        }
        if k.busy {
            return Err(ApiError::StateConflict);
        }
        if k.phase != Phase::Created {
            return Err(ApiError::StateConflict);
        }
        let podph = self.pods[k.pod].phase;
        if !(podph == Phase::Created || podph == Phase::Running) {
            return Err(ApiError::StateConflict);
        }
        self.containers[c] = Container {
            pod: k.pod,
            phase: Phase::Created,
            required: k.required,
            busy: true,
            image: k.image,
            process: None,
            exit_status: None,
            deadline: None,
            present: true,
        };
        self.pods[k.pod] = Pod { phase: Phase::Running, present: true };
        proof {
            assert forall|i: int| 0 <= i < self.containers@.len() implies #[trigger] self
                .container_ok(i) by {
                assert(old(self).container_ok(i));
            }
            assert forall|q: int| 0 <= q < self.pods@.len() implies #[trigger] self.pod_ok(
                q,
            ) by {
                assert(old(self).pod_ok(q));
                if self.pods@[q].phase is Stopped {
                    assert(q != k.pod as int);
                    assert forall|i: int|
                        0 <= i < self.containers@.len() && (#[trigger] self.containers@[
                            i
                        ]).present && self.containers@[i].pod == q implies self.containers@[
                        i
                    ].phase.is_terminal() by {
                        assert(old(self).containers@[i].pod == q || i == c);
                    }
                }
            }
        }
        Ok(k.image)
    }

    /// Record the outcome of the privileged setup call admitted by
    /// `begin_start`.  If the setup produced a process and the pod is still
    /// `Running`, the container is now `Running` with that handle.  If the
    /// pod left `Running` while the call was in flight, the container is
    /// `Failed` and the caller must terminate the process it just created
    /// (`Superseded`) — a container never runs under a pod that is not
    /// running.  If the setup failed, the container is `Failed`
    /// (`SetupFailed`).  In both failure cases the owning pod is
    /// reexamined as `resolved_phase` says.
    pub fn finish_start(&mut self, c: usize, handle: Option<u64>) -> (r: StartResult)
        requires
            old(self).wf(),
            c < old(self).containers@.len(),
            old(self).containers@[c as int].busy,
        ensures
            final(self).wf(),
            ({
                let k = old(self).containers@[c as int];
                let p = k.pod as int;
                let podph = old(self).pods@[p].phase;
                if handle is Some && podph is Running {
                    &&& r is Started
                    &&& final(self).containers@ == old(self).containers@.update(
                        c as int,
                        Container {
                            pod: k.pod,
                            phase: Phase::Running,
                            required: k.required,
                            busy: false,
                            image: k.image,
                            process: handle,
                            exit_status: None,
                            deadline: None,
                            present: true,
                        },
                    )
                    &&& final(self).pods@ == old(self).pods@
                } else {
                    &&& r == (if handle is Some {
                        StartResult::Superseded
                    } else {
                        StartResult::SetupFailed
                    })
                    &&& final(self).containers@ == old(self).containers@.update(
                        c as int,
                        Container {
                            pod: k.pod,
                            phase: Phase::Failed,
                            required: k.required,
                            busy: false,
                            image: k.image,
                            process: None,
                            exit_status: None,
                            deadline: None,
                            present: true,
                        },
                    )
                    &&& final(self).pods@ == old(self).pods@.update(
                        p,
                        Pod {
                            phase: resolved_phase(final(self).containers@, podph, p),
                            present: true,
                        },
                    )
                }
            }),
    {
        let k = self.containers[c];
        proof {
            assert(old(self).container_ok(c as int));
        }
        let podph = self.pods[k.pod].phase;
        if let Some(h) = handle {
            if podph == Phase::Running {
                self.containers[c] = Container {
                    pod: k.pod,
                    phase: Phase::Running,
                    required: k.required,
                    busy: false,
                    image: k.image,
                    process: Some(h),
                    exit_status: None,
                    deadline: None,
                    present: true,
                };
                proof {
                    assert forall|i: int| 0 <= i < self.containers@.len() implies #[trigger] self
                        .container_ok(i) by {
                        assert(old(self).container_ok(i));
                    }
                    assert forall|q: int| 0 <= q < self.pods@.len() implies #[trigger] self
                        .pod_ok(q) by {
                        assert(old(self).pod_ok(q));
                        if self.pods@[q].phase is Stopped {
                            // the pod of `c` is Running, so `c` belongs elsewhere
                            assert(old(self).container_ok(c as int));
                            assert forall|i: int|
                                0 <= i < self.containers@.len() && (#[trigger] self.containers@[
                                    i
                                ]).present && self.containers@[i].pod == q implies self
                                .containers@[i].phase.is_terminal() by {
                                assert(old(self).containers@[i].pod == q || i == c);
                            }
                        }
                    }
                }
                return StartResult::Started;
            }
        }
        self.containers[c] = Container {
            pod: k.pod,
            phase: Phase::Failed,
            required: k.required,
            busy: false,
            image: k.image,
            process: None,
            exit_status: None,
            deadline: None,
            present: true,
        };
        proof {
            assert forall|i: int| 0 <= i < self.containers@.len() implies #[trigger] self
                .container_ok(i) by {
                assert(old(self).container_ok(i));
            }
            assert forall|q: int| 0 <= q < self.pods@.len() implies #[trigger] self.pod_ok(
                q,
            ) by {
                assert(old(self).pod_ok(q));
                if self.pods@[q].phase is Stopped {
                    assert forall|i: int|
                        0 <= i < self.containers@.len() && (#[trigger] self.containers@[
                            i
                        ]).present && self.containers@[i].pod == q implies self.containers@[
                        i
                    ].phase.is_terminal() by {
                        assert(old(self).containers@[i].pod == q || i == c);
                    }
                }
            }
            assert(old(self).container_ok(c as int));
        }
        self.reevaluate_pod(k.pod);
        if handle.is_some() {
            StartResult::Superseded
        } else {
            StartResult::SetupFailed
        }
    }

    /// Reexamine pod `p` after one of its members reached a terminal
    /// phase: the pod's phase becomes `resolved_phase` of its membership;
    /// nothing else changes.
    pub fn reevaluate_pod(&mut self, p: usize)
        requires
            old(self).wf(),
            p < old(self).pods@.len(),
            old(self).pods@[p as int].present,
        ensures
            final(self).wf(),
            final(self).containers@ == old(self).containers@,
            final(self).pods@ == old(self).pods@.update(
                p as int,
                Pod {
                    phase: resolved_phase(
                        old(self).containers@,
                        old(self).pods@[p as int].phase,
                        p as int,
                    ),
                    present: true,
                },
            ),
    {
        let ph = self.pods[p].phase;
        if !(ph == Phase::Running || ph == Phase::Stopping) {
            self.pods[p] = Pod { phase: ph, present: true };
            proof {
                assert forall|i: int| 0 <= i < self.containers@.len() implies #[trigger] self
                    .container_ok(i) by {
                    assert(old(self).container_ok(i));
                }
                assert forall|q: int| 0 <= q < self.pods@.len() implies #[trigger] self.pod_ok(
                    q,
                ) by {
                    assert(old(self).pod_ok(q));
                }
            }
            return;
        }
        let n = self.containers.len();
        let mut all_term = true;
        let mut req_failed = false;
        let mut i: usize = 0;
        while i < n
            invariant
                *self == *old(self),
                n == self.containers@.len(),
                i <= n,
                all_term <==> (forall|j: int|
                    0 <= j < i && (#[trigger] self.containers@[j]).present && self.containers@[
                        j
                    ].pod == p ==> self.containers@[j].phase.is_terminal()),
                req_failed <==> (exists|j: int|
                    0 <= j < i && (#[trigger] self.containers@[j]).present && self.containers@[
                        j
                    ].pod == p && self.containers@[j].required && self.containers@[
                        j
                    ].phase is Failed),
            decreases n - i,
        {
            let k = self.containers[i];
            if k.present && k.pod == p {
                if !k.phase.terminal() {
                    all_term = false;
                }
                if k.required && k.phase == Phase::Failed {
                    req_failed = true;
                }
            }
            i = i + 1;
        }
        proof {
            assert(all_term == members_terminal(self.containers@, p as int));
            assert(req_failed == required_failed(self.containers@, p as int));
        }
        let newph = if all_term {
            if req_failed {
                Phase::Failed
            } else if ph == Phase::Stopping {
                Phase::Stopped
            } else {
                ph
            }
        } else {
            ph
        };
        self.pods[p] = Pod { phase: newph, present: true };
        proof {
            assert forall|i: int| 0 <= i < self.containers@.len() implies #[trigger] self
                .container_ok(i) by {
                assert(old(self).container_ok(i));
            }
            assert forall|q: int| 0 <= q < self.pods@.len() implies #[trigger] self.pod_ok(
                q,
            ) by {
                assert(old(self).pod_ok(q));
            }
        }
    }
    /// Why stopping container `c` would be refused, if it would be: the
    /// container must exist, and no other operation may be in flight on it
    /// (a start still pending, or a stop already under way).  A container
    /// that is already terminal is *not* refused: stopping it again is an
    /// idempotent no-op.
    pub open spec fn stop_check(self, c: int) -> Option<ApiError> {
        if !self.container_live(c) {
            Some(ApiError::NotFound)
        } else if self.containers@[c].phase.is_terminal() {
            None
        } else if self.containers@[c].busy {
            Some(ApiError::StateConflict)
        } else if self.containers@[c].phase is Stopping {
            Some(ApiError::StateConflict)
        } else {
            None
        }
    }

    /// What an admitted stop of container `c` decides, as a function of the
    /// state alone.
    pub open spec fn stop_decision(self, c: int, now: u64, grace: u64) -> StopDecision {
        let k = self.containers@[c];
        if k.phase.is_terminal() {
            StopDecision::AlreadyDone { phase: k.phase, exit_status: k.exit_status }
        } else if k.phase is Created {
            StopDecision::Retired
        } else {
            StopDecision::Graceful { handle: k.process->0, deadline: (now + grace) as u64 }
        }
    }

    /// Stop container `c` with a graceful window of `grace` starting at
    /// `now`.  A terminal container is left untouched and its recorded
    /// outcome is repeated (the second stop of a container is idempotent).
    /// A never-started container is retired straight to `Stopped`.  A
    /// running container moves to `Stopping`: the caller signals the
    /// returned handle, polls with `stop_poll`, and may force-terminate
    /// only once the returned deadline has passed.  Refused exactly as
    /// `stop_check` says; a refused call changes nothing.
    pub fn stop_container(&mut self, c: usize, now: u64, grace: u64) -> (r: Result<
        StopDecision,
        ApiError,
    >)
        requires
            old(self).wf(),
            now + grace <= u64::MAX,
        ensures
            final(self).wf(),
            r is Err <==> old(self).stop_check(c as int) is Some,
            r matches Err(e) ==> Some(e) == old(self).stop_check(c as int)
                && *final(self) == *old(self),
            r matches Ok(d) ==> d == old(self).stop_decision(c as int, now, grace),
            ({
                let k = old(self).containers@[c as int];
                &&& (r is Ok && k.phase.is_terminal() ==> *final(self) == *old(self))
                &&& (r is Ok && k.phase is Created ==> {
                    &&& final(self).containers@ == old(self).containers@.update(
                        c as int,
                        Container {
                            pod: k.pod,
                            phase: Phase::Stopped,
                            required: k.required,
                            busy: false,
                            image: k.image,
                            process: None,
                            exit_status: None,
                            deadline: None,
                            present: true,
                        },
                    )
                    &&& final(self).pods@ == old(self).pods@.update(
                        k.pod as int,
                        Pod {
                            phase: resolved_phase(
                                final(self).containers@,
                                old(self).pods@[k.pod as int].phase,
                                k.pod as int,
                            ),
                            present: true,
                        },
                    )
                })
                &&& (r is Ok && k.phase is Running ==> {
                    &&& final(self).containers@ == old(self).containers@.update(
                        c as int,
                        Container {
                            pod: k.pod,
                            phase: Phase::Stopping,
                            required: k.required,
                            busy: false,
                            image: k.image,
                            process: k.process,
                            exit_status: None,
                            deadline: Some((now + grace) as u64),
                            present: true,
                        },
                    )
                    &&& final(self).pods@ == old(self).pods@
                })
            }),
    {
        if c >= self.containers.len() || !self.containers[c].present {
            return Err(ApiError::NotFound);
        }
        let k = self.containers[c];
        proof {
            assert(old(self).container_ok(c as int));
        }
        if k.phase.terminal() {
            return Ok(StopDecision::AlreadyDone { phase: k.phase, exit_status: k.exit_status });
        }
        if k.busy {
            return Err(ApiError::StateConflict);
        }
        if k.phase == Phase::Stopping {
            return Err(ApiError::StateConflict);
        }
        if k.phase == Phase::Created {
            self.containers[c] = Container {
                pod: k.pod,
                phase: Phase::Stopped,
                required: k.required,
                busy: false,
                image: k.image,
                process: None,
                exit_status: None,
                deadline: None,
                present: true,
            };
            proof {
                assert forall|i: int| 0 <= i < self.containers@.len() implies #[trigger] self
                    .container_ok(i) by {
                    assert(old(self).container_ok(i));
                }
                assert forall|q: int| 0 <= q < self.pods@.len() implies #[trigger] self.pod_ok(
                    q,
                ) by {
                    assert(old(self).pod_ok(q));
                    if self.pods@[q].phase is Stopped {
                        assert forall|i: int|
                            0 <= i < self.containers@.len() && (#[trigger] self.containers@[
                                i
                            ]).present && self.containers@[i].pod == q implies self.containers@[
                            i
                        ].phase.is_terminal() by {
                            assert(old(self).containers@[i].pod == q || i == c);
                        }
                    }
                }
            }
            self.reevaluate_pod(k.pod);
            return Ok(StopDecision::Retired);
        }
        // k.phase is Running, so a process handle is recorded.
        let handle = match k.process {
            Some(h) => h,
            None => {
                // unreachable: a running container always has a handle
                return Err(ApiError::Internal);
            },
        };
        let deadline = now + grace;
        self.containers[c] = Container {
            pod: k.pod,
            phase: Phase::Stopping,
            required: k.required,
            busy: false,
            image: k.image,
            process: k.process,
            exit_status: None,
            deadline: Some(deadline),
            present: true,
        };
        proof {
            assert forall|i: int| 0 <= i < self.containers@.len() implies #[trigger] self
                .container_ok(i) by {
                assert(old(self).container_ok(i));
            }
            assert forall|q: int| 0 <= q < self.pods@.len() implies #[trigger] self.pod_ok(
                q,
            ) by {
                assert(old(self).pod_ok(q));
                if self.pods@[q].phase is Stopped {
                    assert forall|i: int|
                        0 <= i < self.containers@.len() && (#[trigger] self.containers@[
                            i
                        ]).present && self.containers@[i].pod == q implies self.containers@[
                        i
                    ].phase.is_terminal() by {
                        assert(old(self).containers@[i].pod == q || i == c);
                        if i == c {
                            // a Running member forbids a Stopped pod
                            assert(old(self).container_ok(c as int));
                        }
                    }
                }
            }
        }
        Ok(StopDecision::Graceful { handle, deadline })
    }

    /// One poll of a stopping container.  `exited` reports whether the
    /// process has ended, with its status.  On exit the status is recorded
    /// (exactly once — the container is terminal afterwards and any later
    /// stop is the idempotent no-op) and the owning pod is reexamined.
    /// Before the deadline the caller keeps waiting; force-termination is
    /// requested only once `now` has reached the deadline, never before.
    pub fn stop_poll(&mut self, c: usize, now: u64, exited: Option<i64>) -> (r: StopPoll)
        requires
            old(self).wf(),
            c < old(self).containers@.len(),
            old(self).containers@[c as int].phase is Stopping,
        ensures
            final(self).wf(),
            ({
                let k = old(self).containers@[c as int];
                let p = k.pod as int;
                if exited is Some {
                    &&& r is Exited
                    &&& final(self).containers@ == old(self).containers@.update(
                        c as int,
                        Container {
                            pod: k.pod,
                            phase: Phase::Stopped,
                            required: k.required,
                            busy: false,
                            image: k.image,
                            process: k.process,
                            exit_status: exited,
                            deadline: None,
                            present: true,
                        },
                    )
                    &&& final(self).pods@ == old(self).pods@.update(
                        p,
                        Pod {
                            phase: resolved_phase(
                                final(self).containers@,
                                old(self).pods@[p].phase,
                                p,
                            ),
                            present: true,
                        },
                    )
                } else {
                    &&& *final(self) == *old(self)
                    &&& r == (if now >= k.deadline->0 {
                        StopPoll::ForceKill(k.process->0)
                    } else {
                        StopPoll::Waiting
                    })
                }
            }),
            r is ForceKill ==> now >= old(self).containers@[c as int].deadline->0,
            r is Waiting ==> now < old(self).containers@[c as int].deadline->0,
    {
        let k = self.containers[c];
        proof {
            assert(old(self).container_ok(c as int));
        }
        match exited {
            Some(st) => {
                self.containers[c] = Container {
                    pod: k.pod,
                    phase: Phase::Stopped,
                    required: k.required,
                    busy: false,
                    image: k.image,
                    process: k.process,
                    exit_status: Some(st),
                    deadline: None,
                    present: true,
                };
                proof {
                    assert forall|i: int| 0 <= i < self.containers@.len() implies #[trigger] self
                        .container_ok(i) by {
                        assert(old(self).container_ok(i));
                    }
                    assert forall|q: int| 0 <= q < self.pods@.len() implies #[trigger] self
                        .pod_ok(q) by {
                        assert(old(self).pod_ok(q));
                        if self.pods@[q].phase is Stopped {
                            assert forall|i: int|
                                0 <= i < self.containers@.len() && (#[trigger] self.containers@[
                                    i
                                ]).present && self.containers@[i].pod == q implies self
                                .containers@[i].phase.is_terminal() by {
                                assert(old(self).containers@[i].pod == q || i == c);
                            }
                        }
                    }
                }
                self.reevaluate_pod(k.pod);
                StopPoll::Exited
            },
            None => {
                let deadline = match k.deadline {
                    Some(d) => d,
                    None => {
                        // unreachable: a stopping container has a deadline
                        return StopPoll::Waiting;
                    },
                };
                if now >= deadline {
                    let handle = match k.process {
                        Some(h) => h,
                        None => {
                            return StopPoll::Waiting;
                        },
                    };
                    StopPoll::ForceKill(handle)
                } else {
                    StopPoll::Waiting
                }
            },
        }
    }
    /// Why stopping pod `p` would be refused, if it would be: the pod must
    /// exist and must be `Running` (a pod that never ran is removed
    /// directly; one already stopping or terminal is a conflict).
    pub open spec fn stop_pod_check(self, p: int) -> Option<ApiError> {
        if !self.pod_live(p) {
            Some(ApiError::NotFound)
        } else if !(self.pods@[p].phase is Running) {
            Some(ApiError::StateConflict)
        } else {
            None
        }
    }

    /// Stop pod `p` with a graceful window of `grace` starting at `now`.
    ///
    /// In one step — so no container is ever `Running` under a pod that is
    /// not — the pod becomes `Stopping`, every running member becomes
    /// `Stopping` with the same graceful deadline, and every idle member
    /// that never started is retired to `Stopped`.  A member whose start is
    /// still in flight is left to `finish_start`, which fails it because
    /// the pod is no longer running.  The returned handles are exactly the
    /// processes of the members that were running; the caller signals each
    /// gracefully and drives them with `stop_poll`.  Once the last member
    /// reaches a terminal phase the pod resolves as `resolved_phase` says —
    /// immediately, if no member was active.
    pub fn stop_pod(&mut self, p: usize, now: u64, grace: u64) -> (r: Result<Vec<u64>, ApiError>)
        requires
            old(self).wf(),
            now + grace <= u64::MAX,
        ensures
            final(self).wf(),
            r is Err <==> old(self).stop_pod_check(p as int) is Some,
            r matches Err(e) ==> Some(e) == old(self).stop_pod_check(p as int)
                && *final(self) == *old(self),
            r matches Ok(handles) ==> {
                let dl = (now + grace) as u64;
                &&& final(self).containers@.len() == old(self).containers@.len()
                &&& forall|i: int|
                    0 <= i < old(self).containers@.len() ==> #[trigger] final(self).containers@[i]
                        == (if old(self).containers@[i].present && old(self).containers@[i].pod
                        == p {
                        stopping_member(old(self).containers@[i], dl)
                    } else {
                        old(self).containers@[i]
                    })
                &&& final(self).pods@ == old(self).pods@.update(
                    p as int,
                    Pod {
                        phase: resolved_phase(final(self).containers@, Phase::Stopping, p as int),
                        present: true,
                    },
                )
                &&& forall|j: int|
                    0 <= j < handles@.len() ==> running_member_handle(
                        old(self).containers@,
                        p as int,
                        #[trigger] handles@[j],
                    )
                &&& forall|i: int|
                    0 <= i < old(self).containers@.len() && (#[trigger] old(self).containers@[
                        i
                    ]).present && old(self).containers@[i].pod == p && old(self).containers@[
                        i
                    ].phase is Running ==> handles@.contains(old(self).containers@[i].process->0)
            },
    {
        if p >= self.pods.len() || !self.pods[p].present {
            return Err(ApiError::NotFound);
        }
        if self.pods[p].phase != Phase::Running {
            return Err(ApiError::StateConflict);
        }
        let deadline = now + grace;
        let n = self.containers.len();
        let mut handles: Vec<u64> = Vec::new();
        let mut i: usize = 0;
        while i < n
            invariant
                old(self).wf(),
                old(self).pod_live(p as int),
                n == self.containers@.len(),
                n == old(self).containers@.len(),
                i <= n,
                self.pods@ == old(self).pods@,
                deadline == now + grace,
                forall|k: int|
                    0 <= k < i ==> #[trigger] self.containers@[k] == (if old(self).containers@[
                        k
                    ].present && old(self).containers@[k].pod == p {
                        stopping_member(old(self).containers@[k], deadline)
                    } else {
                        old(self).containers@[k]
                    }),
                forall|k: int|
                    i <= k < n ==> #[trigger] self.containers@[k] == old(self).containers@[k],
                forall|j: int|
                    0 <= j < handles@.len() ==> running_member_handle(
                        old(self).containers@,
                        p as int,
                        #[trigger] handles@[j],
                    ),
                forall|k: int|
                    0 <= k < i && (#[trigger] old(self).containers@[k]).present && old(
                        self,
                    ).containers@[k].pod == p && old(self).containers@[k].phase is Running
                        ==> handles@.contains(old(self).containers@[k].process->0),
            decreases n - i,
        {
            let k = self.containers[i];
            proof {
                assert(k == old(self).containers@[i as int]);
                assert(old(self).container_ok(i as int));
            }
            if k.present && k.pod == p {
                if k.phase == Phase::Running {
                    let ghost pre_handles = handles@;
                    match k.process {
                        Some(h) => {
                            handles.push(h);
                            proof {
                                assert(running_member_handle(
                                    old(self).containers@,
                                    p as int,
                                    h,
                                )) by {
                                    assert((old(self).containers@[i as int]).present && old(
                                        self,
                                    ).containers@[i as int].pod == p && old(self).containers@[
                                        i as int
                                    ].phase is Running && old(self).containers@[i as int].process
                                        == Some(h));
                                }
                                assert forall|k2: int|
                                    0 <= k2 < i + 1 && (#[trigger] old(self).containers@[
                                        k2
                                    ]).present && old(self).containers@[k2].pod == p && old(
                                        self,
                                    ).containers@[k2].phase is Running implies handles@.contains(
                                    old(self).containers@[k2].process->0,
                                ) by {
                                    if k2 < i {
                                        let w = choose|w: int|
                                            0 <= w < pre_handles.len() && pre_handles[w] == old(
                                                self,
                                            ).containers@[k2].process->0;
                                        assert(handles@[w] == old(self).containers@[
                                            k2
                                        ].process->0);
                                    } else {
                                        assert(handles@[handles@.len() - 1] == old(
                                            self,
                                        ).containers@[k2].process->0);
                                    }
                                }
                            }
                        },
                        None => {
                            // unreachable: a running container has a handle
                        },
                    }
                    self.containers[i] = Container {
                        pod: k.pod,
                        phase: Phase::Stopping,
                        required: k.required,
                        busy: false,
                        image: k.image,
                        process: k.process,
                        exit_status: None,
                        deadline: Some(deadline),
                        present: true,
                    };
                } else if k.phase == Phase::Created && !k.busy {
                    self.containers[i] = Container {
                        pod: k.pod,
                        phase: Phase::Stopped,
                        required: k.required,
                        busy: false,
                        image: k.image,
                        process: None,
                        exit_status: None,
                        deadline: None,
                        present: true,
                    };
                }
            }
            i = i + 1;
        }
        self.pods[p] = Pod { phase: Phase::Stopping, present: true };
        proof {
            assert forall|i2: int| 0 <= i2 < self.containers@.len() implies #[trigger] self
                .container_ok(i2) by {
                assert(old(self).container_ok(i2));
            }
            assert forall|q: int| 0 <= q < self.pods@.len() implies #[trigger] self.pod_ok(
                q,
            ) by {
                assert(old(self).pod_ok(q));
                if self.pods@[q].phase is Stopped {
                    assert(q != p as int);
                    assert forall|i2: int|
                        0 <= i2 < self.containers@.len() && (#[trigger] self.containers@[
                            i2
                        ]).present && self.containers@[i2].pod == q implies self.containers@[
                        i2
                    ].phase.is_terminal() by {
                        assert(old(self).containers@[i2].pod == q || old(self).containers@[
                            i2
                        ].pod == p);
                    }
                }
            }
        }
        let ghost mid_pods = self.pods@;
        self.reevaluate_pod(p);
        proof {
            assert(final(self).pods@ =~= old(self).pods@.update(
                p as int,
                Pod {
                    phase: resolved_phase(final(self).containers@, Phase::Stopping, p as int),
                    present: true,
                },
            ));
        }
        Ok(handles)
    }
}

/// A pod has a present member.
pub open spec fn some_member(cs: Seq<Container>, p: int) -> bool {
    exists|i: int| 0 <= i < cs.len() && (#[trigger] cs[i]).present && cs[i].pod == p
}

impl ControlPlane {
    /// Why removing container `c` would be refused, if it would be: the
    /// container must exist and must be inactive — never started, or
    /// terminal; an active container is stopped first.
    pub open spec fn remove_container_check(self, c: int) -> Option<ApiError> {
        if !self.container_live(c) {
            Some(ApiError::NotFound)
        } else if self.containers@[c].busy || self.containers@[c].phase is Running
            || self.containers@[c].phase is Stopping {
            Some(ApiError::StateConflict)
        } else {
            None
        }
    }

    /// Remove container `c`.  Only an explicit removal destroys a record;
    /// the record's slot is retired, never reused.  Refused exactly as
    /// `remove_container_check` says; a refused call changes nothing.
    pub fn remove_container(&mut self, c: usize) -> (r: Result<(), ApiError>)
        requires
            old(self).wf(),
        ensures
            final(self).wf(),
            r is Err <==> old(self).remove_container_check(c as int) is Some,
            r matches Err(e) ==> Some(e) == old(self).remove_container_check(c as int)
                && *final(self) == *old(self),
            r is Ok ==> {
                let k = old(self).containers@[c as int];
                &&& final(self).containers@ == old(self).containers@.update(
                    c as int,
                    Container {
                        pod: k.pod,
                        phase: k.phase,
                        required: k.required,
                        busy: false,
                        image: k.image,
                        process: k.process,
                        exit_status: k.exit_status,
                        deadline: k.deadline,
                        present: false,
                    },
                )
                &&& final(self).pods@ == old(self).pods@
            },
    {
        if c >= self.containers.len() || !self.containers[c].present {
            return Err(ApiError::NotFound);
        }
        let k = self.containers[c];
        if k.busy || k.phase == Phase::Running || k.phase == Phase::Stopping {
            return Err(ApiError::StateConflict);
        }
        self.containers[c] = Container {
            pod: k.pod,
            phase: k.phase,
            required: k.required,
            busy: false,
            image: k.image,
            process: k.process,
            exit_status: k.exit_status,
            deadline: k.deadline,
            present: false,
        };
        proof {
            assert(old(self).container_ok(c as int));
            assert forall|i: int| 0 <= i < self.containers@.len() implies #[trigger] self
                .container_ok(i) by {
                assert(old(self).container_ok(i));
            }
            assert forall|q: int| 0 <= q < self.pods@.len() implies #[trigger] self.pod_ok(
                q,
            ) by {
                assert(old(self).pod_ok(q));
                if self.pods@[q].phase is Stopped {
                    assert forall|i: int|
                        0 <= i < self.containers@.len() && (#[trigger] self.containers@[
                            i
                        ]).present && self.containers@[i].pod == q implies self.containers@[
                        i
                    ].phase.is_terminal() by {
                        assert(old(self).containers@[i].pod == q || i == c);
                    }
                }
            }
        }
        Ok(())
    }

    /// Why removing pod `p` would be refused, if it would be: the pod must
    /// exist, must not be running or stopping, and must have no present
    /// member left — containers are removed first, so no container is ever
    /// orphaned.
    pub open spec fn remove_pod_check(self, p: int) -> Option<ApiError> {
        if !self.pod_live(p) {
            Some(ApiError::NotFound)
        } else if self.pods@[p].phase is Running || self.pods@[p].phase is Stopping {
            Some(ApiError::StateConflict)
        } else if some_member(self.containers@, p) {
            Some(ApiError::StateConflict)
        } else {
            None
        }
    }

    /// Remove pod `p`.  Refused exactly as `remove_pod_check` says; a
    /// refused call changes nothing.
    pub fn remove_pod(&mut self, p: usize) -> (r: Result<(), ApiError>)
        requires
            old(self).wf(),
        ensures
            final(self).wf(),
            r is Err <==> old(self).remove_pod_check(p as int) is Some,
            r matches Err(e) ==> Some(e) == old(self).remove_pod_check(p as int)
                && *final(self) == *old(self),
            r is Ok ==> {
                &&& final(self).pods@ == old(self).pods@.update(
                    p as int,
                    Pod { phase: old(self).pods@[p as int].phase, present: false },
                )
                &&& final(self).containers@ == old(self).containers@
            },
    {
        if p >= self.pods.len() || !self.pods[p].present {
            return Err(ApiError::NotFound);
        }
        let ph = self.pods[p].phase;
        if ph == Phase::Running || ph == Phase::Stopping {
            return Err(ApiError::StateConflict);
        }
        let n = self.containers.len();
        let mut i: usize = 0;
        while i < n
            invariant
                *self == *old(self),
                old(self).wf(),
                old(self).pod_live(p as int),
                !(old(self).pods@[p as int].phase is Running),
                !(old(self).pods@[p as int].phase is Stopping),
                n == self.containers@.len(),
                i <= n,
                forall|k: int|
                    0 <= k < i ==> !((#[trigger] self.containers@[k]).present
                        && self.containers@[k].pod == p),
            decreases n - i,
        {
            let k = self.containers[i];
            if k.present && k.pod == p {
                proof {
                    assert(some_member(old(self).containers@, p as int)) by {
                        assert((old(self).containers@[i as int]).present && old(
                            self,
                        ).containers@[i as int].pod == p);
                    }
                }
                return Err(ApiError::StateConflict);
            }
            i = i + 1;
        }
        self.pods[p] = Pod { phase: ph, present: false };
        proof {
            assert forall|i2: int| 0 <= i2 < self.containers@.len() implies #[trigger] self
                .container_ok(i2) by {
                assert(old(self).container_ok(i2));
            }
            assert forall|q: int| 0 <= q < self.pods@.len() implies #[trigger] self.pod_ok(
                q,
            ) by {
                assert(old(self).pod_ok(q));
            }
        }
        Ok(())
    }
}

/// Law: a running container's owning pod is itself running — observably
/// at every state the control plane can reach, including the states in the
/// middle of a multi-step start or stop.
pub proof fn lemma_running_member_pod_running(s: ControlPlane, c: int)
    requires
        s.wf(),
        0 <= c < s.containers@.len(),
        s.containers@[c].phase is Running,
    ensures
        s.pods@[s.containers@[c].pod as int].phase is Running,
{
    assert(s.container_ok(c));
}

/// Law, first half: a pod is `Stopped` only when every present member has
/// reached `Stopped` or `Failed`.
pub proof fn lemma_stopped_pod_members_terminal(s: ControlPlane, p: int, c: int)
    requires
        s.wf(),
        0 <= p < s.pods@.len(),
        s.pods@[p].phase is Stopped,
        0 <= c < s.containers@.len(),
        s.containers@[c].present,
        s.containers@[c].pod == p,
    ensures
        s.containers@[c].phase.is_terminal(),
{
    assert(s.pod_ok(p));
}

/// Law, second half: a stopping pod settles to `Stopped` exactly when
/// every present member is terminal (and no required member failed, in
/// which case it settles to `Failed` instead); `stop_pod`, `stop_poll` and
/// `finish_start` apply this resolution whenever a member turns terminal.
pub proof fn lemma_pod_stop_completion(cs: Seq<Container>, p: int)
    ensures
        members_terminal(cs, p) && !required_failed(cs, p) ==> resolved_phase(
            cs,
            Phase::Stopping,
            p,
        ) == Phase::Stopped,
        resolved_phase(cs, Phase::Stopping, p) == Phase::Stopped ==> members_terminal(cs, p),
{
}

/// Law: pod resolution never moves a pod backward in the lifecycle order.
pub proof fn lemma_resolution_moves_forward(cs: Seq<Container>, ph: Phase, p: int)
    ensures
        crate::state::step_allowed(ph, resolved_phase(cs, ph, p)),
{
}

/// Law: stopping an already-terminal container is idempotent.  The stop is
/// admitted, decides the same `AlreadyDone` answer no matter when it is
/// issued, repeats the recorded terminal phase and exit status, and (by
/// `stop_container`'s contract) leaves the state untouched — so a second
/// stop returns exactly what the first did, without running any
/// termination machinery again.
pub proof fn lemma_stop_idempotent(s: ControlPlane, c: int, now1: u64, grace1: u64, now2: u64, grace2: u64)
    requires
        s.wf(),
        s.container_live(c),
        s.containers@[c].phase.is_terminal(),
    ensures
        s.stop_check(c) is None,
        s.stop_decision(c, now1, grace1) == s.stop_decision(c, now2, grace2),
        s.stop_decision(c, now1, grace1) == (StopDecision::AlreadyDone {
            phase: s.containers@[c].phase,
            exit_status: s.containers@[c].exit_status,
        }),
{
}

/// Law: of two starts racing on the same container, exactly one is
/// admitted.  Operations are serialized by the control-plane loop, so the
/// second start finds the state the first left behind — and in that state
/// the start check answers `StateConflict`, whether the first start is
/// still in flight (`busy`) or has already completed (the container is no
/// longer `Created`).
pub proof fn lemma_double_start_excluded(pre: ControlPlane, post: ControlPlane, c: int)
    requires
        pre.wf(),
        0 <= c < pre.containers@.len(),
        pre.start_check(c) is None,
        start_applied_to(pre, post, c),
    ensures
        post.start_check(c) == Some(ApiError::StateConflict),
{
    assert(post.containers@[c].busy);
}

/// The per-member effect of stopping a pod: a running member begins its
/// graceful stop with the pod's deadline, a member that never started (and
/// has no start in flight) is retired to `Stopped`, and every other member
/// is left as it is.
pub open spec fn stopping_member(k: Container, deadline: u64) -> Container {
    if k.phase is Running {
        Container {
            pod: k.pod,
            phase: Phase::Stopping,
            required: k.required,
            busy: false,
            image: k.image,
            process: k.process,
            exit_status: None,
            deadline: Some(deadline),
            present: true,
        }
    } else if k.phase is Created && !k.busy {
        Container {
            pod: k.pod,
            phase: Phase::Stopped,
            required: k.required,
            busy: false,
            image: k.image,
            process: None,
            exit_status: None,
            deadline: None,
            present: true,
        }
    } else {
        k
    }
}

/// `h` is the process handle of some present, running member of pod `p`.
pub open spec fn running_member_handle(cs: Seq<Container>, p: int, h: u64) -> bool {
    exists|i: int|
        0 <= i < cs.len() && (#[trigger] cs[i]).present && cs[i].pod == p && cs[i].phase is Running
            && cs[i].process == Some(h)
}

/// The relation between the state before and after an admitted
/// `begin_start` on container `c`: the start is marked in flight and the
/// owning pod is `Running`; nothing else changes.
pub open spec fn start_applied_to(pre: ControlPlane, post: ControlPlane, c: int) -> bool {
    let k = pre.containers@[c];
    &&& post.containers@ == pre.containers@.update(
        c,
        Container {
            pod: k.pod,
            phase: Phase::Created,
            required: k.required,
            busy: true,
            image: k.image,
            process: None,
            exit_status: None,
            deadline: None,
            present: true,
        },
    )
    &&& post.pods@ == pre.pods@.update(k.pod as int, Pod { phase: Phase::Running, present: true })
}

/// One answer of `stop_poll`.
#[derive(Clone, Copy, Debug, PartialEq, Eq, Structural)]
pub enum StopPoll {
    /// The process ended: its status is now recorded and the container is
    /// `Stopped`.
    Exited,
    /// The graceful deadline has passed and the process still runs:
    /// force-terminate this handle.
    ForceKill(u64),
    /// The deadline has not passed: keep waiting.
    Waiting,
}

/// What `stop_container` decided.
#[derive(Clone, Copy, Debug, PartialEq, Eq)]
pub enum StopDecision {
    /// The container was already terminal: the prior terminal phase and
    /// the recorded exit status are repeated; no termination machinery
    /// runs again.
    AlreadyDone { phase: Phase, exit_status: Option<i64> },
    /// The container had never started; it is retired straight to
    /// `Stopped` with no exit status.
    Retired,
    /// The container was running: signal `handle` gracefully now, and
    /// force-terminate it at `deadline` if it has not exited by then.
    Graceful { handle: u64, deadline: u64 },
}

/// Outcome of `finish_start`.
#[derive(Clone, Copy, Debug, PartialEq, Eq, Structural)]
pub enum StartResult {
    /// The workload runs and its handle is recorded.
    Started,
    /// The setup produced a process, but the pod stopped meanwhile: the
    /// container is `Failed`, and the caller must terminate the process it
    /// created.
    Superseded,
    /// The privileged setup failed: the container is `Failed`.
    SetupFailed,
}

} // verus!
