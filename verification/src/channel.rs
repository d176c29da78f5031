use vstd::prelude::*;

use crate::errors::ApiError;

verus! {

/// One request in flight on the channel: its correlation identifier and the
/// instant at which the caller stops waiting for the response.
#[derive(Clone, Copy, Debug, PartialEq, Eq, Structural)]
pub struct Pending {
    pub corr: u64,
    pub deadline: u64,
}

/// The request side of the channel protocol.
///
/// Requests travel over a single byte stream, so a response is matched to
/// its request by correlation identifier, never by arrival order.  The
/// number of requests in flight is bounded by `limit`; once the peer
/// endpoint is gone (`closed`), nothing is ever submitted again and every
/// request still in flight resolves as unavailable.
pub struct Demux {
    /// The next correlation identifier to hand out; identifiers are never
    /// reused within one channel.
    pub next_corr: u64,
    /// Bound on the number of concurrently in-flight requests.
    pub limit: usize,
    /// True once the peer endpoint has closed.
    pub closed: bool,
    /// The requests awaiting a response, oldest first.
    pub pending: Vec<Pending>,
}

/// Some request in `entries` carries this correlation identifier and its
/// deadline is at or before `now`.
pub open spec fn expired_in(entries: Seq<Pending>, now: u64, corr: u64) -> bool {
    exists|k: int|
        0 <= k < entries.len() && (#[trigger] entries[k]).corr == corr && entries[k].deadline
            <= now
}

impl Demux {
    /// There is a request with this correlation identifier in flight.
    pub open spec fn has_corr(self, corr: u64) -> bool {
        exists|i: int| 0 <= i < self.pending@.len() && (#[trigger] self.pending@[i]).corr == corr
    }

    /// Well-formedness: in-flight correlation identifiers are distinct, all
    /// of them were handed out earlier than `next_corr`, and the in-flight
    /// bound holds.
    pub open spec fn wf(self) -> bool {
        &&& forall|i: int, j: int|
                0 <= i < j < self.pending@.len()
                    ==> (#[trigger] self.pending@[i]).corr != (#[trigger] self.pending@[j]).corr
        &&& forall|i: int|
                0 <= i < self.pending@.len() ==> (#[trigger] self.pending@[i]).corr < self.next_corr
        &&& self.pending@.len() <= self.limit
    }

    /// Why a new request would be refused right now, if it would be.
    pub open spec fn submit_check(self) -> Option<ApiError> {
        if self.closed {
            Some(ApiError::Unavailable)
        } else if self.pending@.len() >= self.limit {
            Some(ApiError::Unavailable)
        } else if self.next_corr == u64::MAX {
            Some(ApiError::Unavailable)
        } else {
            None
        }
    }

    /// A fresh channel endpoint with nothing in flight.
    pub fn new(limit: usize) -> (d: Demux)
        ensures
            d.wf(),
            d.next_corr == 0,
            d.limit == limit,
            !d.closed,
            d.pending@.len() == 0,
    {
        Demux { next_corr: 0, limit, closed: false, pending: Vec::new() }
    }

    /// Admit one request: hand out a fresh correlation identifier and record
    /// it as in flight until `now + timeout`.  Refused exactly when the peer
    /// is gone, the in-flight bound is reached, or the identifier space is
    /// exhausted; a refused submission changes nothing.
    pub fn submit(&mut self, now: u64, timeout: u64) -> (r: Result<u64, ApiError>)
        requires
            old(self).wf(),
            now + timeout <= u64::MAX,
        ensures
            final(self).wf(),
            r is Err <==> old(self).submit_check() is Some,
            r matches Err(e) ==> Some(e) == old(self).submit_check() && *final(self) == *old(self),
            r matches Ok(corr) ==> {
                &&& corr == old(self).next_corr
                &&& final(self).next_corr == old(self).next_corr + 1
                &&& final(self).pending@ == old(self).pending@.push(
                    Pending { corr, deadline: (now + timeout) as u64 },
                )
                &&& final(self).closed == old(self).closed
                &&& final(self).limit == old(self).limit
                &&& !old(self).has_corr(corr)
            },
    {
        if self.closed {
            return Err(ApiError::Unavailable);
        }
        if self.pending.len() >= self.limit {
            return Err(ApiError::Unavailable);
        }
        if self.next_corr == u64::MAX {
            return Err(ApiError::Unavailable);
        }
        let corr = self.next_corr;
        self.next_corr = self.next_corr + 1;
        self.pending.push(Pending { corr, deadline: now + timeout });
        Ok(corr)
    }

    /// Match an arriving response to its request by correlation identifier.
    /// Responses may arrive in any order: the matched request is removed
    /// wherever it stands; an unknown identifier (already resolved, timed
    /// out, or never issued) matches nothing and changes nothing.
    pub fn resolve(&mut self, corr: u64) -> (matched: bool)
        requires
            old(self).wf(),
        ensures
            final(self).wf(),
            matched == old(self).has_corr(corr),
            !matched ==> *final(self) == *old(self),
            matched ==> exists|i: int|
                {
                    &&& 0 <= i < old(self).pending@.len()
                    &&& (#[trigger] old(self).pending@[i]).corr == corr
                    &&& final(self).pending@ == old(self).pending@.remove(i)
                },
            !final(self).has_corr(corr),
            final(self).next_corr == old(self).next_corr,
            final(self).closed == old(self).closed,
            final(self).limit == old(self).limit,
    {
        let n = self.pending.len();
        let mut i: usize = 0;
        while i < n
            invariant
                *self == *old(self),
                n == self.pending@.len(),
                i <= n,
                self.wf(),
                forall|k: int| 0 <= k < i ==> (#[trigger] self.pending@[k]).corr != corr,
            decreases n - i,
        {
            if self.pending[i].corr == corr {
                let ghost pre = self.pending@;
                self.pending.remove(i);
                proof {
                    assert(self.pending@ == pre.remove(i as int));
                    assert(0 <= i < old(self).pending@.len() && old(self).pending@[
                        i as int
                    ].corr == corr && self.pending@ == old(self).pending@.remove(i as int));
                    assert forall|k: int|
                        0 <= k < self.pending@.len() implies (#[trigger] self.pending@[k]).corr
                        != corr by {
                        if k < i {
                            assert(self.pending@[k] == pre[k]);
                        } else {
                            assert(self.pending@[k] == pre[k + 1]);
                        }
                    }
                }
                return true;
            }
            i = i + 1;
        }
        false
    }

    /// Resolve every request whose deadline has passed: the returned
    /// correlation identifiers are reported unavailable to their callers,
    /// exactly one entry per expired request; every request still in flight
    /// afterwards has a deadline strictly after `now`.
    pub fn expire(&mut self, now: u64) -> (timed_out: Vec<u64>)
        requires
            old(self).wf(),
        ensures
            final(self).wf(),
            final(self).next_corr == old(self).next_corr,
            final(self).closed == old(self).closed,
            final(self).limit == old(self).limit,
            // Everything kept was in flight before, with time still left.
            forall|i: int|
                0 <= i < final(self).pending@.len() ==> {
                    &&& (#[trigger] final(self).pending@[i]).deadline > now
                    &&& old(self).pending@.contains(final(self).pending@[i])
                },
            // Everything with time still left is kept.
            forall|i: int|
                0 <= i < old(self).pending@.len() && (#[trigger] old(self).pending@[i]).deadline
                    > now ==> final(self).pending@.contains(old(self).pending@[i]),
            // Every expired request is reported, and nothing else is.
            forall|i: int|
                0 <= i < old(self).pending@.len() && (#[trigger] old(self).pending@[i]).deadline
                    <= now ==> timed_out@.contains(old(self).pending@[i].corr),
            forall|j: int|
                0 <= j < timed_out@.len() ==> expired_in(
                    old(self).pending@,
                    now,
                    #[trigger] timed_out@[j],
                ),
            timed_out@.len() + final(self).pending@.len() == old(self).pending@.len(),
    {
        let n = self.pending.len();
        let ghost orig = self.pending@;
        let ghost limit = self.limit;
        let ghost next = self.next_corr;
        let mut kept: Vec<Pending> = Vec::new();
        let mut timed_out: Vec<u64> = Vec::new();
        let ghost mut srcs: Seq<int> = Seq::empty();
        let mut i: usize = 0;
        while i < n
            invariant
                self.pending@ == orig,
                self.limit == limit,
                self.next_corr == next,
                old(self).wf(),
                n == orig.len(),
                i <= n,
                kept@.len() == srcs.len(),
                kept@.len() + timed_out@.len() == i,
                forall|k: int| 0 <= k < srcs.len() ==> 0 <= #[trigger] srcs[k] < i,
                forall|k: int, l: int|
                    0 <= k < l < srcs.len() ==> #[trigger] srcs[k] < #[trigger] srcs[l],
                forall|k: int|
                    0 <= k < srcs.len()
                        ==> #[trigger] kept@[k] == orig[srcs[k]] && kept@[k].deadline > now,
                forall|k: int|
                    0 <= k < i && (#[trigger] orig[k]).deadline > now ==> kept@.contains(orig[k]),
                forall|k: int|
                    0 <= k < i && (#[trigger] orig[k]).deadline <= now ==> timed_out@.contains(
                        orig[k].corr,
                    ),
                forall|j: int|
                    0 <= j < timed_out@.len() ==> expired_in(orig, now, #[trigger] timed_out@[j]),
            decreases n - i,
        {
            let entry = self.pending[i];
            let ghost pre_kept = kept@;
            let ghost pre_timed = timed_out@;
            if entry.deadline > now {
                kept.push(entry);
                proof {
                    srcs = srcs.push(i as int);
                    assert forall|k: int|
                        0 <= k < i + 1 && (#[trigger] orig[k]).deadline > now implies
                        kept@.contains(orig[k]) by {
                        if k < i {
                            let w = choose|w: int|
                                0 <= w < pre_kept.len() && pre_kept[w] == orig[k];
                            assert(kept@[w] == orig[k]);
                        } else {
                            assert(kept@[kept@.len() - 1] == orig[k]);
                        }
                    }
                }
            } else {
                timed_out.push(entry.corr);
                proof {
                    assert forall|k: int|
                        0 <= k < i + 1 && (#[trigger] orig[k]).deadline <= now implies
                        timed_out@.contains(orig[k].corr) by {
                        if k < i {
                            let w = choose|w: int|
                                0 <= w < pre_timed.len() && pre_timed[w] == orig[k].corr;
                            assert(timed_out@[w] == orig[k].corr);
                        } else {
                            assert(timed_out@[timed_out@.len() - 1] == orig[k].corr);
                        }
                    }
                    assert forall|j: int| 0 <= j < timed_out@.len() implies expired_in(
                        orig,
                        now,
                        #[trigger] timed_out@[j],
                    ) by {
                        if j < pre_timed.len() {
                            assert(timed_out@[j] == pre_timed[j]);
                        } else {
                            assert(timed_out@[j] == orig[i as int].corr);
                            assert(orig[i as int].corr == timed_out@[j] && orig[
                                i as int
                            ].deadline <= now);
                        }
                    }
                }
            }
            i = i + 1;
        }
        proof {
            // The kept entries come from distinct positions of the original
            // in-flight list, so their identifiers stay distinct.
            assert forall|k: int, l: int| 0 <= k < l < kept@.len() implies (
            #[trigger] kept@[k]).corr != (#[trigger] kept@[l]).corr by {
                assert(kept@[k] == orig[srcs[k]]);
                assert(kept@[l] == orig[srcs[l]]);
                assert(srcs[k] < srcs[l]);
            }
            assert forall|k: int| 0 <= k < kept@.len() implies (#[trigger] kept@[k]).corr
                < next by {
                assert(kept@[k] == orig[srcs[k]]);
            }
            assert forall|k: int| 0 <= k < kept@.len() implies old(self).pending@.contains(
                kept@[k],
            ) by {
                assert(orig[srcs[k]] == kept@[k]);
            }
        }
        self.pending = kept;
        timed_out
    }

    /// The peer endpoint has closed: nothing in flight will ever be
    /// answered.  Marks the channel closed, empties the in-flight set, and
    /// returns every in-flight correlation identifier, in order, so that
    /// each waiting caller is resolved as unavailable rather than left to
    /// hang.
    pub fn peer_closed(&mut self) -> (orphans: Vec<u64>)
        requires
            old(self).wf(),
        ensures
            final(self).wf(),
            final(self).closed,
            final(self).pending@.len() == 0,
            final(self).next_corr == old(self).next_corr,
            final(self).limit == old(self).limit,
            orphans@.len() == old(self).pending@.len(),
            forall|i: int|
                0 <= i < orphans@.len() ==> orphans@[i] == (#[trigger] old(
                    self,
                ).pending@[i]).corr,
            final(self).submit_check() == Some(ApiError::Unavailable),
    {
        let n = self.pending.len();
        let mut orphans: Vec<u64> = Vec::new();
        let mut i: usize = 0;
        while i < n
            invariant
                n == self.pending@.len(),
                i <= n,
                orphans@.len() == i,
                forall|k: int|
                    0 <= k < i ==> orphans@[k] == (#[trigger] self.pending@[k]).corr,
            decreases n - i,
        {
            orphans.push(self.pending[i].corr);
            i = i + 1;
        }
        self.closed = true;
        self.pending.clear();
        orphans
    }
}

/// Law: a closed channel admits no request — after the peer endpoint is
/// gone, every submission resolves as unavailable, so no caller can be left
/// waiting on a channel that will never answer.
pub proof fn lemma_closed_channel_refuses(d: Demux)
    requires
        d.closed,
    ensures
        d.submit_check() == Some(ApiError::Unavailable),
{
}

/// Law: a request refused for back-pressure is reported as unavailable —
/// whenever the in-flight bound is reached, submission is refused rather
/// than queued without bound.
pub proof fn lemma_full_channel_refuses(d: Demux)
    requires
        d.pending@.len() >= d.limit,
    ensures
        d.submit_check() is Some,
{
}

} // verus!
