//! Tracks the restore requests this client has issued and their last known
//! status. Persistence is the caller's concern; the tracker is the
//! in-memory list with its queries and updates.

use vstd::prelude::*;

use crate::models::{RestoreState, TrackedRestoreRequest};

use crate::text::str_eq_str;

verus! {

broadcast use {
    vstd::seq_lib::group_filter_ensures,
    vstd::prelude::Seq::lemma_take_succ_push,
    vstd::prelude::Seq::lemma_filter_push,
};

/// Is this request still in flight (neither available nor expired)?
pub open spec fn request_active(r: TrackedRestoreRequest) -> bool {
    !(r.current_status is Available || r.current_status is Expired)
}

/// The index of the first request for this bucket and key; the list's
/// length when none matches.
pub open spec fn first_request_index(
    reqs: Seq<TrackedRestoreRequest>,
    bucket: Seq<char>,
    key: Seq<char>,
) -> int
    decreases reqs.len(),
{
    if reqs.len() == 0 {
        0
    } else if reqs[0].bucket@ == bucket && reqs[0].key@ == key {
        0
    } else {
        1 + first_request_index(reqs.drop_first(), bucket, key)
    }
}

proof fn lemma_first_request_skip(
    reqs: Seq<TrackedRestoreRequest>,
    bucket: Seq<char>,
    key: Seq<char>,
    i: int,
)
    requires
        0 <= i <= reqs.len(),
        forall|j: int| 0 <= j < i ==> !(reqs[j].bucket@ == bucket && #[trigger] reqs[j].key@ == key),
    ensures
        first_request_index(reqs, bucket, key)
            == i + first_request_index(reqs.skip(i), bucket, key),
    decreases i,
{
    if i > 0 {
        lemma_first_request_skip(reqs.drop_first(), bucket, key, i - 1);
        assert(reqs.skip(i) =~= reqs.drop_first().skip(i - 1));
    } else {
        assert(reqs.skip(0) =~= reqs);
    }
}

/// The in-memory list of issued restore requests.
#[derive(Debug)]
pub struct RestoreTracker {
    requests: Vec<TrackedRestoreRequest>,
}

impl RestoreTracker {
    /// A view of the tracked requests.
    pub closed spec fn requests_view(self) -> Seq<TrackedRestoreRequest> {
        self.requests@
    }

    /// An empty tracker.
    pub fn new() -> (r: Self)
        ensures
            r.requests_view() == Seq::<TrackedRestoreRequest>::empty(),
    {
        RestoreTracker { requests: Vec::new() }
    }

    /// A tracker holding exactly the given requests (as loaded from disk).
    pub fn with_requests(requests: Vec<TrackedRestoreRequest>) -> (r: Self)
        ensures
            r.requests_view() == requests@,
    {
        RestoreTracker { requests }
    }

    /// Records a newly issued request, optimistically in progress.
    pub fn add_request(&mut self, bucket: String, key: String, days: i32, requested_at: String)
        ensures
            final(self).requests_view() == old(self).requests_view().push(
                TrackedRestoreRequest {
                    bucket,
                    key,
                    requested_at,
                    days,
                    current_status: RestoreState::InProgress { expiry: None },
                },
            ),
    {
        self.requests.push(TrackedRestoreRequest {
            bucket,
            key,
            requested_at,
            days,
            current_status: RestoreState::InProgress { expiry: None },
        });
    }

    /// Updates the status of the first request recorded for this bucket and
    /// key; does nothing when none is recorded.
    pub fn update_status(&mut self, bucket: &str, key: &str, status: RestoreState)
        ensures
            ({
                let reqs = old(self).requests_view();
                let idx = first_request_index(reqs, bucket@, key@);
                if idx < reqs.len() {
                    final(self).requests_view() == reqs.update(
                        idx,
                        TrackedRestoreRequest { current_status: status, ..reqs[idx] },
                    )
                } else {
                    *final(self) == *old(self)
                }
            }),
    {
        let mut i: usize = 0;
        while i < self.requests.len()
            invariant
                *self == *old(self),
                i <= self.requests@.len(),
                forall|j: int| 0 <= j < i
                    ==> !(self.requests@[j].bucket@ == bucket@
                        && #[trigger] self.requests@[j].key@ == key@),
            decreases self.requests@.len() - i,
        {
            let hit = str_eq_str(self.requests[i].bucket.as_str(), bucket)
                && str_eq_str(self.requests[i].key.as_str(), key);
            if hit {
                proof {
                    lemma_first_request_skip(self.requests@, bucket@, key@, i as int);
                    assert(self.requests@.skip(i as int)[0] == self.requests@[i as int]);
                }
                let mut req = self.requests.remove(i);
                req.current_status = status;
                let ghost pre = old(self).requests@;
                self.requests.insert(i, req);
                proof {
                    assert(self.requests@ =~= pre.update(
                        i as int,
                        TrackedRestoreRequest { current_status: status, ..pre[i as int] },
                    ));
                }
                return;
            }
            i += 1;
        }
        proof {
            lemma_first_request_skip(self.requests@, bucket@, key@, self.requests@.len() as int);
            assert(self.requests@.skip(self.requests@.len() as int)
                =~= Seq::<TrackedRestoreRequest>::empty());
        }
    }

    /// The requests still in flight.
    pub fn get_active_requests(&self) -> (r: Vec<TrackedRestoreRequest>)
        ensures
            r@ == self.requests_view().filter(|t: TrackedRestoreRequest| request_active(t)),
    {
        let mut r: Vec<TrackedRestoreRequest> = Vec::new();
        let mut i: usize = 0;
        while i < self.requests.len()
            invariant
                i <= self.requests@.len(),
                r@ == self.requests@.take(i as int).filter(
                    |t: TrackedRestoreRequest| request_active(t),
                ),
            decreases self.requests@.len() - i,
        {
            let keep = !matches!(
                self.requests[i].current_status,
                RestoreState::Available | RestoreState::Expired
            );
            if keep {
                r.push(self.requests[i].clone());
            }
            i += 1;
        }
        proof {
            assert(self.requests@.take(self.requests@.len() as int) =~= self.requests@);
        }
        r
    }

    /// All tracked requests, in the order they were recorded.
    pub fn get_all_requests(&self) -> (r: &[TrackedRestoreRequest])
        ensures
            r@ == self.requests_view(),
    {
        self.requests.as_slice()
    }

    /// Drops the requests that have completed (available or expired).
    pub fn remove_completed(&mut self)
        ensures
            final(self).requests_view() == old(self).requests_view().filter(
                |t: TrackedRestoreRequest| request_active(t),
            ),
    {
        let kept = self.get_active_requests();
        self.requests = kept;
    }
}

} // verus!
