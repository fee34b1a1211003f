//! In-memory ownership of the source segments that GC jobs use.
//!
//! Claims protect only concurrent workers of one process; correctness-sensitive validation still
//! happens against durable metadata when a job publishes.

use std::collections::{BTreeMap, BTreeSet};

use vstd::prelude::*;

use crate::types::SegmentId;

verus! {

/// Which segments are owned, and which are kept from new owners because a shard cleanup waits for
/// them.
#[derive(Clone, Debug, PartialEq, Eq)]
pub struct GcSourceClaims {
    claimed: BTreeSet<SegmentId>,
    draining: BTreeMap<SegmentId, usize>,
}

/// What the claims say.
#[verifier::ext_equal]
pub struct ClaimsView {
    pub claimed: Set<SegmentId>,
    /// Number of cleanup waiters by segment. A segment nobody waits for has no entry.
    pub draining: Map<SegmentId, usize>,
}

impl View for GcSourceClaims {
    type V = ClaimsView;

    closed spec fn view(&self) -> ClaimsView {
        ClaimsView { claimed: self.claimed@, draining: self.draining@ }
    }
}

impl ClaimsView {
    /// A segment can be claimed if nobody owns it and no cleanup waits for it.
    pub open spec fn available(self, segment_id: SegmentId) -> bool {
        !self.claimed.contains(segment_id) && !self.draining.dom().contains(segment_id)
    }

    pub open spec fn all_available(self, segments: Seq<SegmentId>) -> bool {
        forall|i: int| 0 <= i < segments.len() ==> self.available(#[trigger] segments[i])
    }

    pub open spec fn none_claimed(self, segments: Seq<SegmentId>) -> bool {
        forall|i: int| 0 <= i < segments.len() ==> !self.claimed.contains(#[trigger] segments[i])
    }

    pub open spec fn with_claims(self, segments: Seq<SegmentId>) -> ClaimsView {
        ClaimsView { claimed: self.claimed.union(segments.to_set()), ..self }
    }

    pub open spec fn without_claims(self, segments: Seq<SegmentId>) -> ClaimsView {
        ClaimsView { claimed: self.claimed.difference(segments.to_set()), ..self }
    }

    /// The number of cleanup waiters of a segment.
    pub open spec fn waiters(self, segment_id: SegmentId) -> int {
        if self.draining.dom().contains(segment_id) {
            self.draining[segment_id] as int
        } else {
            0
        }
    }

    /// Every entry counts at least one waiter.
    pub open spec fn draining_counts(self) -> bool {
        forall|segment_id: SegmentId| #[trigger]
            self.draining.dom().contains(segment_id) ==> self.draining[segment_id] > 0
    }

    /// One more waiter for each of the segments.
    pub open spec fn is_reserved_from(self, before: ClaimsView, segments: Seq<SegmentId>) -> bool {
        &&& self.claimed == before.claimed
        &&& self.draining_counts()
        &&& forall|segment_id: SegmentId| #[trigger]
            self.waiters(segment_id) == before.waiters(segment_id) + (if segments.contains(
                segment_id,
            ) {
                1int
            } else {
                0
            })
    }

    /// One waiter less for each of the segments that has one.
    pub open spec fn is_released_from(self, before: ClaimsView, segments: Seq<SegmentId>) -> bool {
        &&& self.claimed == before.claimed
        &&& self.draining_counts()
        &&& forall|segment_id: SegmentId| #[trigger]
            self.waiters(segment_id) == before.waiters(segment_id) - (if segments.contains(
                segment_id,
            ) && before.waiters(segment_id) > 0 {
                1int
            } else {
                0
            })
    }
}

/// How far a cleanup's wait for its segments got.
#[derive(Clone, Copy, Debug, PartialEq, Eq, Structural)]
pub enum DrainStep {
    /// The segments are claimed and no longer reserved.
    Claimed,
    /// The deadline passed; the reservation is gone.
    TimedOut,
    /// Wait at most this many nanoseconds for a release, then ask again.
    Wait(u128),
}

impl GcSourceClaims {
    pub open spec fn wf(&self) -> bool {
        self@.draining_counts()
    }

    /// No claims at all.
    pub fn new() -> (claims: GcSourceClaims)
        ensures
            claims.wf(),
            claims@ == (ClaimsView { claimed: Set::empty(), draining: Map::empty() }),
    {
        GcSourceClaims { claimed: BTreeSet::new(), draining: BTreeMap::new() }
    }

    /// Claims every segment, or none where any is owned or waited for.
    pub fn try_claim(&mut self, segments: &Vec<SegmentId>) -> (claimed: bool)
        requires
            old(self).wf(),
        ensures
            final(self).wf(),
            claimed == old(self)@.all_available(segments@),
            final(self)@ == (if claimed {
                old(self)@.with_claims(segments@)
            } else {
                old(self)@
            }),
    {
        let mut i: usize = 0;
        while i < segments.len()
            invariant
                i <= segments@.len(),
                self.wf(),
                self@ == old(self)@,
                forall|j: int| 0 <= j < i ==> self@.available(#[trigger] segments@[j]),
            decreases segments@.len() - i,
        {
            if self.claimed.contains(&segments[i]) || self.draining.contains_key(&segments[i]) {
                assert(!self@.available(segments@[i as int]));
                return false;
            }
            i = i + 1;
        }
        self.claim_all(segments);
        true
    }

    fn claim_all(&mut self, segments: &Vec<SegmentId>)
        ensures
            final(self)@ == old(self)@.with_claims(segments@),
    {
        let mut i: usize = 0;
        assert(segments@.take(0).to_set() =~= Set::empty());
        assert(self@ =~= old(self)@.with_claims(segments@.take(0)));
        while i < segments.len()
            invariant
                i <= segments@.len(),
                self@ == old(self)@.with_claims(segments@.take(i as int)),
            decreases segments@.len() - i,
        {
            let _ = self.claimed.insert(segments[i]);
            proof {
                lemma_take_to_set(segments@, i as int);
                assert(self@ =~= old(self)@.with_claims(segments@.take(i + 1)));
            }
            i = i + 1;
        }
        assert(segments@.take(i as int) =~= segments@);
    }

    /// Gives segments back.
    pub fn release(&mut self, segments: &Vec<SegmentId>)
        requires
            old(self).wf(),
        ensures
            final(self).wf(),
            final(self)@ == old(self)@.without_claims(segments@),
    {
        let mut i: usize = 0;
        assert(segments@.take(0).to_set() =~= Set::empty());
        assert(self@ =~= old(self)@.without_claims(segments@.take(0)));
        while i < segments.len()
            invariant
                i <= segments@.len(),
                self@ == old(self)@.without_claims(segments@.take(i as int)),
            decreases segments@.len() - i,
        {
            let _ = self.claimed.remove(&segments[i]);
            proof {
                lemma_take_to_set(segments@, i as int);
                assert(self@ =~= old(self)@.without_claims(segments@.take(i + 1)));
            }
            i = i + 1;
        }
        assert(segments@.take(i as int) =~= segments@);
    }

    /// Keeps the segments from new owners while a cleanup waits for them.
    pub fn reserve_draining(&mut self, segments: &Vec<SegmentId>)
        requires
            old(self).wf(),
            segments@.no_duplicates(),
            forall|segment_id: SegmentId| #[trigger] old(self)@.waiters(segment_id) < usize::MAX,
        ensures
            final(self).wf(),
            final(self)@.is_reserved_from(old(self)@, segments@),
    {
        let mut i: usize = 0;
        while i < segments.len()
            invariant
                i <= segments@.len(),
                segments@.no_duplicates(),
                forall|segment_id: SegmentId| #[trigger]
                    old(self)@.waiters(segment_id) < usize::MAX,
                self@.is_reserved_from(old(self)@, segments@.take(i as int)),
            decreases segments@.len() - i,
        {
            let segment_id: u64 = segments[i];
            proof {
                lemma_take_contains(segments@, i as int);
                assert(self@.waiters(segment_id) == old(self)@.waiters(segment_id));
            }
            let waiters: usize = match self.draining.get(&segment_id) {
                Some(waiters) => *waiters,
                None => 0,
            };
            let ghost before = self@;
            let _ = self.draining.insert(segment_id, waiters + 1);
            proof {
                assert forall|other: SegmentId| other != segment_id implies #[trigger] self@.waiters(
                    other,
                ) == before.waiters(other) by {}
                assert(self@.waiters(segment_id) == before.waiters(segment_id) + 1);
                assert(self@.draining_counts());
                assert(self@.is_reserved_from(old(self)@, segments@.take(i + 1)));
            }
            i = i + 1;
        }
        assert(segments@.take(i as int) =~= segments@);
    }

    /// One look at whether a cleanup's segments can be claimed.
    ///
    /// Asked first right after [`GcSourceClaims::reserve_draining`], then after every release or
    /// timeout, until it no longer says to wait. `timed_out` tells that the last wait ended
    /// without a release.
    pub fn poll_draining(
        &mut self,
        segments: &Vec<SegmentId>,
        now: u128,
        deadline: u128,
        timed_out: bool,
    ) -> (step: DrainStep)
        requires
            old(self).wf(),
            segments@.no_duplicates(),
        ensures
            final(self).wf(),
            match step {
                DrainStep::Claimed => old(self)@.none_claimed(segments@)
                    && final(self)@.is_released_from(old(self)@.with_claims(segments@), segments@),
                DrainStep::TimedOut => !old(self)@.none_claimed(segments@) && (now >= deadline
                    || timed_out) && final(self)@.is_released_from(old(self)@, segments@),
                DrainStep::Wait(nanos) => !old(self)@.none_claimed(segments@) && now < deadline
                    && !timed_out && nanos == deadline - now && *final(self) == *old(self),
            },
    {
        let mut unavailable: bool = false;
        let mut i: usize = 0;
        while i < segments.len()
            invariant
                i <= segments@.len(),
                *self == *old(self),
                unavailable <==> exists|j: int|
                    0 <= j < i && self@.claimed.contains(#[trigger] segments@[j]),
            decreases segments@.len() - i,
        {
            if self.claimed.contains(&segments[i]) {
                unavailable = true;
                assert(self@.claimed.contains(segments@[i as int]));
            }
            i = i + 1;
        }
        if !unavailable {
            self.claim_all(segments);
            self.release_draining_reservation(segments);
            return DrainStep::Claimed;
        }
        if timed_out || now >= deadline {
            self.release_draining_reservation(segments);
            return DrainStep::TimedOut;
        }
        DrainStep::Wait(deadline - now)
    }

    fn release_draining_reservation(&mut self, segments: &Vec<SegmentId>)
        requires
            old(self).wf(),
            segments@.no_duplicates(),
        ensures
            final(self)@.is_released_from(old(self)@, segments@),
    {
        let mut i: usize = 0;
        while i < segments.len()
            invariant
                i <= segments@.len(),
                segments@.no_duplicates(),
                old(self)@.draining_counts(),
                self@.is_released_from(old(self)@, segments@.take(i as int)),
            decreases segments@.len() - i,
        {
            let segment_id: u64 = segments[i];
            proof {
                lemma_take_contains(segments@, i as int);
                assert(self@.waiters(segment_id) == old(self)@.waiters(segment_id));
            }
            let waiters: usize = match self.draining.get(&segment_id) {
                Some(waiters) => *waiters,
                None => 0,
            };
            let ghost before = self@;
            if waiters > 1 {
                let _ = self.draining.insert(segment_id, waiters - 1);
            } else if waiters == 1 {
                let _ = self.draining.remove(&segment_id);
            }
            proof {
                assert forall|other: SegmentId| other != segment_id implies #[trigger] self@.waiters(
                    other,
                ) == before.waiters(other) by {}
                assert(self@.draining_counts());
                assert(self@.waiters(segment_id) == before.waiters(segment_id) - (
                if before.waiters(segment_id) > 0 {
                    1int
                } else {
                    0
                }));
                assert(self@.is_released_from(old(self)@, segments@.take(i + 1)));
            }
            i = i + 1;
        }
        assert(segments@.take(i as int) =~= segments@);
    }

    /// Whether planning must leave a segment alone.
    pub fn is_taken(&self, segment_id: SegmentId) -> (taken: bool)
        ensures
            taken == !self@.available(segment_id),
    {
        self.claimed.contains(&segment_id) || self.draining.contains_key(&segment_id)
    }

    /// Marks the segments of a planning snapshot that are owned or waited for. Marks that are
    /// already there stay.
    pub fn mark_snapshot(&self, segments: &mut Vec<SnapshotSegment>)
        ensures
            final(segments)@.len() == old(segments)@.len(),
            forall|i: int|
                0 <= i < old(segments)@.len() ==> {
                    &&& (#[trigger] final(segments)@[i]).segment_id == old(segments)@[i].segment_id
                    &&& final(segments)@[i].claimed == (old(segments)@[i].claimed
                        || !self@.available(old(segments)@[i].segment_id))
                },
    {
        let mut i: usize = 0;
        while i < segments.len()
            invariant
                i <= segments@.len(),
                segments@.len() == old(segments)@.len(),
                forall|j: int| i <= j < segments@.len() ==> segments@[j] == old(segments)@[j],
                forall|j: int|
                    0 <= j < i ==> {
                        &&& (#[trigger] segments@[j]).segment_id == old(segments)@[j].segment_id
                        &&& segments@[j].claimed == (old(segments)@[j].claimed
                            || !self@.available(old(segments)@[j].segment_id))
                    },
            decreases segments@.len() - i,
        {
            let segment: SnapshotSegment = segments[i];
            if self.is_taken(segment.segment_id) {
                segments.set(
                    i,
                    SnapshotSegment { segment_id: segment.segment_id, claimed: true },
                );
            }
            i = i + 1;
        }
    }
}

/// One segment of a planning snapshot.
#[derive(Clone, Copy, Debug, PartialEq, Eq, Structural)]
pub struct SnapshotSegment {
    pub segment_id: SegmentId,
    pub claimed: bool,
}

proof fn lemma_take_to_set(segments: Seq<SegmentId>, i: int)
    requires
        0 <= i < segments.len(),
    ensures
        segments.take(i + 1).to_set() == segments.take(i).to_set().insert(segments[i]),
{
    let short = segments.take(i);
    let long = segments.take(i + 1);
    assert forall|segment_id: SegmentId|
        long.to_set().contains(segment_id) == short.to_set().insert(segments[i]).contains(
            segment_id,
        ) by {
        if long.contains(segment_id) {
            let j = choose|j: int| 0 <= j < long.len() && long[j] == segment_id;
            if j < i {
                assert(short[j] == segment_id);
            }
        }
        if short.contains(segment_id) {
            let j = choose|j: int| 0 <= j < short.len() && short[j] == segment_id;
            assert(long[j] == segment_id);
        }
        assert(long[i] == segments[i]);
    }
    assert(long.to_set() =~= short.to_set().insert(segments[i]));
}

proof fn lemma_take_contains(segments: Seq<SegmentId>, i: int)
    requires
        0 <= i < segments.len(),
        segments.no_duplicates(),
    ensures
        !segments.take(i).contains(segments[i]),
        forall|segment_id: SegmentId| #[trigger]
            segments.take(i + 1).contains(segment_id) <==> segments.take(i).contains(segment_id)
                || segment_id == segments[i],
{
    lemma_take_to_set(segments, i);
    assert forall|segment_id: SegmentId| #[trigger]
        segments.take(i + 1).contains(segment_id) <==> segments.take(i).contains(segment_id)
            || segment_id == segments[i] by {
        assert(segments.take(i + 1).to_set().contains(segment_id) == segments.take(i + 1).contains(
            segment_id,
        ));
        assert(segments.take(i).to_set().contains(segment_id) == segments.take(i).contains(
            segment_id,
        ));
    }
}

/// Nobody else owns or waits for a segment that a claim was granted for, and until it is released
/// no other claim on it is granted.
pub proof fn law_claims_are_exclusive(
    before: ClaimsView,
    first: Seq<SegmentId>,
    second: Seq<SegmentId>,
    segment_id: SegmentId,
)
    requires
        before.all_available(first),
        first.contains(segment_id),
        second.contains(segment_id),
    ensures
        before.available(segment_id),
        !before.with_claims(first).all_available(second),
{
    let i = choose|i: int| 0 <= i < first.len() && first[i] == segment_id;
    assert(before.available(first[i]));
    let j = choose|j: int| 0 <= j < second.len() && second[j] == segment_id;
    assert(before.with_claims(first).claimed.contains(second[j]));
}

/// Releasing what was claimed leaves the claims as they were.
pub proof fn law_release_undoes_claim(before: ClaimsView, segments: Seq<SegmentId>)
    requires
        before.all_available(segments),
    ensures
        before.with_claims(segments).without_claims(segments) == before,
{
    assert forall|segment_id: SegmentId| segments.to_set().contains(segment_id) implies !(
    #[trigger] before.claimed.contains(segment_id)) by {
        let i = choose|i: int| 0 <= i < segments.len() && segments[i] == segment_id;
        assert(before.available(segments[i]));
    }
    assert(before.with_claims(segments).without_claims(segments) =~= before);
}

/// A cleanup that reserved its segments keeps every new owner from them until it is done.
pub proof fn law_draining_blocks_new_claims(
    before: ClaimsView,
    reserved: ClaimsView,
    segments: Seq<SegmentId>,
    wanted: Seq<SegmentId>,
    segment_id: SegmentId,
)
    requires
        before.draining_counts(),
        reserved.is_reserved_from(before, segments),
        segments.contains(segment_id),
        wanted.contains(segment_id),
    ensures
        !reserved.all_available(wanted),
{
    assert(reserved.waiters(segment_id) == before.waiters(segment_id) + 1);
    let j = choose|j: int| 0 <= j < wanted.len() && wanted[j] == segment_id;
    assert(!reserved.available(wanted[j]));
}

/// A reservation that is given up leaves the reservations of others as they were.
pub proof fn law_release_undoes_reservation(
    before: ClaimsView,
    reserved: ClaimsView,
    released: ClaimsView,
    segments: Seq<SegmentId>,
)
    requires
        before.draining_counts(),
        reserved.is_reserved_from(before, segments),
        released.is_released_from(reserved, segments),
    ensures
        released == before,
{
    assert forall|segment_id: SegmentId|
        released.draining.dom().contains(segment_id) == before.draining.dom().contains(segment_id)
            && (released.draining.dom().contains(segment_id) ==> released.draining[segment_id]
            == before.draining[segment_id]) by {
        assert(reserved.waiters(segment_id) >= before.waiters(segment_id));
        assert(released.waiters(segment_id) == before.waiters(segment_id));
    }
    assert(released.draining =~= before.draining);
    assert(released =~= before);
}

} // verus!
