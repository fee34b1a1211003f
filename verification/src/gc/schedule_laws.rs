//! What the I/O budget, the claims, the deletion gate and the retry schedule promise.

use vstd::prelude::*;

use super::claims::ClaimsView;
use super::deletion;
use super::deletion::{DeletionEvidence, DeletionStep};
use super::outputs::GcError;
use super::rate_limiter;
use super::rate_limiter::{GcIoLimiter, GcIoLimiterState, GcIoReservation};
use super::schedule;
use crate::num;
use crate::segments::{SegmentFileState, SegmentState};
use crate::types::{SegmentId, StrataLsn};

verus! {

// The budget.

/// Tokens that a limiter holds at `now`: what it held, and one per byte of the rate and nanosecond
/// since, up to a thousand million per byte of its burst.
pub open spec fn tokens_at(state: GcIoLimiterState, now: u128) -> int {
    let passed = if now > state.last_refill {
        now - state.last_refill
    } else {
        0
    };
    let most = state.burst_bytes * 1_000_000_000;
    let all = state.available_scaled + passed * state.bytes_per_sec;
    if all < most {
        all
    } else {
        most
    }
}

/// Time adds one token per byte of the rate and nanosecond, up to the burst, and time that goes
/// backwards adds none.
pub proof fn law_time_refills_the_budget(state: GcIoLimiterState, now: u128)
    requires
        state.wf(),
    ensures
        ({
            let after = state.refilled(now);
            &&& after.available_scaled == tokens_at(state, now)
            &&& after.bytes_per_sec == state.bytes_per_sec
            &&& after.burst_bytes == state.burst_bytes
            &&& now > state.last_refill ==> after.last_refill == now
            &&& now <= state.last_refill ==> after.last_refill == state.last_refill
        }),
{
    if now > state.last_refill {
        assert((now - state.last_refill) * state.bytes_per_sec >= 0) by (nonlinear_arith)
            requires
                now > state.last_refill,
                state.bytes_per_sec > 0,
        ;
        assert(state.burst_bytes * 1_000_000_000 <= u128::MAX) by (nonlinear_arith)
            requires
                state.burst_bytes <= u64::MAX,
        ;
    }
}

/// Bytes are granted exactly where a thousand million tokens are there for each of them, which are
/// then gone. Else nothing is taken, and the wait is the least time after which they are there.
pub proof fn law_bytes_are_paid_for(state: GcIoLimiterState, now: u128, bytes: u64)
    requires
        state.wf(),
        0 < bytes <= state.burst_bytes,
    ensures
        ({
            let price = bytes * 1_000_000_000;
            let had = tokens_at(state, now);
            let after = state.after_reserve(now, bytes);
            &&& had >= price ==> state.reservation(now, bytes) == GcIoReservation::Acquired
                && after.available_scaled == had - price
            &&& had < price ==> (state.reservation(now, bytes) matches GcIoReservation::Wait(nanos)
                && after.available_scaled == had && (nanos < u64::MAX ==> nanos
                * state.bytes_per_sec >= price - had) && (nanos - 1) * state.bytes_per_sec < price
                - had)
            &&& after.last_refill == state.refilled(now).last_refill
            &&& after.bytes_per_sec == state.bytes_per_sec
            &&& after.burst_bytes == state.burst_bytes
        }),
        state.reservation(now, 0) == GcIoReservation::Acquired,
        state.after_reserve(now, 0) == state,
{
    law_time_refills_the_budget(state, now);
    let price = bytes * 1_000_000_000;
    let had = tokens_at(state, now);
    if had < price {
        let rate = state.bytes_per_sec as int;
        let missing = price - had;
        let exact = num::ceil_div(missing, rate);
        assert(exact * rate >= missing && (exact - 1) * rate < missing) by (nonlinear_arith)
            requires
                rate > 0,
                exact == (missing + rate - 1) / rate,
        ;
        assert(exact > 0) by (nonlinear_arith)
            requires
                rate > 0,
                missing > 0,
                exact * rate >= missing,
        ;
        if exact > u64::MAX {
            assert((u64::MAX - 1) * rate <= (exact - 1) * rate) by (nonlinear_arith)
                requires
                    rate > 0,
                    exact > u64::MAX,
            ;
        }
    }
}

/// A new rate is also the new burst; tokens beyond it are lost, others stay.
pub proof fn law_a_new_rate_bounds_the_burst(state: GcIoLimiterState, now: u128, rate: u64)
    requires
        state.wf(),
        rate > 0,
    ensures
        ({
            let after = state.with_rate(now, rate);
            let had = tokens_at(state, now);
            let most = rate * 1_000_000_000;
            &&& after.bytes_per_sec == rate && after.burst_bytes == rate
            &&& had <= most ==> after.available_scaled == had
            &&& had > most ==> after.available_scaled == most
            &&& after.last_refill == state.refilled(now).last_refill
        }),
{
    law_time_refills_the_budget(state, now);
}

/// A large request is served in pieces no larger than the burst.
pub proof fn law_requests_are_cut_to_the_burst(limiter: GcIoLimiter, remaining: u64)
    ensures
        limiter.chunk(remaining) <= remaining,
        limiter.chunk(remaining) <= limiter.state.burst_bytes,
        limiter.chunk(remaining) == remaining || limiter.chunk(remaining)
            == limiter.state.burst_bytes,
        rate_limiter::token_cost(remaining) == remaining * 1_000_000_000,
{
}

// Retries.

/// The first failure waits one interval, each further one twice as long, and from the fifth on all
/// wait sixteen intervals; no wait exceeds what a duration holds.
pub proof fn law_failures_double_the_wait(interval: u128, failures: u32)
    requires
        interval <= num::DURATION_MAX_NANOS,
    ensures
        ({
            let wait = schedule::backoff_nanos(interval, failures);
            let most = num::DURATION_MAX_NANOS as int;
            &&& failures <= 1 ==> wait == interval
            &&& failures == 2 && 2 * interval <= most ==> wait == 2 * interval
            &&& failures == 3 && 4 * interval <= most ==> wait == 4 * interval
            &&& failures == 4 && 8 * interval <= most ==> wait == 8 * interval
            &&& failures >= 5 && 16 * interval <= most ==> wait == 16 * interval
            &&& failures >= 5 && 16 * interval > most ==> wait == most
            &&& interval <= wait <= most
        }),
{
    vstd::arithmetic::power2::lemma2_to64();
    let factor = vstd::arithmetic::power2::pow2(schedule::backoff_exponent(failures)) as int;
    let intervals = if failures <= 1 {
        1int
    } else if failures == 2 {
        2
    } else if failures == 3 {
        4
    } else if failures == 4 {
        8
    } else {
        16
    };
    assert(factor == intervals);
    assert(interval * factor == intervals * interval) by (nonlinear_arith)
        requires
            factor == intervals,
    ;
    schedule::law_backoff_is_monotone_and_bounded(interval, failures, failures);
}

/// A success forgets all failures; a failure counts one more.
pub proof fn law_failures_are_counted(failures: u32)
    ensures
        schedule::failures_after_attempt(failures, true) == 0,
        failures < u32::MAX ==> schedule::failures_after_attempt(failures, false) == failures + 1,
        schedule::failures_after_attempt(u32::MAX, false) == u32::MAX,
{
}

// Claims.

/// Claiming takes exactly the segments that are listed, and releasing gives back exactly those; who
/// waits for a segment does not change.
pub proof fn law_claims_take_what_is_listed(
    claims: ClaimsView,
    segments: Seq<SegmentId>,
    segment_id: SegmentId,
)
    ensures
        claims.with_claims(segments).claimed.contains(segment_id) <==> claims.claimed.contains(
            segment_id,
        ) || segments.contains(segment_id),
        claims.without_claims(segments).claimed.contains(segment_id) <==> claims.claimed.contains(
            segment_id,
        ) && !segments.contains(segment_id),
        claims.with_claims(segments).draining == claims.draining,
        claims.without_claims(segments).draining == claims.draining,
        claims.available(segment_id) <==> !claims.claimed.contains(segment_id)
            && !claims.draining.dom().contains(segment_id),
        claims.all_available(segments) && segments.contains(segment_id) ==> claims.available(
            segment_id,
        ),
        claims.none_claimed(segments) && segments.contains(segment_id) ==> !claims.claimed.contains(
            segment_id,
        ),
{
    if segments.contains(segment_id) {
        let k = segments.index_of(segment_id);
        assert(segments[k] == segment_id);
    }
}

/// Segments are free to claim where each of them is, and unclaimed where none of them is claimed.
pub proof fn law_all_means_each(claims: ClaimsView, segments: Seq<SegmentId>)
    ensures
        (forall|segment_id: SegmentId| #[trigger]
            segments.contains(segment_id) ==> claims.available(segment_id))
            <==> claims.all_available(segments),
        (forall|segment_id: SegmentId| #[trigger]
            segments.contains(segment_id) ==> !claims.claimed.contains(segment_id))
            <==> claims.none_claimed(segments),
{
    assert forall|i: int| 0 <= i < segments.len() implies segments.contains(
        #[trigger] segments[i],
    ) by {}
    assert forall|segment_id: SegmentId| #[trigger] segments.contains(segment_id) implies exists|
        i: int,
    |
        0 <= i < segments.len() && #[trigger] segments[i] == segment_id by {
        let i = segments.index_of(segment_id);
        assert(segments[i] == segment_id);
    }
}

/// A reservation adds one waiter to each segment that is listed, a release takes one away where
/// there is any, and both leave the others and the claims alone.
pub proof fn law_reservations_count_waiters(
    before: ClaimsView,
    after: ClaimsView,
    segments: Seq<SegmentId>,
    segment_id: SegmentId,
)
    requires
        before.draining_counts(),
    ensures
        after.is_reserved_from(before, segments) ==> {
            &&& after.claimed == before.claimed
            &&& segments.contains(segment_id) ==> after.draining.dom().contains(segment_id)
                && !after.available(segment_id)
            &&& segments.contains(segment_id) && !before.draining.dom().contains(segment_id)
                ==> after.draining[segment_id] == 1
            &&& segments.contains(segment_id) && before.draining.dom().contains(segment_id)
                ==> after.draining[segment_id] == before.draining[segment_id] + 1
            &&& !segments.contains(segment_id) ==> (after.draining.dom().contains(segment_id)
                <==> before.draining.dom().contains(segment_id))
        },
        after.is_released_from(before, segments) ==> {
            &&& after.claimed == before.claimed
            &&& segments.contains(segment_id) && before.draining.dom().contains(segment_id)
                && before.draining[segment_id] == 1 ==> !after.draining.dom().contains(segment_id)
            &&& segments.contains(segment_id) && before.draining.dom().contains(segment_id)
                && before.draining[segment_id] > 1 ==> after.draining.dom().contains(segment_id)
                && after.draining[segment_id] == before.draining[segment_id] - 1
            &&& !segments.contains(segment_id) && before.draining.dom().contains(segment_id)
                ==> after.draining.dom().contains(segment_id) && after.draining[segment_id]
                == before.draining[segment_id]
        },
{
    assert(after.waiters(segment_id) >= 0 && before.waiters(segment_id) >= 0);
    if before.draining.dom().contains(segment_id) {
        assert(before.draining[segment_id] > 0);
    }
    if after.draining_counts() && after.draining.dom().contains(segment_id) {
        assert(after.draining[segment_id] > 0);
    }
}

// Deletion.

/// References that keep a segment: those that outlive the epoch of a clock expiry, else all live
/// ones.
pub open spec fn keeping_refs(evidence: DeletionEvidence) -> u64 {
    if evidence.clock_expiry_epoch is Some {
        evidence.live_after_epoch
    } else {
        evidence.summary.live_ref_count
    }
}

/// A segment is deleted exactly where it is sealed or relocated, nothing keeps it, its relocation is
/// durable, and no snapshot reads it. A deleted one is only unlinked. One that is unknown, still
/// written or kept is a fault; the rest waits.
pub proof fn law_deletions_wait_for_their_evidence(
    evidence: DeletionEvidence,
    durable: StrataLsn,
    row: SegmentState,
)
    ensures
        ({
            let segment_id = evidence.segment_id;
            let step = deletion::deletion_step(evidence, durable);
            let sealed = row.state == SegmentFileState::Sealed;
            let relocated = row.state == SegmentFileState::GcRelocating;
            let activated = evidence.activation_lsn matches Some(lsn) && lsn <= durable;
            &&& evidence.row is None ==> step == DeletionStep::Fault(
                GcError::MissingSourceSegment { segment_id },
            )
            &&& evidence.row == Some(row) ==> {
                &&& row.state == SegmentFileState::Deleted ==> step is Unlink
                &&& row.state == SegmentFileState::Open || row.state == SegmentFileState::Sealing
                    || row.state == SegmentFileState::PendingGcOutput ==> step
                    == DeletionStep::Fault(
                    GcError::SourceSegmentNotSealed { segment_id, state: row.state },
                )
                &&& (sealed || relocated) && keeping_refs(evidence) != 0 ==> step
                    == DeletionStep::Fault(
                    GcError::SourceSegmentNotEmpty {
                        segment_id,
                        live_ref_count: keeping_refs(evidence),
                    },
                )
                &&& (sealed || relocated) && keeping_refs(evidence) == 0 && (relocated
                    && !activated || evidence.snapshot_protects) ==> step is Wait
                &&& (sealed || relocated && activated) && keeping_refs(evidence) == 0
                    && !evidence.snapshot_protects ==> step is Delete
            }
        }),
{
}

/// Each piece of evidence adds its own part to the plan: a deletion its row, marked deleted, to what
/// is committed and to what is unlinked, and its summary to what is removed; an unlink its row to
/// what is unlinked; and only deleted sources of a relocation are counted as such.
pub proof fn law_deletions_are_planned_one_by_one(
    evidence: Seq<DeletionEvidence>,
    next: DeletionEvidence,
    durable: StrataLsn,
)
    ensures
        deletion::rows_to_commit(Seq::empty(), durable).len() == 0,
        deletion::rows_to_unlink(Seq::empty(), durable).len() == 0,
        deletion::summaries_to_remove(Seq::empty(), durable).len() == 0,
        deletion::relocating_deleted(Seq::empty(), durable) == 0,
        ({
            let more = evidence.push(next);
            let step = deletion::deletion_step(next, durable);
            let commit = deletion::rows_to_commit(evidence, durable);
            let unlink = deletion::rows_to_unlink(evidence, durable);
            let remove = deletion::summaries_to_remove(evidence, durable);
            let relocated = deletion::relocating_deleted(evidence, durable);
            &&& step is Delete ==> (next.row matches Some(row) && {
                let marked = SegmentState { state: SegmentFileState::Deleted, ..row };
                &&& deletion::rows_to_commit(more, durable) == commit.push(marked)
                &&& deletion::rows_to_unlink(more, durable) == unlink.push(marked)
                &&& deletion::summaries_to_remove(more, durable) == remove.push(next.summary)
                &&& row.state == SegmentFileState::GcRelocating ==> deletion::relocating_deleted(
                    more,
                    durable,
                ) == relocated + 1
                &&& row.state != SegmentFileState::GcRelocating ==> deletion::relocating_deleted(
                    more,
                    durable,
                ) == relocated
            })
            &&& step !is Delete ==> deletion::rows_to_commit(more, durable) == commit
                && deletion::summaries_to_remove(more, durable) == remove
                && deletion::relocating_deleted(more, durable) == relocated
            &&& step is Unlink ==> (next.row matches Some(row) && deletion::rows_to_unlink(
                more,
                durable,
            ) == unlink.push(row))
            &&& step !is Unlink && step !is Delete ==> deletion::rows_to_unlink(more, durable)
                == unlink
        }),
{
    assert(evidence.push(next).drop_last() =~= evidence);
}

/// A reclaimed segment is reported under its own strategy; without one, under the fallback where
/// nothing was rewritten for it.
pub proof fn law_reclaims_are_reported_by_strategy(
    label: Seq<char>,
    output_bytes: u64,
    fallback: Seq<char>,
)
    ensures
        deletion::reclaim_label(Some(label), output_bytes, fallback) == label,
        deletion::reclaim_label(None, 0, fallback) == fallback,
        output_bytes > 0 ==> deletion::reclaim_label(None, output_bytes, fallback) == "unknown"@,
{
}

} // verus!
