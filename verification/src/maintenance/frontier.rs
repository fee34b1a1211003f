//! Frontiers that move with maintenance: garbage accounting, relocation durability and the
//! retained part of the store's log.

use vstd::prelude::*;

use crate::num;
use crate::types::StrataLsn;

verus! {

/// A place in the garbage log.
#[derive(Clone, Copy, Debug, PartialEq, Eq, Structural)]
pub struct GarbageLogPosition {
    pub log_id: u64,
    pub offset: u64,
}

impl GarbageLogPosition {
    /// The start of the log, where no position was recorded yet.
    pub fn start() -> (position: GarbageLogPosition)
        ensures
            position.log_id == 0,
            position.offset == 0,
    {
        GarbageLogPosition { log_id: 0, offset: 0 }
    }
}

/// How far the sweep cursor trails the head, in bytes of the head's file.
pub open spec fn backlog(head: GarbageLogPosition, cursor: GarbageLogPosition) -> int {
    if head.log_id == cursor.log_id {
        num::at_least(head.offset - cursor.offset, 0)
    } else {
        head.offset as int
    }
}

/// How far the sweep cursor trails the committed head, in bytes of the current log file. Frames in
/// older log files are not counted, so this is a lower bound while the head has rolled to a newer
/// file.
pub fn garbage_log_backlog(head: GarbageLogPosition, cursor: GarbageLogPosition) -> (bytes: u64)
    ensures
        bytes == backlog(head, cursor),
{
    if head.log_id == cursor.log_id {
        head.offset.saturating_sub(cursor.offset)
    } else {
        head.offset
    }
}

/// How far the blob manifest has come.
#[derive(Clone, Copy, Debug, PartialEq, Eq, Structural)]
pub struct MergeCoverage {
    /// LSN through which every base has seen every transition.
    pub merge_applied_through_lsn: StrataLsn,
    /// LSN through which every lifetime change is merged.
    pub writes_merged_through_lsn: StrataLsn,
}

/// Frontiers to be written together. A frontier that stays is not written.
#[derive(Clone, Copy, Debug, PartialEq, Eq, Structural)]
pub struct FrontierUpdate {
    pub expiry_accounted_lsn: Option<StrataLsn>,
    pub writes_merged_lsn: Option<StrataLsn>,
}

/// `candidate`, where it is beyond `current`.
pub open spec fn advance(current: StrataLsn, candidate: StrataLsn) -> Option<StrataLsn> {
    if candidate > current {
        Some(candidate)
    } else {
        None
    }
}

/// Decides which expiry frontiers advance.
///
/// They advance only when both merge coverage and garbage accounting agree: a compaction may have
/// stamped every base, but while a frame lies between the head and the sweep cursor, a segment
/// summary still counts bytes that the frame declares dead. So the log must be drained first.
pub fn refresh_expiry_accounting_frontier(
    head: GarbageLogPosition,
    cursor: GarbageLogPosition,
    coverage: Option<MergeCoverage>,
    expiry_accounted_lsn: Option<StrataLsn>,
    writes_merged_lsn: Option<StrataLsn>,
) -> (update: Option<FrontierUpdate>)
    ensures
        ({
            let expiry_current = match expiry_accounted_lsn {
                Some(lsn) => lsn,
                None => 0,
            };
            let writes_current = match writes_merged_lsn {
                Some(lsn) => lsn,
                None => 0,
            };
            match (update, coverage) {
                (Some(update), Some(coverage)) => {
                    &&& head == cursor
                    &&& update.expiry_accounted_lsn == advance(
                        expiry_current,
                        coverage.merge_applied_through_lsn,
                    )
                    &&& update.writes_merged_lsn == advance(
                        writes_current,
                        coverage.writes_merged_through_lsn,
                    )
                    &&& update.expiry_accounted_lsn is Some || update.writes_merged_lsn is Some
                },
                (Some(_), None) => false,
                (None, Some(coverage)) => head != cursor || (coverage.merge_applied_through_lsn
                    <= expiry_current && coverage.writes_merged_through_lsn <= writes_current),
                (None, None) => true,
            }
        }),
{
    if head.log_id != cursor.log_id || head.offset != cursor.offset {
        return None;
    }
    let coverage: MergeCoverage = match coverage {
        Some(coverage) => coverage,
        None => return None,
    };
    let expiry_current: u64 = expiry_accounted_lsn.unwrap_or(0);
    let writes_current: u64 = writes_merged_lsn.unwrap_or(0);
    let expiry: bool = coverage.merge_applied_through_lsn > expiry_current;
    let writes: bool = coverage.writes_merged_through_lsn > writes_current;
    if !expiry && !writes {
        return None;
    }
    Some(
        FrontierUpdate {
            expiry_accounted_lsn: if expiry {
                Some(coverage.merge_applied_through_lsn)
            } else {
                None
            },
            writes_merged_lsn: if writes {
                Some(coverage.writes_merged_through_lsn)
            } else {
                None
            },
        },
    )
}

/// What one bounded sweep of the garbage log did.
#[derive(Clone, Copy, Debug, PartialEq, Eq, Structural)]
pub struct SweepStep {
    /// Whether a frame was folded into segment summaries.
    pub swept: bool,
    /// The last relocation activation before the sweep's synced batch.
    pub relocation_lsn: StrataLsn,
    /// Whether an expiry frontier advanced after the log was found drained.
    pub frontier_advanced: bool,
}

/// A run of sweeps until the log is drained.
#[derive(Clone, Copy, Debug, PartialEq, Eq, Structural)]
pub struct GarbageDrain {
    /// Whether anything moved, so that GC is worth waking.
    pub advanced: bool,
    /// Every relocation activation at or below this is durable.
    pub durable_relocation_lsn: StrataLsn,
}

impl GarbageDrain {
    pub fn begin(durable_relocation_lsn: StrataLsn) -> (drain: GarbageDrain)
        ensures
            drain == (GarbageDrain { advanced: false, durable_relocation_lsn }),
    {
        GarbageDrain { advanced: false, durable_relocation_lsn }
    }

    /// Takes one sweep into account and says whether another is due.
    ///
    /// A sweep's batch is synced, and a sync covers every batch before it. So once a sweep was
    /// written, the activations that were sampled before it are durable.
    pub fn step(&mut self, step: SweepStep) -> (again: bool)
        ensures
            again == step.swept,
            final(self).advanced == (old(self).advanced || step.swept || step.frontier_advanced),
            final(self).durable_relocation_lsn == (if step.swept {
                num::at_least(
                    old(self).durable_relocation_lsn as int,
                    step.relocation_lsn as int,
                )
            } else {
                old(self).durable_relocation_lsn as int
            }),
    {
        if step.frontier_advanced {
            self.advanced = true;
        }
        if !step.swept {
            return false;
        }
        self.durable_relocation_lsn = num::max_u64(
            self.durable_relocation_lsn,
            step.relocation_lsn,
        );
        self.advanced = true;
        true
    }
}

/// The boundary that the store's log is retained from, where it has to be written anew.
///
/// The boundary never moves back; without a recorded one it is written even where it stays.
pub fn retained_boundary(
    persisted: Option<StrataLsn>,
    manifest_retained_from: StrataLsn,
    planned_retained_from: StrataLsn,
) -> (boundary: Option<StrataLsn>)
    ensures
        ({
            let current = match persisted {
                Some(lsn) => lsn,
                None => manifest_retained_from,
            };
            match boundary {
                Some(lsn) => (planned_retained_from > current || persisted is None) && lsn
                    == num::at_least(planned_retained_from as int, current as int),
                None => planned_retained_from <= current && persisted is Some,
            }
        }),
{
    let current: u64 = persisted.unwrap_or(manifest_retained_from);
    if planned_retained_from > current || persisted.is_none() {
        Some(num::max_u64(planned_retained_from, current))
    } else {
        None
    }
}

/// The LSN that the store's log may be reclaimed through, once something is materialized.
pub fn reclaim_target(materialized_through: Option<StrataLsn>) -> (target: Option<StrataLsn>)
    ensures
        target == (if materialized_through == Some(0u64) {
            None
        } else {
            materialized_through
        }),
{
    match materialized_through {
        Some(lsn) => if lsn == 0 {
            None
        } else {
            Some(lsn)
        },
        None => None,
    }
}

/// Whether a flush wakes the compactor: after a nudge, or where the tick froze a memtable.
pub fn flush_wakes_compactor(rolled: bool, timed: bool) -> (wakes: bool)
    ensures
        wakes == (rolled || !timed),
{
    rolled || !timed
}

/// What the compactor does next.
#[derive(Clone, Copy, Debug, PartialEq, Eq, Structural)]
pub enum CompactorWait {
    /// Run a forced pass now.
    Forced,
    /// Wait for a nudge, at most this many nanoseconds; a timeout forces the pass.
    Nudge(u128),
}

/// Decides whether the periodic pass is due. The deadline is absolute, so that a queue that is
/// never empty cannot postpone it.
pub fn compactor_wait(now: u128, next_forced_pass: u128) -> (wait: CompactorWait)
    ensures
        wait == (if now >= next_forced_pass {
            CompactorWait::Forced
        } else {
            CompactorWait::Nudge((next_forced_pass - now) as u128)
        }),
{
    if now >= next_forced_pass {
        CompactorWait::Forced
    } else {
        CompactorWait::Nudge(next_forced_pass - now)
    }
}

// Laws.

/// A refresh moves no frontier back, and moves it exactly where coverage lies beyond it.
pub proof fn law_frontiers_never_move_back(current: StrataLsn, candidate: StrataLsn)
    ensures
        advance(current, candidate) matches Some(next) ==> next > current,
        advance(current, candidate) is Some <==> candidate > current,
{
}

/// A drained log has no backlog.
pub proof fn law_drained_log_has_no_backlog(head: GarbageLogPosition, cursor: GarbageLogPosition)
    requires
        head == cursor,
    ensures
        backlog(head, cursor) == 0,
{
}

} // verus!
