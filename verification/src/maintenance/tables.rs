//! LSM tables as maintenance sees them.

use vstd::prelude::*;

use crate::num;
use crate::types::StrataLsn;

verus! {

/// What maintenance reads of one sorted table.
#[derive(Clone, Copy, Debug, PartialEq, Eq, Structural)]
pub struct TableMeta {
    pub id: u64,
    /// LSNs of the oldest and newest row. Base tables have none.
    pub min_lsn: Option<StrataLsn>,
    pub max_lsn: Option<StrataLsn>,
    /// LSN through which global transitions were applied to a base table.
    pub merge_applied_through_lsn: Option<StrataLsn>,
    pub file_len: u64,
}

/// The sum of the tables' lengths.
pub open spec fn length_sum(tables: Seq<TableMeta>) -> nat
    decreases tables.len(),
{
    if tables.len() == 0 {
        0
    } else {
        length_sum(tables.drop_last()) + tables.last().file_len as nat
    }
}

/// The tables' total length, cut off at what 64 bits can hold.
pub open spec fn total_bytes(tables: Seq<TableMeta>) -> u64 {
    num::at_most(length_sum(tables) as int, u64::MAX as int) as u64
}

/// The tables' total length.
pub fn table_bytes(tables: &Vec<TableMeta>) -> (bytes: u64)
    ensures
        bytes == total_bytes(tables@),
{
    let mut bytes: u64 = 0;
    let mut i: usize = 0;
    while i < tables.len()
        invariant
            i <= tables@.len(),
            bytes == total_bytes(tables@.take(i as int)),
        decreases tables@.len() - i,
    {
        assert(tables@.take(i + 1).drop_last() =~= tables@.take(i as int));
        bytes = bytes.saturating_add(tables[i].file_len);
        i = i + 1;
    }
    assert(tables@.take(i as int) =~= tables@);
    bytes
}

/// Both lists of tables, one behind the other.
pub fn joined_tables(first: &Vec<TableMeta>, second: &Vec<TableMeta>) -> (joined: Vec<TableMeta>)
    ensures
        joined@ == first@ + second@,
{
    let mut joined: Vec<TableMeta> = Vec::new();
    let mut i: usize = 0;
    while i < first.len()
        invariant
            i <= first@.len(),
            joined@ == first@.take(i as int),
        decreases first@.len() - i,
    {
        joined.push(first[i]);
        i = i + 1;
        assert(joined@ =~= first@.take(i as int));
    }
    assert(first@.take(i as int) =~= first@);
    let mut j: usize = 0;
    assert(first@ + second@.take(0) =~= first@);
    while j < second.len()
        invariant
            j <= second@.len(),
            joined@ == first@ + second@.take(j as int),
        decreases second@.len() - j,
    {
        joined.push(second[j]);
        j = j + 1;
        assert(joined@ =~= first@ + second@.take(j as int));
    }
    assert(second@.take(j as int) =~= second@);
    joined
}

/// The lesser of two LSNs, where there are any.
pub open spec fn lesser(a: Option<StrataLsn>, b: Option<StrataLsn>) -> Option<StrataLsn> {
    match (a, b) {
        (Some(x), Some(y)) => Some(
            if y < x {
                y
            } else {
                x
            },
        ),
        (Some(x), None) => Some(x),
        (None, y) => y,
    }
}

/// The LSN of the oldest row of any table.
pub open spec fn oldest_row(tables: Seq<TableMeta>) -> Option<StrataLsn>
    decreases tables.len(),
{
    if tables.len() == 0 {
        None
    } else {
        lesser(oldest_row(tables.drop_last()), tables.last().min_lsn)
    }
}

/// The oldest row's LSN is the least of the tables' first LSNs.
pub proof fn lemma_oldest_row(tables: Seq<TableMeta>)
    ensures
        match oldest_row(tables) {
            None => forall|i: int| 0 <= i < tables.len() ==> (#[trigger] tables[i]).min_lsn is None,
            Some(oldest) => {
                &&& exists|i: int| 0 <= i < tables.len() && (#[trigger] tables[i]).min_lsn == Some(
                    oldest,
                )
                &&& forall|i: int|
                    0 <= i < tables.len() ==> ((#[trigger] tables[i]).min_lsn matches Some(lsn)
                        ==> oldest <= lsn)
            },
        },
    decreases tables.len(),
{
    if tables.len() > 0 {
        let init = tables.drop_last();
        lemma_oldest_row(init);
        assert forall|i: int| 0 <= i < init.len() implies init[i] == tables[i] by {}
        let last = tables[tables.len() - 1];
        match oldest_row(tables) {
            None => {
                assert forall|i: int| 0 <= i < tables.len() implies (
                #[trigger] tables[i]).min_lsn is None by {
                    if i < init.len() {
                        assert(init[i].min_lsn is None);
                    }
                }
            },
            Some(oldest) => {
                if last.min_lsn != Some(oldest) {
                    let i = choose|i: int|
                        0 <= i < init.len() && (#[trigger] init[i]).min_lsn == Some(oldest);
                    assert(tables[i].min_lsn == Some(oldest));
                } else {
                    assert(tables[tables.len() - 1].min_lsn == Some(oldest));
                }
                assert forall|i: int| 0 <= i < tables.len() implies ((
                #[trigger] tables[i]).min_lsn matches Some(lsn) ==> oldest <= lsn) by {
                    if i < init.len() {
                        assert(init[i].min_lsn matches Some(lsn) ==> oldest_row(
                            init,
                        )->Some_0 <= lsn);
                    }
                }
            },
        }
    }
}

/// The LSN of the oldest row of any table.
pub fn oldest_row_lsn(tables: &Vec<TableMeta>) -> (oldest: Option<StrataLsn>)
    ensures
        oldest == oldest_row(tables@),
{
    let mut oldest: Option<u64> = None;
    let mut i: usize = 0;
    while i < tables.len()
        invariant
            i <= tables@.len(),
            oldest == oldest_row(tables@.take(i as int)),
        decreases tables@.len() - i,
    {
        assert(tables@.take(i + 1).drop_last() =~= tables@.take(i as int));
        oldest = match (oldest, tables[i].min_lsn) {
            (Some(x), Some(y)) => Some(
                if y < x {
                    y
                } else {
                    x
                },
            ),
            (Some(x), None) => Some(x),
            (None, y) => y,
        };
        i = i + 1;
    }
    assert(tables@.take(i as int) =~= tables@);
    oldest
}

/// The highest LSN at or below `frontier` that is below every row of `unread`.
pub open spec fn below_unread(frontier: StrataLsn, unread: Seq<TableMeta>) -> StrataLsn {
    match oldest_row(unread) {
        None => frontier,
        Some(oldest) => num::at_most(
            frontier as int,
            if oldest == 0 {
                0
            } else {
                oldest - 1
            },
        ) as u64,
    }
}

/// The tables that hold rows newer than `lsn`.
pub open spec fn newer_than(tables: Seq<TableMeta>, lsn: StrataLsn) -> Seq<TableMeta>
    decreases tables.len(),
{
    if tables.len() == 0 {
        Seq::empty()
    } else {
        let earlier = newer_than(tables.drop_last(), lsn);
        if tables.last().max_lsn matches Some(newest) && newest > lsn {
            earlier.push(tables.last())
        } else {
            earlier
        }
    }
}

/// The LSN of the newest row of any table; 0 where there is none.
pub open spec fn newest_row(tables: Seq<TableMeta>) -> StrataLsn
    decreases tables.len(),
{
    if tables.len() == 0 {
        0
    } else {
        let earlier = newest_row(tables.drop_last());
        match tables.last().max_lsn {
            Some(lsn) => if lsn > earlier {
                lsn
            } else {
                earlier
            },
            None => earlier,
        }
    }
}

/// Highest LSN a pass that reads no patch may apply global transitions through: just below the
/// oldest live patch of the partition, so every operand that could change how a transition applies
/// to one of the partition's keys is already in the base.
pub fn sweep_bound(materialized_through_lsn: StrataLsn, live_patches: &Vec<TableMeta>) -> (bound:
    StrataLsn)
    ensures
        bound == below_unread(materialized_through_lsn, live_patches@),
{
    bound_below(materialized_through_lsn, live_patches)
}

fn bound_below(frontier: StrataLsn, unread: &Vec<TableMeta>) -> (bound: StrataLsn)
    ensures
        bound == below_unread(frontier, unread@),
{
    match oldest_row_lsn(unread) {
        None => frontier,
        Some(oldest) => num::min_u64(frontier, oldest.saturating_sub(1)),
    }
}

/// Highest LSN a tier merge may apply global transitions through: just below the oldest live patch
/// holding rows newer than the tier. Older rows are ordered before the tier by LSN either way; a
/// newer unread patch could hold the lifetime change that a transition must see first.
pub fn tier_bound(
    materialized_through_lsn: StrataLsn,
    tier: &Vec<TableMeta>,
    live_patches: &Vec<TableMeta>,
) -> (bound: StrataLsn)
    ensures
        bound == below_unread(
            materialized_through_lsn,
            newer_than(live_patches@, newest_row(tier@)),
        ),
{
    let mut newest: u64 = 0;
    let mut i: usize = 0;
    while i < tier.len()
        invariant
            i <= tier@.len(),
            newest == newest_row(tier@.take(i as int)),
        decreases tier@.len() - i,
    {
        assert(tier@.take(i + 1).drop_last() =~= tier@.take(i as int));
        if let Some(lsn) = tier[i].max_lsn {
            if lsn > newest {
                newest = lsn;
            }
        }
        i = i + 1;
    }
    assert(tier@.take(i as int) =~= tier@);
    let mut unread: Vec<TableMeta> = Vec::new();
    let mut j: usize = 0;
    while j < live_patches.len()
        invariant
            j <= live_patches@.len(),
            unread@ == newer_than(live_patches@.take(j as int), newest),
        decreases live_patches@.len() - j,
    {
        assert(live_patches@.take(j + 1).drop_last() =~= live_patches@.take(j as int));
        let table: TableMeta = live_patches[j];
        if let Some(lsn) = table.max_lsn {
            if lsn > newest {
                unread.push(table);
            }
        }
        j = j + 1;
    }
    assert(live_patches@.take(j as int) =~= live_patches@);
    bound_below(materialized_through_lsn, &unread)
}

/// A sweep applies no transition that a row of a live patch could precede: its bound is below every
/// such row, and not beyond the frontier.
pub proof fn law_sweep_stays_below_live_patches(
    frontier: StrataLsn,
    live: Seq<TableMeta>,
    at: int,
)
    requires
        0 <= at < live.len(),
        live[at].min_lsn matches Some(lsn) && lsn > 0,
    ensures
        below_unread(frontier, live) < live[at].min_lsn->Some_0,
        below_unread(frontier, live) <= frontier,
{
    lemma_oldest_row(live);
    assert(live[at].min_lsn is Some);
}

pub proof fn lemma_newer_than_member(tables: Seq<TableMeta>, lsn: StrataLsn, at: int)
    requires
        0 <= at < tables.len(),
        tables[at].max_lsn matches Some(newest) && newest > lsn,
    ensures
        newer_than(tables, lsn).contains(tables[at]),
    decreases tables.len(),
{
    let earlier = newer_than(tables.drop_last(), lsn);
    if at == tables.len() - 1 {
        let all = earlier.push(tables.last());
        assert(all[earlier.len() as int] == tables.last());
    } else {
        lemma_newer_than_member(tables.drop_last(), lsn, at);
        let i = choose|i: int| 0 <= i < earlier.len() && earlier[i] == tables[at];
        assert(earlier.push(tables.last())[i] == tables[at]);
        assert(newer_than(tables, lsn)[i] == tables[at]);
    }
}

pub proof fn lemma_newer_than_from(tables: Seq<TableMeta>, lsn: StrataLsn, at: int)
    requires
        0 <= at < newer_than(tables, lsn).len(),
    ensures
        tables.contains(newer_than(tables, lsn)[at]),
        newer_than(tables, lsn)[at].max_lsn matches Some(newest) && newest > lsn,
    decreases tables.len(),
{
    if tables.len() > 0 {
        let init = tables.drop_last();
        if at < newer_than(init, lsn).len() {
            lemma_newer_than_from(init, lsn, at);
            let i = choose|i: int| 0 <= i < init.len() && init[i] == newer_than(init, lsn)[at];
            assert(tables[i] == newer_than(tables, lsn)[at]);
        } else {
            assert(tables[tables.len() - 1] == newer_than(tables, lsn)[at]);
        }
    }
}

/// A tier merge applies no transition that a newer unread patch's rows could precede.
pub proof fn law_tier_stays_below_newer_patches(
    frontier: StrataLsn,
    tier: Seq<TableMeta>,
    live: Seq<TableMeta>,
    at: int,
)
    requires
        0 <= at < live.len(),
        live[at].max_lsn matches Some(lsn) && lsn > newest_row(tier),
        live[at].min_lsn matches Some(lsn) && lsn > 0,
    ensures
        below_unread(frontier, newer_than(live, newest_row(tier))) < live[at].min_lsn->Some_0,
        below_unread(frontier, newer_than(live, newest_row(tier))) <= frontier,
{
    let unread = newer_than(live, newest_row(tier));
    lemma_newer_than_member(live, newest_row(tier), at);
    let i = choose|i: int| 0 <= i < unread.len() && unread[i] == live[at];
    law_sweep_stays_below_live_patches(frontier, unread, i);
}

} // verus!
