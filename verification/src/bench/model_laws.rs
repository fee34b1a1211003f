//! What the model of a run's keys promises of each of its steps.

use vstd::prelude::*;

use super::config::Config;
use super::model;
use super::model::{DeleteBacklog, ModelSnapshot, ModelState};
use super::records::KeyRecord;
use super::scorecard;
use super::scorecard::{RunTotals, Verdict};
use super::workload::{KeyState, ReadExpectation};
use crate::types::Epoch;

verus! {

/// A pushed key gets the next ticket, and with it a record and a place in the sample. It joins the
/// live keys behind the last that it does not come before, unless one of them is just like it.
/// Nothing else changes.
pub proof fn law_pushed_keys_join_in_order(state: ModelState, record: KeyRecord, other: u64)
    requires
        state.live_sample.len() < usize::MAX,
        state.next_ticket < u64::MAX,
    ensures
        ({
            let after = state.pushed(record);
            let ticket = state.next_ticket;
            let like = exists|i: int|
                0 <= i < state.live.len() && state.records[#[trigger] state.live[i]].due_at
                    == record.due_at && state.records[state.live[i]].key@ == record.key@;
            &&& after.next_ticket == ticket + 1
            &&& after.live_sample == state.live_sample.push(ticket)
            &&& after.records.contains_key(ticket)
            &&& after.records[ticket] == (KeyRecord {
                sample_index: state.live_sample.len() as usize,
                ..record
            })
            &&& other != ticket ==> (after.records.contains_key(other)
                <==> state.records.contains_key(other)) && after.records[other]
                == state.records[other]
            &&& like ==> after.live == state.live
            &&& !like ==> exists|at: int|
                #![trigger state.live.insert(at, ticket)]
                0 <= at <= state.live.len() && after.live == state.live.insert(at, ticket) && (at
                    > 0 ==> !record.before(state.records[state.live[at - 1]])) && forall|i: int|
                    at <= i < state.live.len() ==> record.before(
                        state.records[#[trigger] state.live[i]],
                    )
            &&& after.deleting == state.deleting
            &&& after.deleted == state.deleted
            &&& after.capacity == state.capacity
            &&& after.due_keys == state.due_keys
        }),
{
    lemma_live_place(state.records, state.live, record);
    if state.has_alike(record) {
        let i = choose|i: int|
            0 <= i < state.live.len() && state.records[#[trigger] state.live[i]].alike(record);
        assert(state.records[state.live[i]].due_at == record.due_at);
    }
    let at = model::live_place(state.records, state.live, record);
    assert(state.live.insert(at, state.next_ticket).len() >= 0);
}

proof fn lemma_live_place(records: Map<u64, KeyRecord>, live: Seq<u64>, record: KeyRecord)
    ensures
        ({
            let at = model::live_place(records, live, record);
            &&& 0 <= at <= live.len()
            &&& at > 0 ==> !record.before(records[live[at - 1]])
            &&& forall|i: int| at <= i < live.len() ==> record.before(records[#[trigger] live[i]])
        }),
    decreases live.len(),
{
    if live.len() > 0 && record.before(records[live.last()]) {
        let init = live.drop_last();
        lemma_live_place(records, init, record);
        let at = model::live_place(records, live, record);
        assert forall|i: int| at <= i < live.len() implies record.before(
            records[#[trigger] live[i]],
        ) by {
            if i < init.len() {
                assert(init[i] == live[i]);
            }
        }
    }
}

/// The tickets of other keys are those whose record has another key, in their order.
pub proof fn law_other_keys_stay(
    records: Map<u64, KeyRecord>,
    tickets: Seq<u64>,
    ticket: u64,
    key: Seq<u8>,
)
    ensures
        model::other_keys(records, Seq::empty(), key).len() == 0,
        records[ticket].key@ == key ==> model::other_keys(records, tickets.push(ticket), key)
            == model::other_keys(records, tickets, key),
        records[ticket].key@ != key ==> model::other_keys(records, tickets.push(ticket), key)
            == model::other_keys(records, tickets, key).push(ticket),
{
    assert(tickets.push(ticket).drop_last() =~= tickets);
}

/// A key that leaves the sample loses its place there; the last of the sample takes it. Every other
/// sampled key stays sampled, at the place that its record tells.
pub proof fn law_the_last_sample_fills_the_gap(state: ModelState, ticket: u64, other: int)
    requires
        state.consistent(),
        state.sampled(ticket),
        0 <= other < state.live_sample.len(),
        state.live_sample[other] != ticket,
    ensures
        ({
            let after = state.unsampled(ticket);
            let gap = state.records[ticket].sample_index as int;
            &&& after.live_sample.len() == state.live_sample.len() - 1
            &&& after.records[ticket].sample_index == usize::MAX
            &&& other < after.live_sample.len() ==> after.live_sample[other]
                == state.live_sample[other]
            &&& other == after.live_sample.len() ==> gap < other && after.live_sample[gap]
                == state.live_sample[other]
            &&& after.sampled(state.live_sample[other])
            &&& after.records[ticket] == (KeyRecord {
                sample_index: usize::MAX,
                ..state.records[ticket]
            })
            &&& after.live == state.live && after.deleting == state.deleting && after.deleted
                == state.deleted && after.due_keys == state.due_keys
        }),
{
    let gap = state.records[ticket].sample_index as int;
    assert(state.live_sample[gap] == ticket);
    assert(state.records[state.live_sample[other]].sample_index == other);
    let last = state.live_sample.len() - 1;
    assert(state.records[state.live_sample[last]].sample_index == last);
    assert(other != gap);
}

/// A key changes its state and nothing else of it; a key counts as due once, when it is first marked.
pub proof fn law_keys_change_their_state(
    state: ModelState,
    ticket: u64,
    to: KeyState,
    other: u64,
)
    requires
        other != ticket,
    ensures
        ({
            let changed = state.with_state(ticket, to);
            let marked = state.marked_due(ticket);
            &&& changed.records[ticket] == (KeyRecord { state: to, ..state.records[ticket] })
            &&& changed.records[other] == state.records[other]
            &&& changed == (ModelState { records: changed.records, ..state })
            &&& marked.records[ticket] == (KeyRecord { due_counted: true, ..state.records[ticket] })
            &&& marked.records[other] == state.records[other]
            &&& state.records[ticket].due_counted ==> marked.due_keys == state.due_keys
            &&& !state.records[ticket].due_counted && state.due_keys < u64::MAX ==> marked.due_keys
                == state.due_keys + 1
            &&& marked.live == state.live && marked.live_sample == state.live_sample
                && marked.deleting == state.deleting && marked.deleted == state.deleted
        }),
{
    if state.records[ticket].due_counted {
        assert(state.records[ticket] == (KeyRecord { due_counted: true, ..state.records[ticket] }));
    }
}

/// A claim takes the first live key: it leaves the live keys and the sample, counts as due, and is
/// deleting in place of any other ticket of its key.
pub proof fn law_a_claim_takes_the_first_live_key(state: ModelState)
    requires
        state.wf(),
        state.live.len() > 0,
    ensures
        ({
            let after = state.claimed();
            let ticket = state.live[0];
            &&& after.live == state.live.skip(1)
            &&& after.records[ticket].state == KeyState::Deleting
            &&& after.records[ticket].due_counted
            &&& after.records[ticket].sample_index == usize::MAX
            &&& after.records[ticket].key == state.records[ticket].key
            &&& after.records[ticket].due_at == state.records[ticket].due_at
            &&& after.live_sample.len() == state.live_sample.len() - 1
            &&& after.deleting == model::other_keys(
                state.records,
                state.deleting,
                state.records[ticket].key@,
            ).push(ticket)
            &&& after.deleted == state.deleted
            &&& after.next_ticket == state.next_ticket
            &&& !state.records[ticket].due_counted && state.due_keys < u64::MAX ==> after.due_keys
                == state.due_keys + 1
            &&& state.records[ticket].due_counted ==> after.due_keys == state.due_keys
        }),
{
    let ticket = state.live[0];
    assert(state.sampled(ticket));
    let gap = state.records[ticket].sample_index as int;
    let last = state.live_sample.len() - 1;
    assert(state.live_sample[gap] == ticket);
    assert(state.records[state.live_sample[last]].sample_index == last);
}

/// A retired key leaves the sample and joins the deleted ones at the end, in the order of retiring.
pub proof fn law_retired_keys_join_the_deleted(state: ModelState, tickets: Seq<u64>, ticket: u64)
    ensures
        ({
            let after = state.retired(ticket);
            &&& after.deleted == state.deleted.push(ticket)
            &&& after.records[ticket].state == KeyState::Deleted
            &&& after.live_sample == state.unsampled(ticket).live_sample
            &&& after.live == state.live && after.deleting == state.deleting
        }),
        state.all_retired(Seq::empty()) == state,
        state.all_retired(tickets.push(ticket)) == state.all_retired(tickets).retired(ticket),
{
    assert(tickets.push(ticket).drop_last() =~= tickets);
}

/// The oldest deleted keys are forgotten, with their records, until no more are left than there is
/// room for; the others stay.
pub proof fn law_the_oldest_deleted_keys_are_forgotten(state: ModelState, ticket: u64)
    requires
        state.capacity >= 0,
    ensures
        ({
            let after = state.trimmed();
            let gone = if state.deleted.len() > state.capacity {
                state.deleted.len() - state.capacity
            } else {
                0
            };
            &&& after.deleted == state.deleted.skip(gone)
            &&& state.deleted.take(gone).contains(ticket) ==> !after.records.contains_key(ticket)
            &&& !state.deleted.take(gone).contains(ticket) ==> (after.records.contains_key(ticket)
                <==> state.records.contains_key(ticket)) && (state.records.contains_key(ticket)
                ==> after.records[ticket] == state.records[ticket])
            &&& after.live == state.live && after.live_sample == state.live_sample
                && after.deleting == state.deleting && after.capacity == state.capacity
                && after.next_ticket == state.next_ticket && after.due_keys == state.due_keys
        }),
    decreases state.deleted.len(),
{
    if state.deleted.len() > state.capacity {
        let next = ModelState {
            records: state.records.remove(state.deleted[0]),
            deleted: state.deleted.skip(1),
            ..state
        };
        law_the_oldest_deleted_keys_are_forgotten(next, ticket);
        let gone = state.deleted.len() - state.capacity;
        let more = next.deleted.take(gone - 1);
        let all = state.deleted.take(gone);
        assert(next.deleted.skip(gone - 1) =~= state.deleted.skip(gone));
        assert(all =~= seq![state.deleted[0]] + more);
        if all.contains(ticket) && ticket != state.deleted[0] {
            let k = all.index_of(ticket);
            assert(more[k - 1] == ticket);
        }
        if more.contains(ticket) {
            let k = more.index_of(ticket);
            assert(all[k + 1] == ticket);
        }
        assert(all[0] == state.deleted[0]);
    } else {
        assert(state.deleted.take(0) =~= Seq::empty());
        assert(state.deleted.skip(0) =~= state.deleted);
    }
}

/// A finished delete leaves the deleting keys, with every ticket of its key, and joins the deleted
/// ones at the end.
pub proof fn law_finished_deletes_join_the_deleted(state: ModelState, ticket: u64)
    requires
        state.capacity > state.deleted.len(),
    ensures
        ({
            let after = state.finished(ticket);
            &&& after.deleted == state.deleted.push(ticket)
            &&& after.records[ticket] == (KeyRecord {
                state: KeyState::Deleted,
                ..state.records[ticket]
            })
            &&& after.deleting == model::other_keys(
                state.records,
                state.deleting,
                state.records[ticket].key@,
            )
            &&& after.live == state.live && after.live_sample == state.live_sample
        }),
{
}

/// The backlog holds the live keys whose time has come and all keys that are being deleted. Each of
/// them that is due counts, as overdue where it lags by more than is allowed, and the longest lag is
/// kept.
pub proof fn law_the_backlog_counts_due_keys(
    records: Map<u64, KeyRecord>,
    tickets: Seq<u64>,
    ticket: u64,
    now: u128,
    epoch: Option<Epoch>,
    lag_slo: u128,
)
    requires
        tickets.len() < u64::MAX,
    ensures
        model::backlog_of(records, Seq::empty(), now, epoch, lag_slo) == (DeleteBacklog {
            due_keys: 0,
            matured_overdue_keys: 0,
            oldest_lag: 0,
        }),
        ({
            let before = model::backlog_of(records, tickets, now, epoch, lag_slo);
            let after = model::backlog_of(records, tickets.push(ticket), now, epoch, lag_slo);
            let record = records[ticket];
            let lag = now - record.due_at;
            &&& !record.spec_is_due(now, epoch) ==> after == before
            &&& record.spec_is_due(now, epoch) ==> {
                &&& after.due_keys == before.due_keys + 1
                &&& lag > lag_slo ==> after.matured_overdue_keys == before.matured_overdue_keys + 1
                &&& lag <= lag_slo ==> after.matured_overdue_keys == before.matured_overdue_keys
                &&& after.oldest_lag >= lag && after.oldest_lag >= before.oldest_lag
                &&& after.oldest_lag == lag || after.oldest_lag == before.oldest_lag
            }
        }),
{
    assert(tickets.push(ticket).drop_last() =~= tickets);
    lemma_backlog_size(records, tickets, now, epoch, lag_slo);
}

proof fn lemma_backlog_size(
    records: Map<u64, KeyRecord>,
    tickets: Seq<u64>,
    now: u128,
    epoch: Option<Epoch>,
    lag_slo: u128,
)
    requires
        tickets.len() <= u64::MAX,
    ensures
        ({
            let backlog = model::backlog_of(records, tickets, now, epoch, lag_slo);
            backlog.matured_overdue_keys <= backlog.due_keys <= tickets.len()
        }),
    decreases tickets.len(),
{
    if tickets.len() > 0 {
        lemma_backlog_size(records, tickets.drop_last(), now, epoch, lag_slo);
    }
}

/// The live keys of the backlog are the longest run of first ones whose time has come.
pub proof fn law_the_backlog_takes_live_and_deleting_keys(state: ModelState, now: u128)
    requires
        state.wf(),
    ensures
        exists|count: int|
            #![trigger state.live.take(count)]
            0 <= count <= state.live.len() && state.backlog_tickets(now) == state.live.take(count)
                + state.deleting && (forall|i: int|
                0 <= i < count ==> state.records[#[trigger] state.live[i]].due_at <= now) && forall|
                i: int,
            |
                count <= i < state.live.len() ==> state.records[#[trigger] state.live[i]].due_at > now,
{
    model::law_the_backlog_is_complete(state, now);
    let count = model::past_prefix(state.records, state.live, now);
    lemma_past_prefix(state.records, state.live, now);
    assert(state.backlog_tickets(now) == state.live.take(count) + state.deleting);
}

proof fn lemma_past_prefix(records: Map<u64, KeyRecord>, live: Seq<u64>, now: u128)
    ensures
        0 <= model::past_prefix(records, live, now) <= live.len(),
    decreases live.len(),
{
    if live.len() > 0 && records[live[0]].due_at <= now {
        lemma_past_prefix(records, live.skip(1), now);
    }
}

/// Refreshing marks each listed key that is due, and no other.
pub proof fn law_refreshing_marks_due_keys(
    state: ModelState,
    tickets: Seq<u64>,
    ticket: u64,
    now: u128,
    epoch: Option<Epoch>,
)
    ensures
        state.refreshed(Seq::empty(), now, epoch) == state,
        state.records[ticket].spec_is_due(now, epoch) ==> state.refreshed(
            tickets.push(ticket),
            now,
            epoch,
        ) == state.refreshed(tickets, now, epoch).marked_due(ticket),
        !state.records[ticket].spec_is_due(now, epoch) ==> state.refreshed(
            tickets.push(ticket),
            now,
            epoch,
        ) == state.refreshed(tickets, now, epoch),
{
    assert(tickets.push(ticket).drop_last() =~= tickets);
}

/// A read takes a deleted key where one is wanted or no live one is there, else a live one; without
/// either there is nothing to read. The draw picks by its remainder.
pub proof fn law_reads_prefer_as_asked(state: ModelState, draw: u64)
    ensures
        ({
            let deleted = state.deleted;
            let live = state.live_sample;
            let at = |tickets: Seq<u64>| tickets[(draw as usize) as int % tickets.len() as int];
            &&& deleted.len() > 0 ==> state.read_target(true, draw) == Some(
                (at(deleted), ReadExpectation::Deleted),
            )
            &&& deleted.len() == 0 && live.len() > 0 ==> state.read_target(true, draw) == Some(
                (at(live), ReadExpectation::Live),
            )
            &&& live.len() > 0 ==> state.read_target(false, draw) == Some(
                (at(live), ReadExpectation::Live),
            )
            &&& live.len() == 0 && deleted.len() > 0 ==> state.read_target(false, draw) == Some(
                (at(deleted), ReadExpectation::Deleted),
            )
            &&& live.len() == 0 && deleted.len() == 0 ==> state.read_target(true, draw) is None
                && state.read_target(false, draw) is None
        }),
{
}

/// A model starts without keys.
pub proof fn law_a_model_starts_empty(capacity: int)
    ensures
        ({
            let state = ModelState::empty(capacity);
            &&& state.records == Map::<u64, KeyRecord>::empty()
            &&& state.live.len() == 0 && state.live_sample.len() == 0
            &&& state.deleting.len() == 0 && state.deleted.len() == 0
            &&& state.capacity == capacity && state.next_ticket == 0 && state.due_keys == 0
        }),
{
}

// Verdicts.

/// A run qualifies exactly where it did not fail, gave no wrong answer, kept its read rate and its
/// read latency, and deleted in time.
pub proof fn law_a_run_qualifies_by_its_obligations(
    config: &Config,
    totals: RunTotals,
    model: ModelSnapshot,
    backlog: DeleteBacklog,
    failed: bool,
    read_rate_kept: bool,
    deletes_timely: bool,
)
    ensures
        ({
            let verdict: Verdict = scorecard::verdict_of(
                config,
                totals,
                model,
                backlog,
                failed,
                read_rate_kept,
                deletes_timely,
            );
            &&& verdict.qualified <==> {
                &&& !failed
                &&& totals.correctness_errors == 0
                &&& read_rate_kept
                &&& totals.read_p99 <= config.read_p99_slo
                &&& deletes_timely
            }
            &&& totals.live_reads + totals.deleted_reads <= u64::MAX ==> verdict.reads
                == totals.live_reads + totals.deleted_reads
            &&& totals.delete_timely + totals.delete_late + backlog.matured_overdue_keys
                <= u64::MAX ==> verdict.delete_obligations == totals.delete_timely
                + totals.delete_late + backlog.matured_overdue_keys
            &&& backlog.due_keys > model.live_keys + model.deleting_keys && model.live_keys
                + model.deleting_keys <= u64::MAX ==> verdict.logical_live_bytes == 0
            &&& backlog.due_keys <= model.live_keys + model.deleting_keys <= u64::MAX && (
            model.live_keys + model.deleting_keys - backlog.due_keys) * config.payload_size
                <= u64::MAX ==> verdict.logical_live_bytes == (model.live_keys
                + model.deleting_keys - backlog.due_keys) * config.payload_size
        }),
{
    assert(0 * config.payload_size == 0) by (nonlinear_arith);
}

/// Assignments are totalled, and the least and the greatest count are counts that occur, with none
/// beyond them.
pub proof fn law_assignments_are_totalled(counts: Seq<u64>, count: u64)
    ensures
        scorecard::total_of(Seq::empty()) == 0,
        scorecard::total_of(counts.push(count)) == scorecard::total_of(counts) + count,
        scorecard::least_of(Seq::empty()) == 0,
        scorecard::most_of(Seq::empty()) == 0,
        counts.len() > 0 ==> {
            let least = scorecard::least_of(counts);
            let most = scorecard::most_of(counts);
            &&& forall|i: int| 0 <= i < counts.len() ==> least <= #[trigger] counts[i] <= most
            &&& exists|i: int| 0 <= i < counts.len() && #[trigger] counts[i] == least
            &&& exists|i: int| 0 <= i < counts.len() && #[trigger] counts[i] == most
        },
{
    assert(counts.push(count).drop_last() =~= counts);
    if counts.len() > 0 {
        lemma_extremes(counts);
    }
}

proof fn lemma_extremes(counts: Seq<u64>)
    requires
        counts.len() > 0,
    ensures
        ({
            let least = scorecard::least_of(counts);
            let most = scorecard::most_of(counts);
            &&& forall|i: int| 0 <= i < counts.len() ==> least <= #[trigger] counts[i] <= most
            &&& exists|i: int| 0 <= i < counts.len() && #[trigger] counts[i] == least
            &&& exists|i: int| 0 <= i < counts.len() && #[trigger] counts[i] == most
        }),
    decreases counts.len(),
{
    let init = counts.drop_last();
    let last = counts.len() - 1;
    assert(counts[last] == counts.last());
    if counts.len() > 1 {
        lemma_extremes(init);
        let a = choose|i: int| 0 <= i < init.len() && #[trigger] init[i] == scorecard::least_of(init);
        let b = choose|i: int| 0 <= i < init.len() && #[trigger] init[i] == scorecard::most_of(init);
        assert(counts[a] == init[a] && counts[b] == init[b]);
        assert forall|i: int| 0 <= i < init.len() implies #[trigger] counts[i] == init[i] by {}
    } else {
        assert(init.len() == 0);
        assert(counts[0] == counts.last());
    }
}

} // verus!
