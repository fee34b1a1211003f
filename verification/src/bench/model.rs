//! The reference model: which keys the store under test must hold, and which it must not.
//! Times and spans of time are in nanoseconds.

use std::collections::VecDeque;

use vstd::prelude::*;

use crate::bench::random;
use crate::bench::random::SplitMix64;
use crate::bench::records::{KeyRecord, KeyTable};
use crate::bench::workload;
use crate::bench::workload::{elapsed_since, KeyState, ReadExpectation};
use crate::bytes::same_bytes;
use crate::keys;
use crate::num;
use crate::num::max_u128;
use crate::types::Epoch;

verus! {

/// Keys whose time has come and that are not deleted yet.
#[derive(Clone, Copy, Debug, PartialEq, Eq, Structural)]
pub struct DeleteBacklog {
    pub due_keys: u64,
    /// Those of them that are late by more than the service level.
    pub matured_overdue_keys: u64,
    pub oldest_lag: u128,
}

/// What the model holds.
#[derive(Clone, Copy, Debug, PartialEq, Eq, Structural)]
pub struct ModelSnapshot {
    pub live_keys: u64,
    pub deleting_keys: u64,
    pub deleted_sample_keys: u64,
    pub oldest_live_age: u128,
}

/// The model in mathematical terms.
#[verifier::ext_equal]
pub struct ModelState {
    pub records: Map<u64, KeyRecord>,
    /// Live keys, in the order in which they are due.
    pub live: Seq<u64>,
    /// Keys that reads may expect to find, in no order.
    pub live_sample: Seq<u64>,
    pub deleting: Seq<u64>,
    /// Deleted keys, the oldest first.
    pub deleted: Seq<u64>,
    pub capacity: int,
    pub next_ticket: u64,
    /// How many keys were counted as due. Wraps.
    pub due_keys: u64,
}

/// Where a record belongs among live keys: behind the last that it is not before.
pub open spec fn live_place(
    records: Map<u64, KeyRecord>,
    live: Seq<u64>,
    record: KeyRecord,
) -> int
    decreases live.len(),
{
    if live.len() == 0 || !record.before(records[live.last()]) {
        live.len() as int
    } else {
        live_place(records, live.drop_last(), record)
    }
}

/// The tickets of other keys, in order.
pub open spec fn other_keys(
    records: Map<u64, KeyRecord>,
    tickets: Seq<u64>,
    key: Seq<u8>,
) -> Seq<u64>
    decreases tickets.len(),
{
    if tickets.len() == 0 {
        Seq::empty()
    } else {
        let before = other_keys(records, tickets.drop_last(), key);
        if records[tickets.last()].key@ == key {
            before
        } else {
            before.push(tickets.last())
        }
    }
}

/// How many keys at the front have ended at an epoch.
pub open spec fn ended_prefix(records: Map<u64, KeyRecord>, live: Seq<u64>, epoch: Epoch) -> int
    decreases live.len(),
{
    if live.len() == 0 || !records[live[0]].spec_has_ended(epoch) {
        0
    } else {
        1 + ended_prefix(records, live.skip(1), epoch)
    }
}

/// How many keys at the front are past their time.
pub open spec fn past_prefix(records: Map<u64, KeyRecord>, live: Seq<u64>, now: u128) -> int
    decreases live.len(),
{
    if live.len() == 0 || records[live[0]].due_at > now {
        0
    } else {
        1 + past_prefix(records, live.skip(1), now)
    }
}

/// The backlog that some keys make up.
pub open spec fn backlog_of(
    records: Map<u64, KeyRecord>,
    tickets: Seq<u64>,
    now: u128,
    current_epoch: Option<Epoch>,
    lag_slo: u128,
) -> DeleteBacklog
    decreases tickets.len(),
{
    if tickets.len() == 0 {
        DeleteBacklog { due_keys: 0, matured_overdue_keys: 0, oldest_lag: 0 }
    } else {
        backlog_with(
            backlog_of(records, tickets.drop_last(), now, current_epoch, lag_slo),
            records[tickets.last()],
            now,
            current_epoch,
            lag_slo,
        )
    }
}

/// A backlog and one more key.
pub open spec fn backlog_with(
    backlog: DeleteBacklog,
    record: KeyRecord,
    now: u128,
    current_epoch: Option<Epoch>,
    lag_slo: u128,
) -> DeleteBacklog {
    if !record.spec_is_due(now, current_epoch) {
        backlog
    } else {
        let lag = workload::elapsed(now as int, record.due_at as int);
        DeleteBacklog {
            due_keys: num::at_most(backlog.due_keys + 1, u64::MAX as int) as u64,
            matured_overdue_keys: if lag > lag_slo {
                num::at_most(backlog.matured_overdue_keys + 1, u64::MAX as int) as u64
            } else {
                backlog.matured_overdue_keys
            },
            oldest_lag: num::at_least(backlog.oldest_lag as int, lag) as u128,
        }
    }
}

impl ModelState {
    pub open spec fn empty(capacity: int) -> ModelState {
        ModelState {
            records: Map::empty(),
            live: Seq::empty(),
            live_sample: Seq::empty(),
            deleting: Seq::empty(),
            deleted: Seq::empty(),
            capacity,
            next_ticket: 0,
            due_keys: 0,
        }
    }

    /// The key is in the sample of live keys, at the place that its record says.
    pub open spec fn sampled(self, ticket: u64) -> bool {
        &&& self.records.contains_key(ticket)
        &&& self.records[ticket].sample_index < self.live_sample.len()
        &&& self.live_sample[self.records[ticket].sample_index as int] == ticket
    }

    /// The key is out of the sample, and in a certain state.
    pub open spec fn parked(self, ticket: u64, state: KeyState) -> bool {
        &&& self.records.contains_key(ticket)
        &&& self.records[ticket].sample_index == usize::MAX
        &&& self.records[ticket].state == state
    }

    /// The key is in the sample, and nowhere else.
    pub open spec fn detached(self, ticket: u64) -> bool {
        &&& self.consistent()
        &&& self.sampled(ticket)
        &&& !self.live.contains(ticket)
    }

    /// Everything holds but for the number of deleted keys that are kept.
    pub open spec fn consistent(self) -> bool {
        &&& self.live_sample.len() <= usize::MAX
        &&& forall|i: int|
            0 <= i < self.live_sample.len() ==> self.records.contains_key(
                #[trigger] self.live_sample[i],
            ) && self.records[self.live_sample[i]].sample_index == i
        &&& forall|i: int|
            0 <= i < self.live.len() ==> self.sampled(#[trigger] self.live[i])
                && self.records[self.live[i]].state == KeyState::Live
        &&& forall|i: int, j: int|
            0 <= i < j < self.live.len() ==> #[trigger] self.live[i] != #[trigger] self.live[j]
        &&& forall|i: int, j: int|
            0 <= i < j < self.live.len() ==> !self.records[#[trigger] self.live[j]].before(
                self.records[#[trigger] self.live[i]],
            )
        &&& forall|i: int|
            0 <= i < self.deleting.len() ==> self.parked(
                #[trigger] self.deleting[i],
                KeyState::Deleting,
            )
        &&& forall|i: int, j: int|
            0 <= i < j < self.deleting.len() ==> self.records[#[trigger] self.deleting[i]].key@
                != self.records[#[trigger] self.deleting[j]].key@
        &&& forall|i: int|
            0 <= i < self.deleted.len() ==> self.parked(
                #[trigger] self.deleted[i],
                KeyState::Deleted,
            )
        &&& forall|i: int, j: int|
            0 <= i < j < self.deleted.len() ==> #[trigger] self.deleted[i]
                != #[trigger] self.deleted[j]
        &&& forall|ticket: u64| #[trigger]
            self.records.contains_key(ticket) ==> ticket < self.next_ticket && (self.sampled(ticket)
                || self.parked(ticket, KeyState::Deleting) || self.deleted.contains(ticket))
    }

    /// Every record is in the sample of live keys, being deleted, or among the last deleted. Live
    /// keys are in the order in which they are due, each once. Of one key's records no more than
    /// one counts as being deleted, the one that was claimed last.
    pub open spec fn wf(self) -> bool {
        self.consistent() && self.deleted.len() <= self.capacity
    }

    /// Whether a live key is due at the same time and has the same bytes.
    pub open spec fn has_alike(self, record: KeyRecord) -> bool {
        exists|i: int| 0 <= i < self.live.len() && self.records[#[trigger] self.live[i]].alike(record)
    }

    /// With one more key in the sample; it is live unless one like it is already.
    pub open spec fn pushed(self, record: KeyRecord) -> ModelState {
        let ticket = self.next_ticket;
        ModelState {
            records: self.records.insert(
                ticket,
                KeyRecord { sample_index: self.live_sample.len() as usize, ..record },
            ),
            live: if self.has_alike(record) {
                self.live
            } else {
                self.live.insert(live_place(self.records, self.live, record), ticket)
            },
            live_sample: self.live_sample.push(ticket),
            next_ticket: (ticket + 1) as u64,
            ..self
        }
    }

    /// With a key out of the sample. The last of the sample takes its place.
    pub open spec fn unsampled(self, ticket: u64) -> ModelState {
        let at = self.records[ticket].sample_index as int;
        let sample = self.live_sample.update(at, self.live_sample.last()).drop_last();
        let cleared = self.records.insert(
            ticket,
            KeyRecord { sample_index: usize::MAX, ..self.records[ticket] },
        );
        ModelState {
            records: if at < sample.len() {
                cleared.insert(
                    sample[at],
                    KeyRecord { sample_index: at as usize, ..cleared[sample[at]] },
                )
            } else {
                cleared
            },
            live_sample: sample,
            ..self
        }
    }

    pub open spec fn with_state(self, ticket: u64, state: KeyState) -> ModelState {
        ModelState {
            records: self.records.insert(ticket, KeyRecord { state, ..self.records[ticket] }),
            ..self
        }
    }

    /// With a key counted as due, unless it was before.
    pub open spec fn marked_due(self, ticket: u64) -> ModelState {
        if self.records[ticket].due_counted {
            self
        } else {
            ModelState {
                records: self.records.insert(
                    ticket,
                    KeyRecord { due_counted: true, ..self.records[ticket] },
                ),
                due_keys: self.due_keys.wrapping_add(1),
                ..self
            }
        }
    }

    /// With the first live key claimed for deletion.
    pub open spec fn claimed(self) -> ModelState {
        let ticket = self.live[0];
        let marked = self.marked_due(ticket);
        let popped = ModelState { live: marked.live.skip(1), ..marked };
        let state = popped.unsampled(ticket).with_state(ticket, KeyState::Deleting);
        let others = other_keys(self.records, self.deleting, self.records[ticket].key@);
        ModelState { deleting: others.push(ticket), ..state }
    }

    /// With a sampled key deleted.
    pub open spec fn retired(self, ticket: u64) -> ModelState {
        let state = self.unsampled(ticket).with_state(ticket, KeyState::Deleted);
        ModelState { deleted: state.deleted.push(ticket), ..state }
    }

    /// With several sampled keys deleted, one after the other.
    pub open spec fn all_retired(self, tickets: Seq<u64>) -> ModelState
        decreases tickets.len(),
    {
        if tickets.len() == 0 {
            self
        } else {
            self.all_retired(tickets.drop_last()).retired(tickets.last())
        }
    }

    /// With as many deleted keys as are kept; the oldest are forgotten.
    pub open spec fn trimmed(self) -> ModelState
        decreases self.deleted.len(),
    {
        if self.deleted.len() == 0 || self.deleted.len() <= self.capacity {
            self
        } else {
            ModelState {
                records: self.records.remove(self.deleted[0]),
                deleted: self.deleted.skip(1),
                ..self
            }.trimmed()
        }
    }

    /// With a claimed key deleted.
    pub open spec fn finished(self, ticket: u64) -> ModelState {
        let state = self.with_state(ticket, KeyState::Deleted);
        ModelState {
            deleting: other_keys(self.records, self.deleting, self.records[ticket].key@),
            deleted: state.deleted.push(ticket),
            ..state
        }.trimmed()
    }

    /// With those of some keys counted that are due.
    pub open spec fn refreshed(
        self,
        tickets: Seq<u64>,
        now: u128,
        current_epoch: Option<Epoch>,
    ) -> ModelState
        decreases tickets.len(),
    {
        if tickets.len() == 0 {
            self
        } else {
            let before = self.refreshed(tickets.drop_last(), now, current_epoch);
            if self.records[tickets.last()].spec_is_due(now, current_epoch) {
                before.marked_due(tickets.last())
            } else {
                before
            }
        }
    }

    /// The keys that a look at the backlog goes through.
    pub open spec fn backlog_tickets(self, now: u128) -> Seq<u64> {
        self.live.take(past_prefix(self.records, self.live, now)) + self.deleting
    }

    /// The key that a draw picks from some.
    pub open spec fn picked(tickets: Seq<u64>, draw: u64) -> u64 {
        tickets[(draw as usize) as int % tickets.len() as int]
    }

    /// What a read looks for: a key of the preferred kind where there is one, else of the other.
    pub open spec fn read_target(self, prefer_deleted: bool, draw: u64) -> Option<
        (u64, ReadExpectation),
    > {
        let deleted_first = self.deleted.len() > 0 && (prefer_deleted || self.live_sample.len()
            == 0);
        if deleted_first {
            Some((ModelState::picked(self.deleted, draw), ReadExpectation::Deleted))
        } else if self.live_sample.len() > 0 {
            Some((ModelState::picked(self.live_sample, draw), ReadExpectation::Live))
        } else {
            None
        }
    }
}

// What each step keeps.

proof fn lemma_live_place(records: Map<u64, KeyRecord>, live: Seq<u64>, record: KeyRecord)
    requires
        forall|i: int, j: int|
            0 <= i < j < live.len() ==> !records[#[trigger] live[j]].before(
                records[#[trigger] live[i]],
            ),
    ensures
        0 <= live_place(records, live, record) <= live.len(),
        forall|i: int|
            0 <= i < live_place(records, live, record) ==> !record.before(
                records[#[trigger] live[i]],
            ),
        forall|i: int|
            live_place(records, live, record) <= i < live.len() ==> record.before(
                records[#[trigger] live[i]],
            ),
    decreases live.len(),
{
    if live.len() > 0 {
        let init = live.drop_last();
        let last = records[live.last()];
        assert forall|i: int, j: int| 0 <= i < j < init.len() implies !records[
        #[trigger] init[j]].before(records[#[trigger] init[i]]) by {
            assert(init[j] == live[j] && init[i] == live[i]);
        }
        if record.before(last) {
            lemma_live_place(records, init, record);
            assert forall|i: int| 0 <= i < live_place(records, live, record) implies !record.before(
                records[#[trigger] live[i]],
            ) by {
                assert(init[i] == live[i]);
            }
            assert forall|i: int|
                live_place(records, live, record) <= i < live.len() implies record.before(
                records[#[trigger] live[i]],
            ) by {
                if i < init.len() {
                    assert(init[i] == live[i]);
                }
            }
        } else {
            assert forall|i: int| 0 <= i < live.len() implies !record.before(
                records[#[trigger] live[i]],
            ) by {
                if i < live.len() - 1 {
                    assert(!records[live[live.len() - 1]].before(records[live[i]]));
                    lemma_order(records[live[i]], last, record);
                }
            }
        }
    }
}

proof fn lemma_order(a: KeyRecord, b: KeyRecord, c: KeyRecord)
    ensures
        !b.before(a) && !c.before(b) ==> !c.before(a),
        a.before(b) ==> !b.before(a),
        a.alike(b) <==> !a.before(b) && !b.before(a),
{
    keys::lemma_key_order(a.key@, b.key@, c.key@);
}

proof fn lemma_other_keys(records: Map<u64, KeyRecord>, tickets: Seq<u64>, key: Seq<u8>)
    ensures
        forall|i: int|
            0 <= i < other_keys(records, tickets, key).len() ==> tickets.contains(
                #[trigger] other_keys(records, tickets, key)[i],
            ) && records[other_keys(records, tickets, key)[i]].key@ != key,
        (forall|i: int, j: int|
            0 <= i < j < tickets.len() ==> records[#[trigger] tickets[i]].key@
                != records[#[trigger] tickets[j]].key@) ==> forall|i: int, j: int|
            0 <= i < j < other_keys(records, tickets, key).len() ==> records[
            #[trigger] other_keys(records, tickets, key)[i]].key@ != records[
            #[trigger] other_keys(records, tickets, key)[j]].key@,
    decreases tickets.len(),
{
    if tickets.len() > 0 {
        let init = tickets.drop_last();
        let last = tickets.last();
        lemma_other_keys(records, init, key);
        let before = other_keys(records, init, key);
        let others = other_keys(records, tickets, key);
        assert forall|i: int| 0 <= i < others.len() implies tickets.contains(#[trigger] others[i])
            && records[others[i]].key@ != key by {
            if i < before.len() {
                assert(before[i] == others[i]);
                let k = init.index_of(before[i]);
                assert(tickets[k] == others[i]);
            } else {
                assert(tickets[tickets.len() - 1] == others[i]);
            }
        }
        if forall|i: int, j: int|
            0 <= i < j < tickets.len() ==> records[#[trigger] tickets[i]].key@
                != records[#[trigger] tickets[j]].key@ {
            assert forall|i: int, j: int| 0 <= i < j < init.len() implies records[
            #[trigger] init[i]].key@ != records[#[trigger] init[j]].key@ by {
                assert(init[i] == tickets[i] && init[j] == tickets[j]);
            }
            assert forall|i: int, j: int| 0 <= i < j < others.len() implies records[
            #[trigger] others[i]].key@ != records[#[trigger] others[j]].key@ by {
                assert(before[i] == others[i]);
                if j < before.len() {
                    assert(before[j] == others[j]);
                } else {
                    let k = init.index_of(before[i]);
                    assert(tickets[k] == others[i]);
                    assert(tickets[tickets.len() - 1] == others[j]);
                }
            }
        }
    }
}

/// Only the keys of records decide which tickets are of other keys.
proof fn lemma_other_keys_again(
    records: Map<u64, KeyRecord>,
    changed: Map<u64, KeyRecord>,
    tickets: Seq<u64>,
    key: Seq<u8>,
)
    requires
        forall|i: int|
            0 <= i < tickets.len() ==> changed[#[trigger] tickets[i]].key@
                == records[tickets[i]].key@,
    ensures
        other_keys(changed, tickets, key) == other_keys(records, tickets, key),
    decreases tickets.len(),
{
    if tickets.len() > 0 {
        let init = tickets.drop_last();
        assert forall|i: int| 0 <= i < init.len() implies changed[#[trigger] init[i]].key@
            == records[init[i]].key@ by {
            assert(init[i] == tickets[i]);
        }
        lemma_other_keys_again(records, changed, init, key);
        assert(tickets[tickets.len() - 1] == tickets.last());
    }
}

proof fn lemma_pushed(state: ModelState, record: KeyRecord)
    requires
        state.consistent(),
        record.state == KeyState::Live,
        state.next_ticket < u64::MAX,
        state.live_sample.len() < usize::MAX,
    ensures
        state.pushed(record).consistent(),
{
    let after = state.pushed(record);
    let ticket = state.next_ticket;
    let entry = after.records[ticket];
    let at = live_place(state.records, state.live, record);
    lemma_live_place(state.records, state.live, record);
    assert(!state.records.contains_key(ticket));
    assert(after.live_sample[state.live_sample.len() as int] == ticket);
    assert forall|i: int| 0 <= i < after.live_sample.len() implies after.records.contains_key(
        #[trigger] after.live_sample[i],
    ) && after.records[after.live_sample[i]].sample_index == i by {
        if i < state.live_sample.len() {
            assert(after.live_sample[i] == state.live_sample[i]);
        }
    }
    assert forall|other: u64| state.sampled(other) implies after.sampled(other) by {
        let index = state.records[other].sample_index as int;
        assert(after.live_sample[index] == state.live_sample[index]);
    }
    assert forall|i: int| 0 <= i < after.live.len() implies after.sampled(
        #[trigger] after.live[i],
    ) && after.records[after.live[i]].state == KeyState::Live by {
        if state.has_alike(record) || i < at {
            assert(after.live[i] == state.live[i]);
            assert(state.sampled(state.live[i]));
        } else if i > at {
            assert(after.live[i] == state.live[i - 1]);
            assert(state.sampled(state.live[i - 1]));
        }
    }
    assert forall|i: int, j: int| 0 <= i < j < after.live.len() implies #[trigger] after.live[i]
        != #[trigger] after.live[j] && !after.records[after.live[j]].before(
        after.records[after.live[i]],
    ) by {
        let i0 = if state.has_alike(record) || i < at {
            i
        } else {
            i - 1
        };
        let j0 = if state.has_alike(record) || j < at {
            j
        } else {
            j - 1
        };
        if state.has_alike(record) || (i != at && j != at) {
            assert(state.sampled(state.live[i0]) && state.sampled(state.live[j0]));
            assert(state.live[i0] != state.live[j0]);
            assert(!state.records[state.live[j0]].before(state.records[state.live[i0]]));
        } else if i == at {
            assert(record.before(state.records[state.live[j0]]));
            lemma_order(record, state.records[state.live[j0]], record);
        } else {
            assert(!record.before(state.records[state.live[i0]]));
        }
    }
    assert forall|i: int| 0 <= i < after.deleting.len() implies after.parked(
        #[trigger] after.deleting[i],
        KeyState::Deleting,
    ) by {
        assert(state.parked(state.deleting[i], KeyState::Deleting));
    }
    assert forall|i: int, j: int| 0 <= i < j < after.deleting.len() implies after.records[
    #[trigger] after.deleting[i]].key@ != after.records[#[trigger] after.deleting[j]].key@ by {
        assert(state.parked(state.deleting[i], KeyState::Deleting));
        assert(state.parked(state.deleting[j], KeyState::Deleting));
        assert(state.records[state.deleting[i]].key@ != state.records[state.deleting[j]].key@);
    }
    assert forall|i: int| 0 <= i < after.deleted.len() implies after.parked(
        #[trigger] after.deleted[i],
        KeyState::Deleted,
    ) by {
        assert(state.parked(state.deleted[i], KeyState::Deleted));
    }
    assert forall|other: u64| #[trigger] after.records.contains_key(other) implies other
        < after.next_ticket && (after.sampled(other) || after.parked(other, KeyState::Deleting)
        || after.deleted.contains(other)) by {
        if other != ticket {
            assert(state.records.contains_key(other));
        }
    }
}

/// A live key like a record stands right before the record's place.
proof fn lemma_alike_is_last(state: ModelState, record: KeyRecord)
    requires
        state.consistent(),
    ensures
        ({
            let at = live_place(state.records, state.live, record);
            state.has_alike(record) <==> at > 0 && state.records[state.live[at - 1]].alike(record)
        }),
{
    let at = live_place(state.records, state.live, record);
    lemma_live_place(state.records, state.live, record);
    if state.has_alike(record) {
        let i = choose|i: int|
            0 <= i < state.live.len() && state.records[#[trigger] state.live[i]].alike(record);
        let one = state.records[state.live[i]];
        lemma_order(one, record, record);
        assert(!record.before(one));
        assert(i < at);
        let last = state.records[state.live[at - 1]];
        assert(!record.before(last));
        if i < at - 1 {
            assert(!last.before(one));
            lemma_order(last, record, last);
        }
    }
}

/// A key leaves the sample; it must then be put somewhere.
proof fn lemma_unsampled(state: ModelState, ticket: u64)
    requires
        state.detached(ticket),
    ensures
        ({
            let after = state.unsampled(ticket);
            &&& after.live_sample.len() + 1 == state.live_sample.len()
            &&& forall|i: int|
                0 <= i < after.live_sample.len() ==> after.records.contains_key(
                    #[trigger] after.live_sample[i],
                ) && after.records[after.live_sample[i]].sample_index == i
                    && after.live_sample[i] != ticket
            &&& forall|other: u64| #[trigger]
                state.records.contains_key(other) <==> after.records.contains_key(other)
            &&& forall|other: u64| #[trigger]
                after.records.contains_key(other) ==> after.records[other] == (KeyRecord {
                    sample_index: after.records[other].sample_index,
                    ..state.records[other]
                })
            &&& forall|other: u64|
                other != ticket && state.sampled(other) ==> #[trigger] after.sampled(other)
            &&& forall|other: u64, s: KeyState|
                state.parked(other, s) ==> #[trigger] after.parked(other, s)
            &&& after.parked(ticket, state.records[ticket].state)
        }),
{
    let after = state.unsampled(ticket);
    let at = state.records[ticket].sample_index as int;
    let last = state.live_sample.last();
    let end = state.live_sample.len() - 1;
    assert(state.records[state.live_sample[end]].sample_index == end);
    assert(at < end ==> last != ticket);
    assert forall|i: int| 0 <= i < after.live_sample.len() implies after.records.contains_key(
        #[trigger] after.live_sample[i],
    ) && after.records[after.live_sample[i]].sample_index == i && after.live_sample[i]
        != ticket by {
        if i == at {
            assert(after.live_sample[i] == last);
        } else {
            assert(after.live_sample[i] == state.live_sample[i]);
            assert(state.records[state.live_sample[i]].sample_index == i);
        }
    }
    assert forall|other: u64| other != ticket && state.sampled(other) implies #[trigger]
        after.sampled(other) by {
        let index = state.records[other].sample_index as int;
        if index == end {
            assert(other == last);
            if at < end {
                assert(after.live_sample[at] == last);
            } else {
                assert(ticket == last);
            }
        } else {
            assert(index != at);
            assert(after.live_sample[index] == state.live_sample[index]);
            assert(other != last);
        }
    }
    assert forall|other: u64, s: KeyState| state.parked(other, s) implies #[trigger] after.parked(
        other,
        s,
    ) by {
        assert(other != ticket);
        assert(other != last);
    }
}

proof fn lemma_retired(state: ModelState, ticket: u64)
    requires
        state.detached(ticket),
    ensures
        state.retired(ticket).consistent(),
        forall|other: u64|
            other != ticket && state.detached(other) ==> #[trigger] state.retired(
                ticket,
            ).detached(other),
        state.retired(ticket).live == state.live,
        state.retired(ticket).deleted == state.deleted.push(ticket),
        state.retired(ticket).capacity == state.capacity,
{
    lemma_unsampled(state, ticket);
    let mid = state.unsampled(ticket);
    let after = state.retired(ticket);
    lemma_moved(state, mid, after, ticket, KeyState::Deleted);
    assert forall|other: u64| other != ticket && state.detached(other) implies
        #[trigger] after.detached(other) by {
        assert(mid.sampled(other));
        assert(after.sampled(other));
    }
}

/// A key that left the sample of `state` is put among the deleting or the deleted keys.
proof fn lemma_moved(
    state: ModelState,
    mid: ModelState,
    after: ModelState,
    ticket: u64,
    end: KeyState,
)
    requires
        state.detached(ticket),
        mid == state.unsampled(ticket),
        after == (ModelState {
            deleting: if end == KeyState::Deleting {
                other_keys(state.records, state.deleting, state.records[ticket].key@).push(ticket)
            } else {
                state.deleting
            },
            deleted: if end == KeyState::Deleted {
                state.deleted.push(ticket)
            } else {
                state.deleted
            },
            ..mid.with_state(ticket, end)
        }),
        end == KeyState::Deleting || end == KeyState::Deleted,
    ensures
        after.consistent(),
{
    lemma_unsampled(state, ticket);
    let kept = if end == KeyState::Deleting {
        other_keys(state.records, state.deleting, state.records[ticket].key@)
    } else {
        state.deleting
    };
    lemma_other_keys(state.records, state.deleting, state.records[ticket].key@);
    assert forall|other: u64| other != ticket && state.sampled(other) implies #[trigger]
        after.sampled(other) by {
        assert(mid.sampled(other));
    }
    assert forall|other: u64, s: KeyState| state.parked(other, s) implies #[trigger] after.parked(
        other,
        s,
    ) by {
        assert(mid.parked(other, s));
        assert(other != ticket);
    }
    assert(after.parked(ticket, end));
    assert forall|i: int| 0 <= i < after.live_sample.len() implies after.records.contains_key(
        #[trigger] after.live_sample[i],
    ) && after.records[after.live_sample[i]].sample_index == i by {
        assert(mid.live_sample[i] == after.live_sample[i]);
    }
    assert forall|i: int| 0 <= i < after.live.len() implies after.sampled(
        #[trigger] after.live[i],
    ) && after.records[after.live[i]].state == KeyState::Live by {
        assert(state.sampled(state.live[i]));
        assert(state.live.contains(state.live[i]));
        assert(after.sampled(state.live[i]));
        assert(mid.records.contains_key(state.live[i]));
    }
    assert forall|i: int, j: int| 0 <= i < j < after.live.len() implies !after.records[
    #[trigger] after.live[j]].before(after.records[#[trigger] after.live[i]]) by {
        assert(state.live.contains(state.live[i]) && state.live.contains(state.live[j]));
        assert(!state.records[state.live[j]].before(state.records[state.live[i]]));
        assert(state.sampled(state.live[i]) && state.sampled(state.live[j]));
        assert(mid.records.contains_key(state.live[i]) && mid.records.contains_key(state.live[j]));
    }
    assert forall|i: int| 0 <= i < after.deleting.len() implies after.parked(
        #[trigger] after.deleting[i],
        KeyState::Deleting,
    ) by {
        if i < kept.len() {
            assert(after.deleting[i] == kept[i]);
            let k = state.deleting.index_of(kept[i]);
            assert(state.parked(state.deleting[k], KeyState::Deleting));
        }
    }
    assert forall|i: int, j: int| 0 <= i < j < after.deleting.len() implies after.records[
    #[trigger] after.deleting[i]].key@ != after.records[#[trigger] after.deleting[j]].key@ by {
        assert(after.deleting[i] == kept[i]);
        let k = state.deleting.index_of(kept[i]);
        assert(state.parked(state.deleting[k], KeyState::Deleting));
        assert(mid.records.contains_key(kept[i]));
        if j < kept.len() {
            assert(after.deleting[j] == kept[j]);
            let l = state.deleting.index_of(kept[j]);
            assert(state.parked(state.deleting[l], KeyState::Deleting));
            assert(mid.records.contains_key(kept[j]));
        } else {
            assert(after.deleting[j] == ticket);
            assert(mid.records.contains_key(ticket));
        }
    }
    assert forall|i: int| 0 <= i < after.deleted.len() implies after.parked(
        #[trigger] after.deleted[i],
        KeyState::Deleted,
    ) by {
        if i < state.deleted.len() {
            assert(after.deleted[i] == state.deleted[i]);
            assert(state.parked(state.deleted[i], KeyState::Deleted));
        }
    }
    assert forall|i: int, j: int| 0 <= i < j < after.deleted.len() implies #[trigger]
        after.deleted[i] != #[trigger] after.deleted[j] by {
        assert(state.parked(state.deleted[i], KeyState::Deleted));
    }
    assert forall|other: u64| #[trigger] after.records.contains_key(other) implies other
        < after.next_ticket && (after.sampled(other) || after.parked(other, KeyState::Deleting)
        || after.deleted.contains(other)) by {
        if other == ticket {
            if end == KeyState::Deleted {
                assert(after.deleted[state.deleted.len() as int] == ticket);
            }
        } else {
            assert(mid.records.contains_key(other));
            assert(state.records.contains_key(other));
            if state.sampled(other) {
                assert(after.sampled(other));
            } else if state.parked(other, KeyState::Deleting) {
                assert(after.parked(other, KeyState::Deleting));
            } else {
                let i = state.deleted.index_of(other);
                assert(after.deleted[i] == other);
            }
        }
    }
}

proof fn lemma_marked_due(state: ModelState, ticket: u64)
    requires
        state.consistent(),
        state.records.contains_key(ticket),
    ensures
        state.marked_due(ticket).consistent(),
        forall|other: u64|
            state.sampled(other) == #[trigger] state.marked_due(ticket).sampled(other),
{
    let after = state.marked_due(ticket);
    assert forall|other: u64| state.sampled(other) == #[trigger] after.sampled(other) by {}
    assert forall|other: u64, s: KeyState| state.parked(other, s) == #[trigger] after.parked(
        other,
        s,
    ) by {}
    assert forall|i: int| 0 <= i < after.live_sample.len() implies after.records.contains_key(
        #[trigger] after.live_sample[i],
    ) && after.records[after.live_sample[i]].sample_index == i by {
        assert(state.live_sample[i] == after.live_sample[i]);
    }
    assert forall|i: int| 0 <= i < after.live.len() implies after.sampled(
        #[trigger] after.live[i],
    ) && after.records[after.live[i]].state == KeyState::Live by {
        assert(state.sampled(state.live[i]));
    }
    assert forall|i: int, j: int| 0 <= i < j < after.live.len() implies !after.records[
    #[trigger] after.live[j]].before(after.records[#[trigger] after.live[i]]) by {
        assert(!state.records[state.live[j]].before(state.records[state.live[i]]));
    }
    assert forall|i: int| 0 <= i < after.deleting.len() implies after.parked(
        #[trigger] after.deleting[i],
        KeyState::Deleting,
    ) by {
        assert(state.parked(state.deleting[i], KeyState::Deleting));
    }
    assert forall|i: int, j: int| 0 <= i < j < after.deleting.len() implies after.records[
    #[trigger] after.deleting[i]].key@ != after.records[#[trigger] after.deleting[j]].key@ by {
        assert(state.parked(state.deleting[i], KeyState::Deleting));
        assert(state.parked(state.deleting[j], KeyState::Deleting));
        assert(state.records[state.deleting[i]].key@ != state.records[state.deleting[j]].key@);
    }
    assert forall|i: int| 0 <= i < after.deleted.len() implies after.parked(
        #[trigger] after.deleted[i],
        KeyState::Deleted,
    ) by {
        assert(state.parked(state.deleted[i], KeyState::Deleted));
    }
    assert forall|other: u64| #[trigger] after.records.contains_key(other) implies other
        < after.next_ticket && (after.sampled(other) || after.parked(other, KeyState::Deleting)
        || after.deleted.contains(other)) by {
        assert(state.records.contains_key(other));
    }
}

/// Keys at the front can be taken out of the order: they stay in the sample.
proof fn lemma_front_taken(state: ModelState, count: int)
    requires
        state.consistent(),
        0 <= count <= state.live.len(),
    ensures
        ({
            let after = ModelState { live: state.live.skip(count), ..state };
            &&& after.consistent()
            &&& forall|i: int| 0 <= i < count ==> after.detached(#[trigger] state.live[i])
        }),
{
    let after = ModelState { live: state.live.skip(count), ..state };
    assert forall|other: u64| state.sampled(other) == #[trigger] after.sampled(other) by {}
    assert forall|other: u64, s: KeyState| state.parked(other, s) == #[trigger] after.parked(
        other,
        s,
    ) by {}
    assert forall|i: int| 0 <= i < after.live.len() implies after.sampled(
        #[trigger] after.live[i],
    ) && after.records[after.live[i]].state == KeyState::Live by {
        assert(state.sampled(state.live[i + count]));
    }
    assert forall|i: int, j: int| 0 <= i < j < after.live.len() implies #[trigger] after.live[i]
        != #[trigger] after.live[j] && !after.records[after.live[j]].before(
        after.records[after.live[i]],
    ) by {
        assert(state.live[i + count] != state.live[j + count]);
    }
    assert forall|i: int| 0 <= i < after.deleting.len() implies after.parked(
        #[trigger] after.deleting[i],
        KeyState::Deleting,
    ) by {
        assert(state.parked(state.deleting[i], KeyState::Deleting));
    }
    assert forall|i: int, j: int| 0 <= i < j < after.deleting.len() implies after.records[
    #[trigger] after.deleting[i]].key@ != after.records[#[trigger] after.deleting[j]].key@ by {
        assert(state.parked(state.deleting[i], KeyState::Deleting));
        assert(state.parked(state.deleting[j], KeyState::Deleting));
        assert(state.records[state.deleting[i]].key@ != state.records[state.deleting[j]].key@);
    }
    assert forall|i: int| 0 <= i < after.deleted.len() implies after.parked(
        #[trigger] after.deleted[i],
        KeyState::Deleted,
    ) by {
        assert(state.parked(state.deleted[i], KeyState::Deleted));
    }
    assert forall|other: u64| #[trigger] after.records.contains_key(other) implies other
        < after.next_ticket && (after.sampled(other) || after.parked(other, KeyState::Deleting)
        || after.deleted.contains(other)) by {
        assert(state.records.contains_key(other));
    }
    assert(after.consistent());
    assert forall|i: int| 0 <= i < count implies after.detached(#[trigger] state.live[i]) by {
        assert(state.sampled(state.live[i]));
        if after.live.contains(state.live[i]) {
            let j = after.live.index_of(state.live[i]);
            assert(state.live[j + count] == state.live[i]);
        }
    }
}

proof fn lemma_claimed(state: ModelState)
    requires
        state.consistent(),
        state.live.len() > 0,
    ensures
        state.claimed().consistent(),
        state.claimed().deleted == state.deleted,
        state.claimed().capacity == state.capacity,
{
    let ticket = state.live[0];
    assert(state.sampled(ticket));
    lemma_marked_due(state, ticket);
    let marked = state.marked_due(ticket);
    lemma_front_taken(marked, 1);
    let popped = ModelState { live: marked.live.skip(1), ..marked };
    assert(popped.detached(marked.live[0]));
    lemma_other_keys_again(
        state.records,
        popped.records,
        state.deleting,
        state.records[ticket].key@,
    );
    lemma_moved(popped, popped.unsampled(ticket), state.claimed(), ticket, KeyState::Deleting);
}

proof fn lemma_trimmed(state: ModelState)
    requires
        state.consistent(),
        state.capacity >= 0,
    ensures
        state.trimmed().wf(),
        state.trimmed().live == state.live,
        state.trimmed().live_sample == state.live_sample,
        state.trimmed().deleting == state.deleting,
        state.trimmed().capacity == state.capacity,
    decreases state.deleted.len(),
{
    if state.deleted.len() > state.capacity {
        let gone = state.deleted[0];
        let after = ModelState {
            records: state.records.remove(gone),
            deleted: state.deleted.skip(1),
            ..state
        };
        assert(state.parked(gone, KeyState::Deleted));
        assert forall|other: u64| state.sampled(other) implies #[trigger] after.sampled(other) by {
            assert(other != gone);
        }
        assert forall|other: u64, s: KeyState|
            state.parked(other, s) && other != gone implies #[trigger] after.parked(other, s) by {}
        assert forall|i: int| 0 <= i < after.live_sample.len() implies after.records.contains_key(
            #[trigger] after.live_sample[i],
        ) && after.records[after.live_sample[i]].sample_index == i by {
            assert(state.records[state.live_sample[i]].sample_index == i);
        }
        assert forall|i: int| 0 <= i < after.live.len() implies after.sampled(
            #[trigger] after.live[i],
        ) && after.records[after.live[i]].state == KeyState::Live by {
            assert(state.sampled(state.live[i]));
        }
        assert forall|i: int, j: int| 0 <= i < j < after.live.len() implies !after.records[
        #[trigger] after.live[j]].before(after.records[#[trigger] after.live[i]]) by {
            assert(state.sampled(state.live[i]) && state.sampled(state.live[j]));
            assert(!state.records[state.live[j]].before(state.records[state.live[i]]));
        }
        assert forall|i: int| 0 <= i < after.deleting.len() implies after.parked(
            #[trigger] after.deleting[i],
            KeyState::Deleting,
        ) by {
            assert(state.parked(state.deleting[i], KeyState::Deleting));
        }
        assert forall|i: int, j: int| 0 <= i < j < after.deleting.len() implies after.records[
        #[trigger] after.deleting[i]].key@ != after.records[#[trigger] after.deleting[j]].key@ by {
            assert(state.parked(state.deleting[i], KeyState::Deleting));
            assert(state.parked(state.deleting[j], KeyState::Deleting));
            assert(state.records[state.deleting[i]].key@ != state.records[state.deleting[j]].key@);
        }
        assert forall|i: int| 0 <= i < after.deleted.len() implies after.parked(
            #[trigger] after.deleted[i],
            KeyState::Deleted,
        ) by {
            assert(state.parked(state.deleted[i + 1], KeyState::Deleted));
            assert(state.deleted[0] != state.deleted[i + 1]);
        }
        assert forall|i: int, j: int| 0 <= i < j < after.deleted.len() implies #[trigger]
            after.deleted[i] != #[trigger] after.deleted[j] by {
            assert(state.deleted[i + 1] != state.deleted[j + 1]);
        }
        assert forall|other: u64| #[trigger] after.records.contains_key(other) implies other
            < after.next_ticket && (after.sampled(other) || after.parked(other, KeyState::Deleting)
            || after.deleted.contains(other)) by {
            assert(state.records.contains_key(other));
            if state.deleted.contains(other) {
                let i = state.deleted.index_of(other);
                assert(after.deleted[i - 1] == other);
            }
        }
        lemma_trimmed(after);
    }
}

proof fn lemma_finished(state: ModelState, ticket: u64)
    requires
        state.consistent(),
        state.parked(ticket, KeyState::Deleting),
    ensures
        (ModelState {
            deleting: other_keys(state.records, state.deleting, state.records[ticket].key@),
            deleted: state.deleted.push(ticket),
            ..state.with_state(ticket, KeyState::Deleted)
        }).consistent(),
{
    let kept = other_keys(state.records, state.deleting, state.records[ticket].key@);
    let after = ModelState {
        deleting: kept,
        deleted: state.deleted.push(ticket),
        ..state.with_state(ticket, KeyState::Deleted)
    };
    lemma_other_keys(state.records, state.deleting, state.records[ticket].key@);
    assert forall|other: u64| state.sampled(other) implies #[trigger] after.sampled(other) by {
        assert(other != ticket);
    }
    assert forall|other: u64, s: KeyState|
        state.parked(other, s) && other != ticket implies #[trigger] after.parked(other, s) by {}
    assert forall|i: int| 0 <= i < after.live_sample.len() implies after.records.contains_key(
        #[trigger] after.live_sample[i],
    ) && after.records[after.live_sample[i]].sample_index == i by {
        assert(state.records[state.live_sample[i]].sample_index == i);
    }
    assert forall|i: int| 0 <= i < after.live.len() implies after.sampled(
        #[trigger] after.live[i],
    ) && after.records[after.live[i]].state == KeyState::Live by {
        assert(state.sampled(state.live[i]));
    }
    assert forall|i: int, j: int| 0 <= i < j < after.live.len() implies !after.records[
    #[trigger] after.live[j]].before(after.records[#[trigger] after.live[i]]) by {
        assert(!state.records[state.live[j]].before(state.records[state.live[i]]));
    }
    assert forall|i: int| 0 <= i < after.deleting.len() implies after.parked(
        #[trigger] after.deleting[i],
        KeyState::Deleting,
    ) && after.records[after.deleting[i]].key@ == state.records[kept[i]].key@ by {
        assert(after.deleting[i] == kept[i]);
        let k = state.deleting.index_of(kept[i]);
        assert(state.parked(state.deleting[k], KeyState::Deleting));
    }
    assert forall|i: int, j: int| 0 <= i < j < after.deleting.len() implies after.records[
    #[trigger] after.deleting[i]].key@ != after.records[#[trigger] after.deleting[j]].key@ by {
        assert(after.deleting[i] == kept[i] && after.deleting[j] == kept[j]);
    }
    assert forall|i: int| 0 <= i < after.deleted.len() implies after.parked(
        #[trigger] after.deleted[i],
        KeyState::Deleted,
    ) by {
        if i < state.deleted.len() {
            assert(after.deleted[i] == state.deleted[i]);
            assert(state.parked(state.deleted[i], KeyState::Deleted));
        }
    }
    assert forall|i: int, j: int| 0 <= i < j < after.deleted.len() implies #[trigger]
        after.deleted[i] != #[trigger] after.deleted[j] by {
        assert(state.parked(state.deleted[i], KeyState::Deleted));
    }
    assert forall|other: u64| #[trigger] after.records.contains_key(other) implies other
        < after.next_ticket && (after.sampled(other) || after.parked(other, KeyState::Deleting)
        || after.deleted.contains(other)) by {
        assert(state.records.contains_key(other));
        if other == ticket {
            assert(after.deleted[state.deleted.len() as int] == ticket);
        } else if state.sampled(other) {
            assert(after.sampled(other));
        } else if state.parked(other, KeyState::Deleting) {
            assert(after.parked(other, KeyState::Deleting));
        } else {
            let i = state.deleted.index_of(other);
            assert(after.deleted[i] == other);
        }
    }
}

proof fn lemma_all_retired(state: ModelState, tickets: Seq<u64>)
    requires
        state.consistent(),
        forall|i: int| 0 <= i < tickets.len() ==> state.detached(#[trigger] tickets[i]),
        forall|i: int, j: int|
            0 <= i < j < tickets.len() ==> #[trigger] tickets[i] != #[trigger] tickets[j],
    ensures
        state.all_retired(tickets).consistent(),
        state.all_retired(tickets).capacity == state.capacity,
        forall|other: u64|
            !tickets.contains(other) && state.detached(other) ==> #[trigger] state.all_retired(
                tickets,
            ).detached(other),
    decreases tickets.len(),
{
    if tickets.len() > 0 {
        let init = tickets.drop_last();
        let last = tickets.last();
        assert forall|i: int| 0 <= i < init.len() implies state.detached(#[trigger] init[i]) by {
            assert(init[i] == tickets[i]);
        }
        assert forall|i: int, j: int| 0 <= i < j < init.len() implies #[trigger] init[i]
            != #[trigger] init[j] by {
            assert(init[i] == tickets[i] && init[j] == tickets[j]);
        }
        lemma_all_retired(state, init);
        let before = state.all_retired(init);
        assert(state.detached(tickets[tickets.len() - 1]));
        assert(!init.contains(last)) by {
            if init.contains(last) {
                let i = init.index_of(last);
                assert(tickets[i] != tickets[tickets.len() - 1]);
            }
        }
        assert(before.detached(last));
        lemma_retired(before, last);
        assert forall|other: u64| !tickets.contains(other) && state.detached(other) implies
            #[trigger] state.all_retired(tickets).detached(other) by {
            assert(!init.contains(other)) by {
                if init.contains(other) {
                    let i = init.index_of(other);
                    assert(tickets[i] == other);
                }
            }
            assert(other != last) by {
                assert(tickets[tickets.len() - 1] == last);
            }
            assert(before.detached(other));
        }
    }
}

proof fn lemma_refreshed(
    state: ModelState,
    tickets: Seq<u64>,
    now: u128,
    current_epoch: Option<Epoch>,
)
    requires
        state.consistent(),
        forall|i: int|
            0 <= i < tickets.len() ==> state.records.contains_key(#[trigger] tickets[i]),
    ensures
        ({
            let after = state.refreshed(tickets, now, current_epoch);
            &&& after.consistent()
            &&& after.live == state.live
            &&& after.live_sample == state.live_sample
            &&& after.deleting == state.deleting
            &&& after.deleted == state.deleted
            &&& after.capacity == state.capacity
            &&& after.next_ticket == state.next_ticket
            &&& forall|ticket: u64|
                state.records.contains_key(ticket) <==> #[trigger] after.records.contains_key(
                    ticket,
                )
            &&& forall|ticket: u64| #[trigger]
                after.records.contains_key(ticket) ==> after.records[ticket] == (KeyRecord {
                    due_counted: after.records[ticket].due_counted,
                    ..state.records[ticket]
                })
        }),
    decreases tickets.len(),
{
    if tickets.len() > 0 {
        let init = tickets.drop_last();
        assert forall|i: int| 0 <= i < init.len() implies state.records.contains_key(
            #[trigger] init[i],
        ) by {
            assert(init[i] == tickets[i]);
        }
        lemma_refreshed(state, init, now, current_epoch);
        let before = state.refreshed(init, now, current_epoch);
        let last = tickets.last();
        assert(state.records.contains_key(tickets[tickets.len() - 1]));
        assert(before.records.contains_key(last));
        lemma_marked_due(before, last);
    }
}

proof fn lemma_marked_deleting(state: ModelState, ticket: u64)
    requires
        state.detached(ticket),
    ensures
        state.with_state(ticket, KeyState::Deleting).consistent(),
        forall|other: u64|
            state.detached(other) ==> #[trigger] state.with_state(
                ticket,
                KeyState::Deleting,
            ).detached(other),
{
    let after = state.with_state(ticket, KeyState::Deleting);
    assert forall|other: u64| state.sampled(other) == #[trigger] after.sampled(other) by {}
    assert forall|other: u64, s: KeyState| state.parked(other, s) implies #[trigger] after.parked(
        other,
        s,
    ) by {
        assert(other != ticket);
    }
    assert forall|i: int| 0 <= i < after.live_sample.len() implies after.records.contains_key(
        #[trigger] after.live_sample[i],
    ) && after.records[after.live_sample[i]].sample_index == i by {
        assert(state.records[state.live_sample[i]].sample_index == i);
    }
    assert forall|i: int| 0 <= i < after.live.len() implies after.sampled(
        #[trigger] after.live[i],
    ) && after.records[after.live[i]].state == KeyState::Live by {
        assert(state.sampled(state.live[i]));
        assert(state.live.contains(state.live[i]));
    }
    assert forall|i: int, j: int| 0 <= i < j < after.live.len() implies !after.records[
    #[trigger] after.live[j]].before(after.records[#[trigger] after.live[i]]) by {
        assert(!state.records[state.live[j]].before(state.records[state.live[i]]));
    }
    assert forall|i: int| 0 <= i < after.deleting.len() implies after.parked(
        #[trigger] after.deleting[i],
        KeyState::Deleting,
    ) by {
        assert(state.parked(state.deleting[i], KeyState::Deleting));
    }
    assert forall|i: int, j: int| 0 <= i < j < after.deleting.len() implies after.records[
    #[trigger] after.deleting[i]].key@ != after.records[#[trigger] after.deleting[j]].key@ by {
        assert(state.parked(state.deleting[i], KeyState::Deleting));
        assert(state.parked(state.deleting[j], KeyState::Deleting));
        assert(state.records[state.deleting[i]].key@ != state.records[state.deleting[j]].key@);
    }
    assert forall|i: int| 0 <= i < after.deleted.len() implies after.parked(
        #[trigger] after.deleted[i],
        KeyState::Deleted,
    ) by {
        assert(state.parked(state.deleted[i], KeyState::Deleted));
    }
    assert forall|other: u64| #[trigger] after.records.contains_key(other) implies other
        < after.next_ticket && (after.sampled(other) || after.parked(other, KeyState::Deleting)
        || after.deleted.contains(other)) by {
        assert(state.records.contains_key(other));
    }
    assert(after.consistent());
}

proof fn lemma_prefixes(records: Map<u64, KeyRecord>, live: Seq<u64>, epoch: Epoch, now: u128)
    ensures
        0 <= ended_prefix(records, live, epoch) <= live.len(),
        0 <= past_prefix(records, live, now) <= live.len(),
    decreases live.len(),
{
    if live.len() > 0 {
        lemma_prefixes(records, live.skip(1), epoch, now);
    }
}

// The model.

/// The reference model. Keys are named by tickets.
#[derive(Clone, Debug)]
pub struct Model {
    pub records: KeyTable,
    pub live: VecDeque<u64>,
    pub live_sample: Vec<u64>,
    pub deleting: Vec<u64>,
    pub deleted: VecDeque<u64>,
    pub deleted_sample_capacity: usize,
    pub next_ticket: u64,
    /// How many keys were counted as due. Wraps.
    pub due_keys: u64,
}

impl Model {
    pub open spec fn state(&self) -> ModelState {
        ModelState {
            records: self.records.view(),
            live: self.live@,
            live_sample: self.live_sample@,
            deleting: self.deleting@,
            deleted: self.deleted@,
            capacity: self.deleted_sample_capacity as int,
            next_ticket: self.next_ticket,
            due_keys: self.due_keys,
        }
    }

    pub fn new(deleted_sample_capacity: usize) -> (model: Model)
        ensures
            model.state() == ModelState::empty(deleted_sample_capacity as int),
            model.state().wf(),
    {
        Model {
            records: KeyTable::new(),
            live: VecDeque::new(),
            live_sample: Vec::new(),
            deleting: Vec::new(),
            deleted: VecDeque::new(),
            deleted_sample_capacity,
            next_ticket: 0,
            due_keys: 0,
        }
    }

    /// What the model knows of a key, unless it was forgotten.
    pub fn record(&self, ticket: u64) -> (record: Option<&KeyRecord>)
        ensures
            match record {
                Some(record) => self.state().records.contains_key(ticket) && *record
                    == self.state().records[ticket],
                None => !self.state().records.contains_key(ticket),
            },
    {
        self.records.get(ticket)
    }

    /// Where a key is in its life. What was forgotten was deleted long ago.
    pub fn state_of(&self, ticket: u64) -> (state: KeyState)
        ensures
            state == (if self.state().records.contains_key(ticket) {
                self.state().records[ticket].state
            } else {
                KeyState::Deleted
            }),
    {
        match self.records.get(ticket) {
            Some(record) => record.state,
            None => KeyState::Deleted,
        }
    }

    /// Adds a key to the sample, and to the live keys unless one of the same time and bytes is
    /// among them; its ticket.
    pub fn push_live(&mut self, record: KeyRecord) -> (ticket: u64)
        requires
            old(self).state().wf(),
            record.state == KeyState::Live,
            old(self).next_ticket < u64::MAX,
            old(self).live_sample@.len() < usize::MAX,
        ensures
            ticket == old(self).next_ticket,
            final(self).state() == old(self).state().pushed(record),
            final(self).state().wf(),
    {
        let ghost state = self.state();
        proof {
            lemma_pushed(state, record);
            lemma_live_place(state.records, state.live, record);
        }
        let ticket: u64 = self.next_ticket;
        let mut at: usize = self.live.len();
        assert(state.live.take(at as int) =~= state.live);
        while at > 0 && self.comes_before(&record, self.live[at - 1])
            invariant
                at <= self.live@.len(),
                self.state() == state,
                state.consistent(),
                live_place(state.records, state.live, record) == live_place(
                    state.records,
                    state.live.take(at as int),
                    record,
                ),
            decreases at,
        {
            assert(state.live.take(at as int).last() == state.live[at - 1]);
            assert(state.live.take(at as int).drop_last() =~= state.live.take(at - 1));
            assert(state.sampled(state.live[at - 1]));
            at = at - 1;
        }
        proof {
            if at > 0 {
                assert(state.live.take(at as int).last() == state.live[at - 1]);
                assert(state.sampled(state.live[at - 1]));
            }
        }
        let known: bool = at > 0 && self.looks_like(&record, self.live[at - 1]);
        proof {
            lemma_alike_is_last(state, record);
        }
        let mut entry: KeyRecord = record;
        entry.sample_index = self.live_sample.len();
        self.records.insert(ticket, entry);
        self.live_sample.push(ticket);
        if !known {
            self.live.insert(at, ticket);
        }
        self.next_ticket = ticket + 1;
        assert(self.state() =~= state.pushed(record));
        ticket
    }

    fn comes_before(&self, record: &KeyRecord, ticket: u64) -> (result: bool)
        requires
            self.state().records.contains_key(ticket),
        ensures
            result == record.before(self.state().records[ticket]),
    {
        match self.records.get(ticket) {
            Some(other) => record.is_before(other),
            None => false,
        }
    }

    fn looks_like(&self, record: &KeyRecord, ticket: u64) -> (result: bool)
        requires
            self.state().records.contains_key(ticket),
        ensures
            result == self.state().records[ticket].alike(*record),
    {
        match self.records.get(ticket) {
            Some(other) => other.is_alike(record),
            None => false,
        }
    }

    /// Takes the records of a ticket's key out of those that are being deleted.
    fn drop_key(&mut self, ticket: u64)
        requires
            old(self).state().records.contains_key(ticket),
            forall|i: int|
                0 <= i < old(self).deleting@.len() ==> old(self).state().records.contains_key(
                    #[trigger] old(self).deleting@[i],
                ),
        ensures
            final(self).state() == (ModelState {
                deleting: other_keys(
                    old(self).state().records,
                    old(self).state().deleting,
                    old(self).state().records[ticket].key@,
                ),
                ..old(self).state()
            }),
    {
        let ghost state = self.state();
        let ghost key = state.records[ticket].key@;
        let mut kept: Vec<u64> = Vec::new();
        let mut i: usize = 0;
        assert(state.deleting.take(0) =~= Seq::<u64>::empty());
        while i < self.deleting.len()
            invariant
                i <= self.deleting@.len(),
                self.state() == state,
                state.records.contains_key(ticket),
                key == state.records[ticket].key@,
                forall|k: int|
                    0 <= k < state.deleting.len() ==> state.records.contains_key(
                        #[trigger] state.deleting[k],
                    ),
                kept@ == other_keys(state.records, state.deleting.take(i as int), key),
            decreases self.deleting@.len() - i,
        {
            let other: u64 = self.deleting[i];
            assert(state.records.contains_key(state.deleting[i as int]));
            assert(state.deleting.take(i + 1).drop_last() =~= state.deleting.take(i as int));
            assert(state.deleting.take(i + 1).last() == other);
            let same: bool = match (self.records.get(ticket), self.records.get(other)) {
                (Some(one), Some(two)) => same_bytes(&two.key, &one.key),
                _ => false,
            };
            if !same {
                kept.push(other);
            }
            i = i + 1;
        }
        assert(state.deleting.take(i as int) =~= state.deleting);
        self.deleting = kept;
    }

    fn set_sample_index(&mut self, ticket: u64, sample_index: usize)
        requires
            old(self).state().records.contains_key(ticket),
        ensures
            final(self).state() == (ModelState {
                records: old(self).state().records.insert(
                    ticket,
                    KeyRecord { sample_index, ..old(self).state().records[ticket] },
                ),
                ..old(self).state()
            }),
    {
        let ghost state = self.state();
        if let Some(mut record) = self.records.remove(ticket) {
            record.sample_index = sample_index;
            self.records.insert(ticket, record);
        }
        assert(self.state().records =~= state.records.insert(
            ticket,
            KeyRecord { sample_index, ..state.records[ticket] },
        ));
    }

    fn set_state(&mut self, ticket: u64, state: KeyState)
        requires
            old(self).state().records.contains_key(ticket),
        ensures
            final(self).state() == old(self).state().with_state(ticket, state),
    {
        let ghost before = self.state();
        if let Some(mut record) = self.records.remove(ticket) {
            record.state = state;
            self.records.insert(ticket, record);
        }
        assert(self.state().records =~= before.with_state(ticket, state).records);
    }

    fn remove_live_sample(&mut self, ticket: u64)
        requires
            old(self).state().detached(ticket),
        ensures
            final(self).state() == old(self).state().unsampled(ticket),
    {
        let ghost state = self.state();
        proof {
            lemma_unsampled(state, ticket);
        }
        let at: usize = match self.records.get(ticket) {
            Some(record) => record.sample_index,
            None => 0,
        };
        let ghost end = state.live_sample.len() - 1;
        assert(state.records.contains_key(state.live_sample[end]));
        self.live_sample.swap_remove(at);
        self.set_sample_index(ticket, usize::MAX);
        if at < self.live_sample.len() {
            let moved: u64 = self.live_sample[at];
            self.set_sample_index(moved, at);
        }
        assert(self.state() =~= state.unsampled(ticket));
    }

    /// Counts a key as due, unless it was before.
    pub fn mark_due(&mut self, ticket: u64)
        requires
            old(self).state().wf(),
            old(self).state().records.contains_key(ticket),
        ensures
            final(self).state() == old(self).state().marked_due(ticket),
            final(self).state().wf(),
    {
        let ghost state = self.state();
        proof {
            lemma_marked_due(state, ticket);
        }
        self.count_due(ticket);
    }

    fn count_due(&mut self, ticket: u64)
        requires
            old(self).state().records.contains_key(ticket),
        ensures
            final(self).state() == old(self).state().marked_due(ticket),
    {
        let ghost state = self.state();
        let counted: bool = match self.records.get(ticket) {
            Some(record) => record.due_counted,
            None => true,
        };
        if !counted {
            if let Some(mut record) = self.records.remove(ticket) {
                record.due_counted = true;
                self.records.insert(ticket, record);
            }
            self.due_keys = self.due_keys.wrapping_add(1);
            assert(self.state().records =~= state.marked_due(ticket).records);
        }
    }

    /// Says that a detached key is being deleted.
    pub fn mark_deleting(&mut self, ticket: u64)
        requires
            old(self).state().wf(),
            old(self).state().detached(ticket),
        ensures
            final(self).state() == old(self).state().with_state(ticket, KeyState::Deleting),
            final(self).state().wf(),
            forall|other: u64|
                old(self).state().detached(other) ==> #[trigger] final(self).state().detached(
                    other,
                ),
    {
        proof {
            lemma_marked_deleting(self.state(), ticket);
        }
        self.set_state(ticket, KeyState::Deleting);
    }

    /// Claims the key that is due first, where its time and its epoch have come.
    pub fn claim_due(&mut self, now: u128, current_epoch: Option<Epoch>) -> (ticket: Option<u64>)
        requires
            old(self).state().wf(),
        ensures
            final(self).state().wf(),
            ({
                let state = old(self).state();
                if state.live.len() > 0 && state.records[state.live[0]].spec_is_due(
                    now,
                    current_epoch,
                ) {
                    &&& ticket == Some(state.live[0])
                    &&& final(self).state() == state.claimed()
                } else {
                    &&& ticket is None
                    &&& final(self).state() == state
                }
            }),
    {
        let ghost state = self.state();
        if self.live.len() == 0 {
            return None;
        }
        let ticket: u64 = self.live[0];
        assert(state.sampled(state.live[0]));
        let due: bool = match self.records.get(ticket) {
            Some(record) => record.is_due(now, current_epoch),
            None => false,
        };
        if !due {
            return None;
        }
        proof {
            lemma_claimed(state);
            lemma_marked_due(state, ticket);
        }
        self.count_due(ticket);
        proof {
            lemma_front_taken(self.state(), 1);
        }
        let ghost marked = self.state();
        let _ = self.live.pop_front();
        assert(self.state() =~= ModelState { live: marked.live.skip(1), ..marked });
        assert(self.state().detached(marked.live[0]));
        self.remove_live_sample(ticket);
        self.set_state(ticket, KeyState::Deleting);
        proof {
            let now = self.state();
            assert(now.deleting == state.deleting);
            assert forall|i: int| 0 <= i < state.deleting.len() implies now.records.contains_key(
                #[trigger] state.deleting[i],
            ) && now.records[state.deleting[i]].key@ == state.records[state.deleting[i]].key@ by {
                assert(state.parked(state.deleting[i], KeyState::Deleting));
            }
            lemma_other_keys_again(
                state.records,
                now.records,
                state.deleting,
                state.records[ticket].key@,
            );
        }
        self.drop_key(ticket);
        self.deleting.push(ticket);
        assert(self.state() =~= state.claimed());
        Some(ticket)
    }

    /// Detaches the keys that end by themselves at an epoch from the front of the live keys.
    ///
    /// No key that ends there can be added any more when this is called. The keys remain in the
    /// sample for now: a reader that holds one treats a miss as a race, once they are marked as
    /// being deleted, and they can leave the sample in small batches.
    pub fn detach_native_expirations(&mut self, epoch: Epoch) -> (tickets: Vec<u64>)
        requires
            old(self).state().wf(),
        ensures
            ({
                let state = old(self).state();
                let count = ended_prefix(state.records, state.live, epoch);
                &&& 0 <= count <= state.live.len()
                &&& tickets@ == state.live.take(count)
                &&& final(self).state() == (ModelState { live: state.live.skip(count), ..state })
            }),
            final(self).state().wf(),
            forall|i: int|
                0 <= i < tickets@.len() ==> final(self).state().detached(#[trigger] tickets@[i]),
            forall|i: int, j: int|
                0 <= i < j < tickets@.len() ==> #[trigger] tickets@[i] != #[trigger] tickets@[j],
    {
        let ghost state = self.state();
        let ghost count = ended_prefix(state.records, state.live, epoch);
        let mut tickets: Vec<u64> = Vec::new();
        proof {
            lemma_prefixes(state.records, state.live, epoch, 0);
            assert(state.live.skip(0) =~= state.live);
            assert(state.live.take(0) =~= Seq::<u64>::empty());
        }
        let mut at: usize = 0;
        while at < self.live.len() && self.ends_at(self.live[at], epoch)
            invariant
                at <= self.live@.len(),
                self.state() == state,
                state.consistent(),
                tickets@ == state.live.take(at as int),
                count == ended_prefix(state.records, state.live, epoch),
                count == at + ended_prefix(state.records, state.live.skip(at as int), epoch),
            decreases self.live@.len() - at,
        {
            assert(state.sampled(state.live[at as int]));
            assert(state.live.skip(at as int)[0] == state.live[at as int]);
            assert(state.live.skip(at as int).skip(1) =~= state.live.skip(at + 1));
            tickets.push(self.live[at]);
            at = at + 1;
            assert(tickets@ =~= state.live.take(at as int));
        }
        proof {
            if at < state.live.len() {
                assert(state.live.skip(at as int)[0] == state.live[at as int]);
                assert(state.sampled(state.live[at as int]));
            }
            assert(count == at);
            lemma_front_taken(state, count);
        }
        let rest: VecDeque<u64> = self.live.split_off(at);
        self.live = rest;
        assert(self.state() =~= ModelState { live: state.live.skip(count), ..state });
        assert forall|i: int| 0 <= i < tickets@.len() implies self.state().detached(
            #[trigger] tickets@[i],
        ) by {
            assert(tickets@[i] == state.live[i]);
        }
        tickets
    }

    fn ends_at(&self, ticket: u64, epoch: Epoch) -> (result: bool)
        requires
            self.state().consistent(),
            self.state().live.contains(ticket),
        ensures
            result == self.state().records[ticket].spec_has_ended(epoch),
    {
        proof {
            let i = self.state().live.index_of(ticket);
            assert(self.state().sampled(self.state().live[i]));
        }
        match self.records.get(ticket) {
            Some(record) => record.has_ended(epoch),
            None => false,
        }
    }

    /// Takes detached keys out of the sample and keeps them as deleted; how many deleted keys are
    /// kept.
    pub fn finish_native_expirations(&mut self, tickets: &Vec<u64>) -> (kept: usize)
        requires
            old(self).state().wf(),
            forall|i: int|
                0 <= i < tickets@.len() ==> old(self).state().detached(#[trigger] tickets@[i]),
            forall|i: int, j: int|
                0 <= i < j < tickets@.len() ==> #[trigger] tickets@[i] != #[trigger] tickets@[j],
        ensures
            final(self).state() == old(self).state().all_retired(tickets@).trimmed(),
            final(self).state().wf(),
            kept == final(self).deleted@.len(),
    {
        let ghost state = self.state();
        let mut i: usize = 0;
        assert(tickets@.take(0) =~= Seq::<u64>::empty());
        while i < tickets.len()
            invariant
                i <= tickets@.len(),
                state.wf(),
                self.state() == state.all_retired(tickets@.take(i as int)),
                self.deleted_sample_capacity == state.capacity,
                forall|k: int|
                    0 <= k < tickets@.len() ==> state.detached(#[trigger] tickets@[k]),
                forall|k: int, j: int|
                    0 <= k < j < tickets@.len() ==> #[trigger] tickets@[k]
                        != #[trigger] tickets@[j],
            decreases tickets@.len() - i,
        {
            let ticket: u64 = tickets[i];
            let ghost front = tickets@.take(i as int);
            proof {
                assert forall|k: int| 0 <= k < front.len() implies state.detached(
                    #[trigger] front[k],
                ) by {
                    assert(front[k] == tickets@[k]);
                }
                assert forall|k: int, j: int| 0 <= k < j < front.len() implies #[trigger] front[k]
                    != #[trigger] front[j] by {
                    assert(front[k] == tickets@[k] && front[j] == tickets@[j]);
                }
                lemma_all_retired(state, front);
                assert(!front.contains(ticket)) by {
                    if front.contains(ticket) {
                        let k = front.index_of(ticket);
                        assert(tickets@[k] != tickets@[i as int]);
                    }
                }
                assert(state.detached(tickets@[i as int]));
                assert(state.all_retired(front).detached(ticket));
                lemma_retired(self.state(), ticket);
                assert(tickets@.take(i + 1).drop_last() =~= front);
                assert(tickets@.take(i + 1).last() == ticket);
            }
            let ghost before = self.state();
            self.remove_live_sample(ticket);
            proof {
                lemma_unsampled(before, ticket);
            }
            self.set_state(ticket, KeyState::Deleted);
            self.deleted.push_back(ticket);
            assert(self.state() =~= before.retired(ticket));
            i = i + 1;
        }
        proof {
            assert(tickets@.take(i as int) =~= tickets@);
            lemma_all_retired(state, tickets@);
        }
        self.trim_deleted();
        self.deleted.len()
    }

    fn trim_deleted(&mut self)
        requires
            old(self).state().consistent(),
        ensures
            final(self).state() == old(self).state().trimmed(),
            final(self).state().wf(),
    {
        let ghost state = self.state();
        proof {
            lemma_trimmed(state);
        }
        while self.deleted.len() > self.deleted_sample_capacity
            invariant
                self.state().trimmed() == state.trimmed(),
            decreases self.deleted@.len(),
        {
            let ghost before = self.state();
            if let Some(ticket) = self.deleted.pop_front() {
                let _ = self.records.remove(ticket);
            }
            assert(self.state() =~= ModelState {
                records: before.records.remove(before.deleted[0]),
                deleted: before.deleted.skip(1),
                ..before
            });
        }
    }

    /// Keeps a claimed key as deleted. No record of the key counts as being deleted any more.
    pub fn finish_delete(&mut self, ticket: u64)
        requires
            old(self).state().wf(),
            old(self).state().parked(ticket, KeyState::Deleting),
        ensures
            final(self).state() == old(self).state().finished(ticket),
            final(self).state().wf(),
    {
        let ghost state = self.state();
        proof {
            lemma_finished(state, ticket);
            assert forall|i: int| 0 <= i < state.deleting.len() implies state.records.contains_key(
                #[trigger] state.deleting[i],
            ) by {
                assert(state.parked(state.deleting[i], KeyState::Deleting));
            }
        }
        self.drop_key(ticket);
        self.set_state(ticket, KeyState::Deleted);
        self.deleted.push_back(ticket);
        proof {
            let next = state.with_state(ticket, KeyState::Deleted);
            assert(self.state() =~= ModelState {
                deleting: other_keys(state.records, state.deleting, state.records[ticket].key@),
                deleted: next.deleted.push(ticket),
                ..next
            });
        }
        self.trim_deleted();
    }

    /// Picks a key to read, of the preferred kind where there is one, and what to expect.
    pub fn sample(&self, prefer_deleted: bool, rng: &mut SplitMix64) -> (target: Option<
        (u64, ReadExpectation),
    >)
        ensures
            target == self.state().read_target(
                prefer_deleted,
                random::spec_splitmix64(old(rng).state),
            ),
            final(rng).state == (if target is None {
                old(rng).state
            } else {
                old(rng).state.wrapping_add(random::GAMMA)
            }),
    {
        let deleted: usize = self.deleted.len();
        let live: usize = self.live_sample.len();
        if deleted > 0 && (prefer_deleted || live == 0) {
            let index: usize = pick(rng.next_u64(), deleted);
            Some((self.deleted[index], ReadExpectation::Deleted))
        } else if live > 0 {
            let index: usize = pick(rng.next_u64(), live);
            Some((self.live_sample[index], ReadExpectation::Live))
        } else {
            None
        }
    }

    /// Counts the keys whose time has come and that are not deleted yet.
    pub fn refresh_delete_backlog(
        &mut self,
        now: u128,
        current_epoch: Option<Epoch>,
        lag_slo: u128,
    ) -> (backlog: DeleteBacklog)
        requires
            old(self).state().wf(),
        ensures
            ({
                let state = old(self).state();
                let tickets = state.backlog_tickets(now);
                &&& backlog == backlog_of(state.records, tickets, now, current_epoch, lag_slo)
                &&& final(self).state() == state.refreshed(tickets, now, current_epoch)
            }),
            final(self).state().wf(),
    {
        let ghost state = self.state();
        let ghost count = past_prefix(state.records, state.live, now);
        let ghost tickets = state.backlog_tickets(now);
        proof {
            lemma_prefixes(state.records, state.live, 0, now);
            lemma_backlog_tickets(state, now);
            lemma_refreshed(state, tickets, now, current_epoch);
            assert(state.live.skip(0) =~= state.live);
        }
        let mut live: usize = 0;
        while live < self.live.len() && self.past(self.live[live], now)
            invariant
                live <= self.live@.len(),
                self.state() == state,
                state.consistent(),
                count == past_prefix(state.records, state.live, now),
                count == live + past_prefix(state.records, state.live.skip(live as int), now),
            decreases self.live@.len() - live,
        {
            assert(state.sampled(state.live[live as int]));
            assert(state.live.skip(live as int)[0] == state.live[live as int]);
            assert(state.live.skip(live as int).skip(1) =~= state.live.skip(live + 1));
            live = live + 1;
        }
        proof {
            if live < state.live.len() {
                assert(state.live.skip(live as int)[0] == state.live[live as int]);
                assert(state.sampled(state.live[live as int]));
            }
            assert(count == live);
            assert(tickets.take(0) =~= Seq::<u64>::empty());
        }
        let mut backlog: DeleteBacklog = DeleteBacklog {
            due_keys: 0,
            matured_overdue_keys: 0,
            oldest_lag: 0,
        };
        let mut i: usize = 0;
        while i < live
            invariant
                i <= live <= self.live@.len(),
                state.wf(),
                tickets == state.backlog_tickets(now),
                tickets.len() == live + state.deleting.len(),
                live == past_prefix(state.records, state.live, now),
                forall|k: int|
                    0 <= k < tickets.len() ==> state.records.contains_key(#[trigger] tickets[k]),
                self.live@ == state.live,
                self.deleting@ == state.deleting,
                self.state() == state.refreshed(tickets.take(i as int), now, current_epoch),
                backlog == backlog_of(
                    state.records,
                    tickets.take(i as int),
                    now,
                    current_epoch,
                    lag_slo,
                ),
            decreases live - i,
        {
            let ticket: u64 = self.live[i];
            assert(ticket == tickets[i as int]);
            proof {
                lemma_step(state, tickets, i as int, now, current_epoch);
            }
            backlog = self.add_to_backlog(backlog, ticket, now, current_epoch, lag_slo);
            assert(tickets.take(i + 1).drop_last() =~= tickets.take(i as int));
            assert(tickets.take(i + 1).last() == ticket);
            i = i + 1;
        }
        let claimed: usize = self.deleting.len();
        let mut i: usize = 0;
        while i < claimed
            invariant
                i <= claimed,
                claimed == state.deleting.len(),
                state.wf(),
                tickets == state.backlog_tickets(now),
                tickets.len() == live + state.deleting.len(),
                live == past_prefix(state.records, state.live, now),
                live <= state.live.len(),
                forall|k: int|
                    0 <= k < tickets.len() ==> state.records.contains_key(#[trigger] tickets[k]),
                self.live@ == state.live,
                self.deleting@ == state.deleting,
                self.state() == state.refreshed(
                    tickets.take(live + i as int),
                    now,
                    current_epoch,
                ),
                backlog == backlog_of(
                    state.records,
                    tickets.take(live + i as int),
                    now,
                    current_epoch,
                    lag_slo,
                ),
            decreases claimed - i,
        {
            let ticket: u64 = self.deleting[i];
            let ghost at = live + i as int;
            assert(ticket == tickets[at]);
            proof {
                lemma_step(state, tickets, at, now, current_epoch);
            }
            backlog = self.add_to_backlog(backlog, ticket, now, current_epoch, lag_slo);
            assert(tickets.take(at + 1).drop_last() =~= tickets.take(at));
            assert(tickets.take(at + 1).last() == ticket);
            i = i + 1;
        }
        assert(tickets.take(live + i as int) =~= tickets);
        backlog
    }

    fn past(&self, ticket: u64, now: u128) -> (result: bool)
        requires
            self.state().consistent(),
            self.state().live.contains(ticket),
        ensures
            result == (self.state().records[ticket].due_at <= now),
    {
        proof {
            let i = self.state().live.index_of(ticket);
            assert(self.state().sampled(self.state().live[i]));
        }
        match self.records.get(ticket) {
            Some(record) => record.due_at <= now,
            None => false,
        }
    }

    fn add_to_backlog(
        &mut self,
        backlog: DeleteBacklog,
        ticket: u64,
        now: u128,
        current_epoch: Option<Epoch>,
        lag_slo: u128,
    ) -> (next: DeleteBacklog)
        requires
            old(self).state().records.contains_key(ticket),
        ensures
            next == backlog_with(
                backlog,
                old(self).state().records[ticket],
                now,
                current_epoch,
                lag_slo,
            ),
            final(self).state() == (if old(self).state().records[ticket].spec_is_due(
                now,
                current_epoch,
            ) {
                old(self).state().marked_due(ticket)
            } else {
                old(self).state()
            }),
    {
        let (due, due_at): (bool, u128) = match self.records.get(ticket) {
            Some(record) => (record.is_due(now, current_epoch), record.due_at),
            None => (false, 0),
        };
        if !due {
            return backlog;
        }
        self.count_due(ticket);
        let lag: u128 = elapsed_since(now, due_at);
        DeleteBacklog {
            due_keys: backlog.due_keys.saturating_add(1),
            matured_overdue_keys: if lag > lag_slo {
                backlog.matured_overdue_keys.saturating_add(1)
            } else {
                backlog.matured_overdue_keys
            },
            oldest_lag: max_u128(backlog.oldest_lag, lag),
        }
    }

    /// What the model holds, and how old the live key is that is due first.
    pub fn snapshot(&self, now: u128) -> (snapshot: ModelSnapshot)
        requires
            self.state().wf(),
        ensures
            snapshot.live_keys == self.live@.len(),
            snapshot.deleting_keys == self.deleting@.len(),
            snapshot.deleted_sample_keys == self.deleted@.len(),
            snapshot.oldest_live_age == (if self.live@.len() == 0 {
                0
            } else {
                workload::elapsed(
                    now as int,
                    self.state().records[self.live@[0]].written_at as int,
                )
            }),
    {
        let oldest_live_age: u128 = if self.live.len() == 0 {
            0
        } else {
            assert(self.state().sampled(self.state().live[0]));
            match self.records.get(self.live[0]) {
                Some(record) => elapsed_since(now, record.written_at),
                None => 0,
            }
        };
        ModelSnapshot {
            live_keys: self.live.len() as u64,
            deleting_keys: self.deleting.len() as u64,
            deleted_sample_keys: self.deleted.len() as u64,
            oldest_live_age,
        }
    }
}

fn pick(draw: u64, len: usize) -> (index: usize)
    requires
        len > 0,
    ensures
        index == (draw as usize) as int % len as int,
        index < len,
{
    #[verifier::truncate]
    let index: usize = draw as usize;
    index % len
}

proof fn lemma_backlog_tickets(state: ModelState, now: u128)
    requires
        state.consistent(),
    ensures
        ({
            let tickets = state.backlog_tickets(now);
            let count = past_prefix(state.records, state.live, now);
            &&& tickets.len() == count + state.deleting.len()
            &&& forall|i: int|
                0 <= i < tickets.len() ==> state.records.contains_key(#[trigger] tickets[i])
        }),
{
    lemma_prefixes(state.records, state.live, 0, now);
    let tickets = state.backlog_tickets(now);
    let count = past_prefix(state.records, state.live, now);
    assert forall|i: int| 0 <= i < tickets.len() implies state.records.contains_key(
        #[trigger] tickets[i],
    ) by {
        if i < count {
            assert(tickets[i] == state.live[i]);
            assert(state.sampled(state.live[i]));
        } else {
            assert(tickets[i] == state.deleting[i - count]);
            assert(state.parked(state.deleting[i - count], KeyState::Deleting));
        }
    }
}

proof fn lemma_step(
    state: ModelState,
    tickets: Seq<u64>,
    at: int,
    now: u128,
    current_epoch: Option<Epoch>,
)
    requires
        state.consistent(),
        0 <= at < tickets.len(),
        forall|k: int|
            0 <= k < tickets.len() ==> state.records.contains_key(#[trigger] tickets[k]),
    ensures
        ({
            let before = state.refreshed(tickets.take(at), now, current_epoch);
            let ticket = tickets[at];
            &&& before.records.contains_key(ticket)
            &&& before.records[ticket] == (KeyRecord {
                due_counted: before.records[ticket].due_counted,
                ..state.records[ticket]
            })
            &&& before.live == state.live
            &&& before.deleting == state.deleting
        }),
{
    let front = tickets.take(at);
    assert forall|k: int| 0 <= k < front.len() implies state.records.contains_key(
        #[trigger] front[k],
    ) by {
        assert(front[k] == tickets[k]);
    }
    lemma_refreshed(state, front, now, current_epoch);
    assert(state.records.contains_key(tickets[at]));
}

// Laws.

/// The first live key is due no later than any other: where it is not past its time, none is.
pub proof fn law_the_first_key_is_due_first(state: ModelState, now: u128)
    requires
        state.wf(),
        state.live.len() > 0,
    ensures
        forall|i: int|
            0 <= i < state.live.len() ==> state.records[state.live[0]].due_at
                <= state.records[#[trigger] state.live[i]].due_at,
        state.records[state.live[0]].due_at > now ==> forall|i: int|
            0 <= i < state.live.len() ==> state.records[#[trigger] state.live[i]].due_at > now,
{
    assert forall|i: int| 0 <= i < state.live.len() implies state.records[state.live[0]].due_at
        <= state.records[#[trigger] state.live[i]].due_at by {
        if i > 0 {
            assert(!state.records[state.live[i]].before(state.records[state.live[0]]));
        }
    }
}

/// Only keys whose epoch was reached are detached, and the first that stays behind has not ended.
pub proof fn law_only_ended_keys_expire(state: ModelState, epoch: Epoch)
    requires
        state.wf(),
    ensures
        ({
            let count = ended_prefix(state.records, state.live, epoch);
            &&& 0 <= count <= state.live.len()
            &&& forall|i: int|
                0 <= i < count ==> state.records[#[trigger] state.live[i]].spec_has_ended(epoch)
            &&& count < state.live.len() ==> !state.records[state.live[count]].spec_has_ended(
                epoch,
            )
        }),
{
    lemma_ended_prefix(state.records, state.live, epoch);
}

proof fn lemma_ended_prefix(records: Map<u64, KeyRecord>, live: Seq<u64>, epoch: Epoch)
    ensures
        ({
            let count = ended_prefix(records, live, epoch);
            &&& 0 <= count <= live.len()
            &&& forall|i: int|
                0 <= i < count ==> records[#[trigger] live[i]].spec_has_ended(epoch)
            &&& count < live.len() ==> !records[live[count]].spec_has_ended(epoch)
        }),
    decreases live.len(),
{
    if live.len() > 0 && records[live[0]].spec_has_ended(epoch) {
        let rest = live.skip(1);
        lemma_ended_prefix(records, rest, epoch);
        let count = ended_prefix(records, live, epoch);
        assert forall|i: int| 0 <= i < count implies records[
        #[trigger] live[i]].spec_has_ended(epoch) by {
            if i > 0 {
                assert(rest[i - 1] == live[i]);
            }
        }
        if count < live.len() {
            assert(rest[count - 1] == live[count]);
        }
    }
}

/// A look at the backlog misses no live key that is past its time.
pub proof fn law_the_backlog_is_complete(state: ModelState, now: u128)
    requires
        state.wf(),
    ensures
        forall|i: int|
            0 <= i < state.live.len() ==> (i < past_prefix(state.records, state.live, now)
                <==> state.records[#[trigger] state.live[i]].due_at <= now),
{
    lemma_past_prefix(state.records, state.live, now);
    let count = past_prefix(state.records, state.live, now);
    assert forall|i: int| 0 <= i < state.live.len() implies (i < count <==> state.records[
    #[trigger] state.live[i]].due_at <= now) by {
        if i > count {
            assert(!state.records[state.live[i]].before(state.records[state.live[count]]));
        }
    }
}

proof fn lemma_past_prefix(records: Map<u64, KeyRecord>, live: Seq<u64>, now: u128)
    ensures
        ({
            let count = past_prefix(records, live, now);
            &&& 0 <= count <= live.len()
            &&& forall|i: int| 0 <= i < count ==> records[#[trigger] live[i]].due_at <= now
            &&& count < live.len() ==> records[live[count]].due_at > now
        }),
    decreases live.len(),
{
    if live.len() > 0 && records[live[0]].due_at <= now {
        let rest = live.skip(1);
        lemma_past_prefix(records, rest, now);
        let count = past_prefix(records, live, now);
        assert forall|i: int| 0 <= i < count implies records[#[trigger] live[i]].due_at <= now by {
            if i > 0 {
                assert(rest[i - 1] == live[i]);
            }
        }
        if count < live.len() {
            assert(rest[count - 1] == live[count]);
        }
    }
}

/// A key is counted as due once, however often it is marked.
pub proof fn law_keys_are_counted_once(state: ModelState, ticket: u64)
    ensures
        state.marked_due(ticket).marked_due(ticket) == state.marked_due(ticket),
{
}

/// Of two live keys with different keys one is due before the other, so that acknowledgments may
/// come in any order.
pub proof fn law_order_does_not_depend_on_arrival(a: KeyRecord, b: KeyRecord)
    requires
        a.key@ != b.key@,
    ensures
        a.before(b) != b.before(a),
{
    keys::lemma_key_order(a.key@, b.key@, a.key@);
}

} // verus!
