//! A map from shard generations to values, kept in shard order.

use vstd::prelude::*;

use crate::types::ShardKey;

verus! {

/// Keys strictly increase, so no shard occurs twice.
pub open spec fn shard_sorted<V>(entries: Seq<(ShardKey, V)>) -> bool {
    forall|i: int, j: int|
        0 <= i < j < entries.len() ==> (#[trigger] entries[i]).0.spec_before(
            (#[trigger] entries[j]).0,
        )
}

/// Whether `shard` has an entry.
pub open spec fn has_shard<V>(entries: Seq<(ShardKey, V)>, shard: ShardKey) -> bool {
    exists|i: int| 0 <= i < entries.len() && (#[trigger] entries[i]).0 == shard
}

/// The value that the entries give to `shard`, where they give one.
pub open spec fn shard_value<V>(entries: Seq<(ShardKey, V)>, shard: ShardKey) -> V {
    entries[choose|i: int| 0 <= i < entries.len() && (#[trigger] entries[i]).0 == shard].1
}

/// The entries as a map.
pub open spec fn shard_map_of<V>(entries: Seq<(ShardKey, V)>) -> Map<ShardKey, V> {
    Map::new(|shard: ShardKey| has_shard(entries, shard), |shard: ShardKey| shard_value(entries, shard))
}

/// Values by shard generation, listed in shard order.
#[derive(Clone, Debug, PartialEq, Eq)]
pub struct ShardMap<V> {
    entries: Vec<(ShardKey, V)>,
}

impl<V> View for ShardMap<V> {
    type V = Map<ShardKey, V>;

    open spec fn view(&self) -> Map<ShardKey, V> {
        shard_map_of(self.listed())
    }
}

impl<V> ShardMap<V> {
    /// The entries in shard order.
    pub closed spec fn listed(&self) -> Seq<(ShardKey, V)> {
        self.entries@
    }

    /// The listing is strictly ordered.
    pub open spec fn wf(&self) -> bool {
        shard_sorted(self.listed())
    }
}

/// A sorted listing gives each of its entries exactly one place.
pub proof fn lemma_sorted_entry<V>(entries: Seq<(ShardKey, V)>, at: int)
    requires
        shard_sorted(entries),
        0 <= at < entries.len(),
    ensures
        has_shard(entries, entries[at].0),
        shard_value(entries, entries[at].0) == entries[at].1,
        shard_map_of(entries).dom().contains(entries[at].0),
        shard_map_of(entries)[entries[at].0] == entries[at].1,
{
    let shard = entries[at].0;
    let i = choose|i: int| 0 <= i < entries.len() && (#[trigger] entries[i]).0 == shard;
    assert(entries[at].0 == shard);
    assert(i == at) by {
        if i < at {
            assert(entries[i].0.spec_before(entries[at].0));
        } else if at < i {
            assert(entries[at].0.spec_before(entries[i].0));
        }
    }
}

/// Two sorted listings of one map are the same listing.
pub proof fn lemma_listing_unique<V>(left: Seq<(ShardKey, V)>, right: Seq<(ShardKey, V)>)
    requires
        shard_sorted(left),
        shard_sorted(right),
        shard_map_of(left) == shard_map_of(right),
    ensures
        left == right,
    decreases left.len(),
{
    if left.len() == 0 {
        if right.len() > 0 {
            lemma_sorted_entry(right, 0);
            assert(has_shard(left, right[0].0));
        }
        assert(left =~= right);
    } else if right.len() == 0 {
        lemma_sorted_entry(left, 0);
        assert(has_shard(right, left[0].0));
    } else {
        let last = left.last();
        lemma_sorted_entry(left, left.len() - 1);
        lemma_sorted_entry(right, right.len() - 1);
        assert(has_shard(right, last.0));
        assert(has_shard(left, right.last().0));
        let in_right = choose|i: int| 0 <= i < right.len() && (#[trigger] right[i]).0 == last.0;
        let in_left = choose|i: int|
            0 <= i < left.len() && (#[trigger] left[i]).0 == right.last().0;
        assert(last.0 == right.last().0) by {
            if in_right < right.len() - 1 && in_left < left.len() - 1 {
                assert(right[in_right].0.spec_before(right[right.len() - 1].0));
                assert(left[in_left].0.spec_before(left[left.len() - 1].0));
            }
        }
        assert(last == right.last());
        let l = left.drop_last();
        let r = right.drop_last();
        assert forall|shard: ShardKey| has_shard(l, shard) implies has_shard(r, shard) && shard_value(
            l,
            shard,
        ) == shard_value(r, shard) by {
            lemma_drop_last_agrees(left, right, shard);
        }
        assert forall|shard: ShardKey| has_shard(r, shard) implies has_shard(l, shard) by {
            lemma_drop_last_agrees(right, left, shard);
        }
        assert(shard_map_of(l) =~= shard_map_of(r));
        lemma_listing_unique(l, r);
        assert(left =~= l.push(last));
        assert(right =~= r.push(last));
    }
}

proof fn lemma_drop_last_agrees<V>(
    left: Seq<(ShardKey, V)>,
    right: Seq<(ShardKey, V)>,
    shard: ShardKey,
)
    requires
        shard_sorted(left),
        shard_sorted(right),
        left.len() > 0,
        right.len() > 0,
        left.last() == right.last(),
        shard_map_of(left) == shard_map_of(right),
        has_shard(left.drop_last(), shard),
    ensures
        has_shard(right.drop_last(), shard),
        shard_value(left.drop_last(), shard) == shard_value(right.drop_last(), shard),
{
    let l = left.drop_last();
    let r = right.drop_last();
    let i = choose|i: int| 0 <= i < l.len() && (#[trigger] l[i]).0 == shard;
    assert(left[i] == l[i]);
    lemma_sorted_entry(left, i);
    lemma_sorted_entry(l, i);
    assert(left[i].0.spec_before(left[left.len() - 1].0));
    assert(shard_map_of(left).dom().contains(shard));
    assert(shard_map_of(right).dom().contains(shard));
    let j = choose|j: int| 0 <= j < right.len() && (#[trigger] right[j]).0 == shard;
    lemma_sorted_entry(right, j);
    assert(j < right.len() - 1);
    assert(r[j] == right[j]);
    lemma_sorted_entry(r, j);
    assert(shard_map_of(left)[shard] == shard_map_of(right)[shard]);
}

impl<V> ShardMap<V> {
    /// An empty map.
    pub fn new() -> (map: ShardMap<V>)
        ensures
            map.wf(),
            map.listed() == Seq::<(ShardKey, V)>::empty(),
            map@ == Map::<ShardKey, V>::empty(),
    {
        let map = ShardMap { entries: Vec::new() };
        assert(map@ =~= Map::<ShardKey, V>::empty());
        map
    }

    /// The number of entries.
    pub fn len(&self) -> (len: usize)
        ensures
            len == self.listed().len(),
    {
        self.entries.len()
    }

    pub fn is_empty(&self) -> (empty: bool)
        ensures
            empty == (self.listed().len() == 0),
            self.wf() ==> empty == (self@ == Map::<ShardKey, V>::empty()),
    {
        proof {
            if self.listed().len() == 0 {
                assert(self@ =~= Map::<ShardKey, V>::empty());
            } else if self.wf() {
                lemma_sorted_entry(self.listed(), 0);
                assert(self@.dom().contains(self.listed()[0].0));
            }
        }
        self.entries.len() == 0
    }

    /// The shard at a place in the listing.
    pub fn shard_at(&self, at: usize) -> (shard: ShardKey)
        requires
            at < self.listed().len(),
        ensures
            shard == self.listed()[at as int].0,
    {
        self.entries[at].0
    }

    /// The value at a place in the listing.
    pub fn value_at(&self, at: usize) -> (value: &V)
        requires
            at < self.listed().len(),
        ensures
            *value == self.listed()[at as int].1,
    {
        &self.entries[at].1
    }

    /// The first place whose shard is not before `shard`.
    fn lower_bound(&self, shard: &ShardKey) -> (at: usize)
        requires
            self.wf(),
        ensures
            at <= self.listed().len(),
            forall|i: int| 0 <= i < at ==> (#[trigger] self.listed()[i]).0.spec_before(*shard),
            forall|i: int|
                at <= i < self.listed().len() ==> !(#[trigger] self.listed()[i]).0.spec_before(
                    *shard,
                ),
    {
        let mut low: usize = 0;
        let mut high: usize = self.entries.len();
        while low < high
            invariant
                self.wf(),
                low <= high <= self.listed().len(),
                self.listed() == self.entries@,
                forall|i: int| 0 <= i < low ==> (#[trigger] self.listed()[i]).0.spec_before(*shard),
                forall|i: int|
                    high <= i < self.listed().len() ==> !(#[trigger] self.listed()[i]).0.spec_before(
                        *shard,
                    ),
            decreases high - low,
        {
            let middle: usize = low + (high - low) / 2;
            if self.entries[middle].0.before(shard) {
                low = middle + 1;
            } else {
                high = middle;
            }
        }
        low
    }

    /// The value of `shard`.
    pub fn get(&self, shard: &ShardKey) -> (value: Option<&V>)
        requires
            self.wf(),
        ensures
            match value {
                Some(found) => self@.dom().contains(*shard) && self@[*shard] == *found,
                None => !self@.dom().contains(*shard),
            },
    {
        let at: usize = self.lower_bound(shard);
        if at < self.entries.len() && self.entries[at].0 == *shard {
            proof {
                lemma_sorted_entry(self.listed(), at as int);
            }
            Some(&self.entries[at].1)
        } else {
            proof {
                if has_shard(self.listed(), *shard) {
                    let i = choose|i: int|
                        0 <= i < self.listed().len() && (#[trigger] self.listed()[i]).0 == *shard;
                    assert(i > at);
                    assert(self.listed()[at as int].0.spec_before(self.listed()[i].0));
                }
            }
            None
        }
    }

    /// Gives `shard` a value and hands back the one that it had.
    pub fn insert(&mut self, shard: ShardKey, value: V) -> (previous: Option<V>)
        requires
            old(self).wf(),
        ensures
            final(self).wf(),
            final(self)@ == old(self)@.insert(shard, value),
            match previous {
                Some(had) => old(self)@.dom().contains(shard) && old(self)@[shard] == had,
                None => !old(self)@.dom().contains(shard),
            },
    {
        let at: usize = self.lower_bound(&shard);
        let ghost before = self.listed();
        if at < self.entries.len() && self.entries[at].0 == shard {
            let mut entry: (ShardKey, V) = (shard, value);
            std::mem::swap(&mut self.entries[at], &mut entry);
            proof {
                let after = self.listed();
                assert(after =~= before.update(at as int, (shard, value)));
                assert(shard_sorted(after)) by {
                    assert forall|i: int, j: int| 0 <= i < j < after.len() implies (
                    #[trigger] after[i]).0.spec_before((#[trigger] after[j]).0) by {
                        assert(before[i].0.spec_before(before[j].0));
                    }
                }
                lemma_sorted_entry(before, at as int);
                lemma_map_after(before, after, shard, value, at as int, at + 1);
            }
            Some(entry.1)
        } else {
            self.entries.insert(at, (shard, value));
            proof {
                let after = self.listed();
                assert(after =~= before.insert(at as int, (shard, value)));
                lemma_absent(before, shard, at as int);
                assert(shard_sorted(after)) by {
                    assert forall|i: int, j: int| 0 <= i < j < after.len() implies (
                    #[trigger] after[i]).0.spec_before((#[trigger] after[j]).0) by {
                        let i0 = if i < at { i } else { i - 1 };
                        let j0 = if j < at { j } else { j - 1 };
                        if i != at && j != at {
                            assert(before[i0].0.spec_before(before[j0].0));
                        } else if i == at {
                            assert(!before[j0].0.spec_before(shard));
                            assert(before[j0].0 != shard);
                        } else {
                            assert(before[i0].0.spec_before(shard));
                        }
                    }
                }
                lemma_map_after(before, after, shard, value, at as int, at as int);
            }
            None
        }
    }

    /// Removes `shard` and hands back the value that it had.
    pub fn remove(&mut self, shard: &ShardKey) -> (previous: Option<V>)
        requires
            old(self).wf(),
        ensures
            final(self).wf(),
            final(self)@ == old(self)@.remove(*shard),
            match previous {
                Some(had) => old(self)@.dom().contains(*shard) && old(self)@[*shard] == had,
                None => !old(self)@.dom().contains(*shard),
            },
    {
        let at: usize = self.lower_bound(shard);
        let ghost before = self.listed();
        if at < self.entries.len() && self.entries[at].0 == *shard {
            let removed: (ShardKey, V) = self.entries.remove(at);
            proof {
                let after = self.listed();
                assert(after =~= before.remove(at as int));
                lemma_sorted_entry(before, at as int);
                assert(shard_sorted(after)) by {
                    assert forall|i: int, j: int| 0 <= i < j < after.len() implies (
                    #[trigger] after[i]).0.spec_before((#[trigger] after[j]).0) by {
                        let i0 = if i < at { i } else { i + 1 };
                        let j0 = if j < at { j } else { j + 1 };
                        assert(before[i0].0.spec_before(before[j0].0));
                    }
                }
                assert forall|other: ShardKey| has_shard(after, other) == (other != *shard
                    && has_shard(before, other)) by {
                    if has_shard(after, other) {
                        let i = choose|i: int| 0 <= i < after.len() && (#[trigger] after[i]).0 == other;
                        let i0 = if i < at { i } else { i + 1 };
                        assert(before[i0].0 == other);
                        if i0 < at {
                            assert(before[i0].0.spec_before(before[at as int].0));
                        } else {
                            assert(before[at as int].0.spec_before(before[i0].0));
                        }
                    }
                    if other != *shard && has_shard(before, other) {
                        let i0 = choose|i: int|
                            0 <= i < before.len() && (#[trigger] before[i]).0 == other;
                        let i = if i0 < at { i0 } else { i0 - 1 };
                        assert(after[i].0 == other);
                    }
                }
                assert forall|other: ShardKey| has_shard(after, other) implies shard_value(
                    after,
                    other,
                ) == shard_value(before, other) by {
                    let i = choose|i: int| 0 <= i < after.len() && (#[trigger] after[i]).0 == other;
                    let i0 = if i < at { i } else { i + 1 };
                    lemma_sorted_entry(after, i);
                    lemma_sorted_entry(before, i0);
                }
                assert(self@ =~= old(self)@.remove(*shard));
            }
            Some(removed.1)
        } else {
            proof {
                lemma_absent(before, *shard, at as int);
                assert(self@ =~= old(self)@.remove(*shard));
            }
            None
        }
    }

    /// Removes every entry.
    pub fn clear(&mut self)
        ensures
            final(self).wf(),
            final(self).listed() == Seq::<(ShardKey, V)>::empty(),
            final(self)@ == Map::<ShardKey, V>::empty(),
    {
        self.entries.clear();
        assert(self@ =~= Map::<ShardKey, V>::empty());
    }
}

proof fn lemma_absent<V>(entries: Seq<(ShardKey, V)>, shard: ShardKey, at: int)
    requires
        shard_sorted(entries),
        0 <= at <= entries.len(),
        at < entries.len() ==> entries[at].0 != shard,
        forall|i: int| 0 <= i < at ==> (#[trigger] entries[i]).0.spec_before(shard),
        forall|i: int| at <= i < entries.len() ==> !(#[trigger] entries[i]).0.spec_before(shard),
    ensures
        !has_shard(entries, shard),
{
    if has_shard(entries, shard) {
        let i = choose|i: int| 0 <= i < entries.len() && (#[trigger] entries[i]).0 == shard;
        assert(i > at);
        assert(entries[at].0.spec_before(entries[i].0));
    }
}

/// Putting `(shard, value)` in place of the entries in `from..to` of a sorted listing, none of
/// which is of another shard, is what inserting it into the map does.
proof fn lemma_map_after<V>(
    before: Seq<(ShardKey, V)>,
    after: Seq<(ShardKey, V)>,
    shard: ShardKey,
    value: V,
    from: int,
    to: int,
)
    requires
        shard_sorted(before),
        shard_sorted(after),
        0 <= from <= to <= before.len(),
        to <= from + 1,
        from < to ==> before[from].0 == shard,
        after =~= before.take(from) + seq![(shard, value)] + before.skip(to),
    ensures
        shard_map_of(after) == shard_map_of(before).insert(shard, value),
{
    let shift = 1 - (to - from);
    assert(after[from] == (shard, value));
    lemma_sorted_entry(after, from);
    assert forall|other: ShardKey| #[trigger] has_shard(after, other) == (other == shard || has_shard(
        before,
        other,
    )) by {
        if has_shard(after, other) && other != shard {
            let i = choose|i: int| 0 <= i < after.len() && (#[trigger] after[i]).0 == other;
            let i0 = if i < from { i } else { i - shift };
            assert(before[i0] == after[i]);
        }
        if has_shard(before, other) && other != shard {
            let i0 = choose|i: int| 0 <= i < before.len() && (#[trigger] before[i]).0 == other;
            let i = if i0 < from { i0 } else { i0 + shift };
            assert(before[i0] == after[i]);
        }
    }
    assert forall|other: ShardKey| has_shard(after, other) && other != shard implies shard_value(
        after,
        other,
    ) == shard_value(before, other) by {
        let i = choose|i: int| 0 <= i < after.len() && (#[trigger] after[i]).0 == other;
        let i0 = if i < from { i } else { i - shift };
        assert(before[i0] == after[i]);
        lemma_sorted_entry(after, i);
        lemma_sorted_entry(before, i0);
    }
    assert(shard_map_of(after) =~= shard_map_of(before).insert(shard, value));
}

} // verus!
