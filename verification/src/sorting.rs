//! A stable sort.

use vstd::prelude::*;

verus! {

/// Values that are put in order.
pub trait Precedes: Sized {
    /// Whether this value comes before the other.
    spec fn precedes(self, other: Self) -> bool;

    /// What does not come after what does not come after `a` does not come after `a`; and nothing
    /// comes both before and after another.
    proof fn order_is_weak(a: Self, b: Self, c: Self)
        ensures
            !b.precedes(a) && !c.precedes(b) ==> !c.precedes(a),
            a.precedes(b) ==> !b.precedes(a),
    ;

    fn comes_before(&self, other: &Self) -> (result: bool)
        ensures
            result == self.precedes(*other),
    ;
}

/// Where `item` belongs among ordered items: behind the last that it does not precede.
pub open spec fn place_of<T: Precedes>(ordered: Seq<T>, item: T) -> int
    decreases ordered.len(),
{
    if ordered.len() == 0 || !item.precedes(ordered.last()) {
        ordered.len() as int
    } else {
        place_of(ordered.drop_last(), item)
    }
}

/// The items in order; items of equal rank stay as they stand.
pub open spec fn in_order<T: Precedes>(items: Seq<T>) -> Seq<T>
    decreases items.len(),
{
    if items.len() == 0 {
        Seq::empty()
    } else {
        let earlier = in_order(items.drop_last());
        earlier.insert(place_of(earlier, items.last()), items.last())
    }
}

/// No item precedes one that stands before it.
pub open spec fn is_ordered<T: Precedes>(items: Seq<T>) -> bool {
    forall|i: int, j: int|
        0 <= i < j < items.len() ==> !(#[trigger] items[j]).precedes(#[trigger] items[i])
}

pub proof fn lemma_place_of<T: Precedes>(ordered: Seq<T>, item: T)
    requires
        is_ordered(ordered),
    ensures
        0 <= place_of(ordered, item) <= ordered.len(),
        forall|i: int| 0 <= i < place_of(ordered, item) ==> !item.precedes(#[trigger] ordered[i]),
        forall|i: int|
            place_of(ordered, item) <= i < ordered.len() ==> item.precedes(#[trigger] ordered[i]),
    decreases ordered.len(),
{
    if ordered.len() > 0 {
        let init = ordered.drop_last();
        assert(is_ordered(init)) by {
            assert forall|i: int, j: int| 0 <= i < j < init.len() implies !(
            #[trigger] init[j]).precedes(#[trigger] init[i]) by {
                assert(init[j] == ordered[j] && init[i] == ordered[i]);
            }
        }
        if item.precedes(ordered.last()) {
            lemma_place_of(init, item);
            assert forall|i: int| 0 <= i < place_of(ordered, item) implies !item.precedes(
                #[trigger] ordered[i],
            ) by {
                assert(init[i] == ordered[i]);
            }
            assert forall|i: int|
                place_of(ordered, item) <= i < ordered.len() implies item.precedes(
                #[trigger] ordered[i],
            ) by {
                if i < init.len() {
                    assert(init[i] == ordered[i]);
                }
            }
        } else {
            assert forall|i: int| 0 <= i < ordered.len() implies !item.precedes(
                #[trigger] ordered[i],
            ) by {
                if i < ordered.len() - 1 {
                    assert(!ordered[ordered.len() - 1].precedes(ordered[i]));
                    T::order_is_weak(ordered[i], ordered[ordered.len() - 1], item);
                }
            }
        }
    }
}

/// Sorting puts the items in order, and neither loses nor invents one.
pub proof fn law_sorted<T: Precedes>(items: Seq<T>)
    ensures
        is_ordered(in_order(items)),
        in_order(items).to_multiset() =~= items.to_multiset(),
        in_order(items).len() == items.len(),
    decreases items.len(),
{
    broadcast use vstd::seq_lib::group_to_multiset_ensures;

    if items.len() > 0 {
        let init = items.drop_last();
        let last = items.last();
        law_sorted(init);
        let earlier = in_order(init);
        lemma_place_of(earlier, last);
        let at = place_of(earlier, last);
        let all = earlier.insert(at, last);
        assert forall|i: int, j: int| 0 <= i < j < all.len() implies !(
        #[trigger] all[j]).precedes(#[trigger] all[i]) by {
            let i0 = if i < at {
                i
            } else {
                i - 1
            };
            let j0 = if j < at {
                j
            } else {
                j - 1
            };
            if i != at && j != at {
                assert(!earlier[j0].precedes(earlier[i0]));
            } else if i == at {
                assert(last.precedes(earlier[j0]));
                T::order_is_weak(last, earlier[j0], last);
            } else {
                assert(!last.precedes(earlier[i0]));
            }
        }
        assert(all.to_multiset() =~= earlier.to_multiset().insert(last));
        assert(items =~= init.push(last));
        assert(items.to_multiset() =~= init.to_multiset().insert(last));
    } else {
        assert(in_order(items) =~= items);
    }
}

/// Sorts items in place. Items that are nearly in order take little time.
pub fn sort<T: Precedes>(items: &mut Vec<T>)
    ensures
        final(items)@ == in_order(old(items)@),
{
    let ghost all = items@;
    let mut i: usize = 0;
    assert(in_order(all.take(0)) + all.skip(0) =~= all);
    while i < items.len()
        invariant
            i <= all.len(),
            items@.len() == all.len(),
            items@ == in_order(all.take(i as int)) + all.skip(i as int),
        decreases all.len() - i,
    {
        let ghost front = in_order(all.take(i as int));
        proof {
            law_sorted(all.take(i as int));
            assert(front.len() == i);
            assert(all.take(i + 1).drop_last() =~= all.take(i as int));
            assert(items@.take(i as int) =~= front);
            assert(items@[i as int] == all[i as int]);
            lemma_place_of(front, all[i as int]);
        }
        let mut at: usize = i;
        assert(front.take(at as int) =~= front);
        while at > 0 && items[i].comes_before(&items[at - 1])
            invariant
                at <= i < items@.len(),
                front.len() == i,
                items@.len() == all.len(),
                items@ == front + all.skip(i as int),
                items@[i as int] == all[i as int],
                place_of(front, all[i as int]) == place_of(front.take(at as int), all[i as int]),
            decreases at,
        {
            assert(items@[at - 1] == front[at - 1]);
            assert(front.take(at as int).drop_last() =~= front.take(at - 1));
            assert(front.take(at as int).last() == front[at - 1]);
            at = at - 1;
        }
        proof {
            if at > 0 {
                assert(items@[at - 1] == front[at - 1]);
                assert(front.take(at as int).last() == front[at - 1]);
            }
            assert(place_of(front, all[i as int]) == at);
        }
        if at < i {
            let item: T = items.remove(i);
            items.insert(at, item);
        }
        assert(items@ =~= front.insert(at as int, all[i as int]) + all.skip(i + 1));
        i = i + 1;
    }
    assert(all.take(i as int) =~= all);
    assert(in_order(all) + all.skip(i as int) =~= in_order(all)) by {
        law_sorted(all);
    }
}

} // verus!
