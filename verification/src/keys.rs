//! The order of blob keys.

use vstd::prelude::*;

verus! {

/// Whether key `a` comes before key `b`: byte by byte, a prefix before what it begins.
pub open spec fn key_before(a: Seq<u8>, b: Seq<u8>) -> bool
    decreases a.len(),
{
    if b.len() == 0 {
        false
    } else if a.len() == 0 {
        true
    } else if a[0] != b[0] {
        a[0] < b[0]
    } else {
        key_before(a.skip(1), b.skip(1))
    }
}

/// Whether key `a` comes before key `b`.
pub fn is_key_before(a: &Vec<u8>, b: &Vec<u8>) -> (result: bool)
    ensures
        result == key_before(a@, b@),
{
    let mut i: usize = 0;
    assert(a@.skip(0) =~= a@ && b@.skip(0) =~= b@);
    while i < a.len() && i < b.len()
        invariant
            i <= a@.len(),
            i <= b@.len(),
            key_before(a@, b@) == key_before(a@.skip(i as int), b@.skip(i as int)),
        decreases a@.len() - i,
    {
        if a[i] != b[i] {
            return a[i] < b[i];
        }
        assert(a@.skip(i as int).skip(1) =~= a@.skip(i + 1));
        assert(b@.skip(i as int).skip(1) =~= b@.skip(i + 1));
        i = i + 1;
    }
    i < b.len()
}

/// Keys are totally ordered.
pub proof fn lemma_key_order(a: Seq<u8>, b: Seq<u8>, c: Seq<u8>)
    ensures
        !key_before(b, a) && !key_before(c, b) ==> !key_before(c, a),
        key_before(a, b) ==> !key_before(b, a),
        a != b ==> key_before(a, b) || key_before(b, a),
        !key_before(a, a),
    decreases a.len() + b.len() + c.len(),
{
    if a.len() > 0 {
        let empty = Seq::<u8>::empty();
        let b1 = if b.len() > 0 {
            b.skip(1)
        } else {
            empty
        };
        let c1 = if c.len() > 0 {
            c.skip(1)
        } else {
            empty
        };
        lemma_key_order(a.skip(1), b1, c1);
        if b.len() > 0 && a[0] == b[0] && a.skip(1) == b.skip(1) {
            assert(a =~= b) by {
                assert forall|i: int| 0 <= i < a.len() implies a[i] == b[i] by {
                    if i > 0 {
                        assert(a.skip(1)[i - 1] == b.skip(1)[i - 1]);
                    }
                }
                assert(a.skip(1).len() == b.skip(1).len());
            }
        }
    } else if b.len() == 0 {
        assert(a =~= b);
    }
}

} // verus!
