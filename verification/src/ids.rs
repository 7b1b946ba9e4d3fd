//! Identifiers and ordered sets of them.

use vstd::prelude::*;

verus! {

pub type InstanceId = u128;

pub type OwnerEpoch = u128;

pub open spec fn strictly_increasing(ids: Seq<u128>) -> bool {
    forall|i: int, j: int| 0 <= i < j < ids.len() ==> ids[i] < ids[j]
}

/// `ids` lists exactly the members of a set, in increasing order.
pub open spec fn lists_in_order(ids: Seq<u128>, members: Set<u128>) -> bool {
    strictly_increasing(ids) && ids.to_set() == members
}

/// A set has one listing in increasing order.
pub proof fn lemma_listing_unique(left: Seq<u128>, right: Seq<u128>)
    requires
        strictly_increasing(left),
        strictly_increasing(right),
        left.to_set() == right.to_set(),
    ensures
        left == right,
    decreases left.len(),
{
    if left.len() == 0 {
        if right.len() > 0 {
            assert(right.to_set().contains(right[0]));
            assert(left.contains(right[0]));
        }
        assert(left =~= right);
    } else {
        assert(left.to_set().contains(left[0]));
        assert(right.contains(left[0]));
        let a = left.last();
        let b = right.last();
        assert(left.to_set().contains(a) && right.to_set().contains(b));
        assert(right.contains(a) && left.contains(b));
        let i = right.index_of(a);
        let j = left.index_of(b);
        assert(a == b);
        let l = left.drop_last();
        let r = right.drop_last();
        assert forall|x: u128| l.to_set().contains(x) == r.to_set().contains(x) by {
            if l.contains(x) {
                let k = l.index_of(x);
                assert(left[k] == x && x < a);
                assert(left.to_set().contains(x));
                assert(right.contains(x));
                let m = right.index_of(x);
                assert(r[m] == x);
            }
            if r.contains(x) {
                let k = r.index_of(x);
                assert(right[k] == x && x < b);
                assert(right.to_set().contains(x));
                assert(left.contains(x));
                let m = left.index_of(x);
                assert(l[m] == x);
            }
        }
        assert(l.to_set() =~= r.to_set());
        lemma_listing_unique(l, r);
        assert(left =~= l.push(a));
        assert(right =~= r.push(b));
    }
}

/// Adds an identifier to an increasing listing.
fn insert_in_order(ids: &mut Vec<u128>, id: u128)
    requires
        strictly_increasing(old(ids)@),
    ensures
        lists_in_order(final(ids)@, old(ids)@.to_set().insert(id)),
{
    let mut position: usize = 0;
    while position < ids.len() && ids[position] < id
        invariant
            position <= ids.len(),
            strictly_increasing(ids@),
            forall|i: int| 0 <= i < position ==> ids@[i] < id,
        decreases ids.len() - position,
    {
        position += 1;
    }
    if position < ids.len() && ids[position] == id {
        assert(ids@.to_set() =~= ids@.to_set().insert(id)) by {
            assert(ids@.contains(ids@[position as int]));
        }
        return;
    }
    let ghost before = ids@;
    ids.insert(position, id);
    proof {
        let p = position as int;
        assert(ids@ == before.insert(p, id));
        assert forall|x: u128| ids@.to_set().contains(x) == before.to_set().insert(id).contains(
            x,
        ) by {
            if ids@.contains(x) {
                let k = ids@.index_of(x);
                if k < p {
                    assert(before[k] == x);
                } else if k > p {
                    assert(before[k - 1] == x);
                }
            }
            if before.contains(x) {
                let k = before.index_of(x);
                if k < p {
                    assert(ids@[k] == x);
                } else {
                    assert(ids@[k + 1] == x);
                }
            }
            assert(ids@[p] == id);
        }
        assert(ids@.to_set() =~= before.to_set().insert(id));
    }
}

/// Lists the members of `ids` in increasing order, each once.
pub fn sorted_without_duplicates(ids: &Vec<u128>) -> (sorted: Vec<u128>)
    ensures
        lists_in_order(sorted@, ids@.to_set()),
{
    let mut sorted: Vec<u128> = Vec::new();
    let mut index: usize = 0;
    assert(ids@.take(0).to_set() =~= Set::<u128>::empty());
    assert(sorted@.to_set() =~= Set::<u128>::empty());
    while index < ids.len()
        invariant
            index <= ids.len(),
            lists_in_order(sorted@, ids@.take(index as int).to_set()),
        decreases ids.len() - index,
    {
        let ghost seen = ids@.take(index as int);
        insert_in_order(&mut sorted, ids[index]);
        proof {
            let next = ids@.take(index + 1);
            assert(next =~= seen.push(ids@[index as int]));
            assert forall|x: u128| next.to_set().contains(x) == seen.to_set().insert(
                ids@[index as int],
            ).contains(x) by {
                if seen.contains(x) {
                    let k = seen.index_of(x);
                    assert(next[k] == x);
                }
                if next.contains(x) {
                    let k = next.index_of(x);
                    if k < index {
                        assert(seen[k] == x);
                    }
                }
                assert(next[index as int] == ids@[index as int]);
            }
            assert(next.to_set() =~= seen.to_set().insert(ids@[index as int]));
        }
        index += 1;
    }
    assert(ids@.take(ids@.len() as int) =~= ids@);
    sorted
}

/// Whether two listings are equal.
pub fn same_ids(left: &Vec<u128>, right: &Vec<u128>) -> (same: bool)
    ensures
        same == (left@ == right@),
{
    if left.len() != right.len() {
        return false;
    }
    let mut index: usize = 0;
    while index < left.len()
        invariant
            index <= left.len(),
            left.len() == right.len(),
            forall|i: int| 0 <= i < index ==> left@[i] == right@[i],
        decreases left.len() - index,
    {
        if left[index] != right[index] {
            return false;
        }
        index += 1;
    }
    assert(left@ =~= right@);
    true
}

/// A copy of a listing.
pub fn copy_ids(ids: &Vec<u128>) -> (copy: Vec<u128>)
    ensures
        copy@ == ids@,
{
    let mut copy: Vec<u128> = Vec::with_capacity(ids.len());
    let mut index: usize = 0;
    while index < ids.len()
        invariant
            index <= ids.len(),
            copy@ == ids@.take(index as int),
        decreases ids.len() - index,
    {
        copy.push(ids[index]);
        assert(ids@.take(index + 1) =~= ids@.take(index as int).push(ids@[index as int]));
        index += 1;
    }
    assert(ids@.take(ids@.len() as int) =~= ids@);
    copy
}

} // verus!
