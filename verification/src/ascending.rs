//! Ascending listings: the one way to write a finite set of operator ids down
//! as a sequence, smallest first and each id once.

use std::collections::HashMap;

use vstd::prelude::*;

verus! {

broadcast use vstd::std_specs::hash::group_hash_axioms;

/// Each element is smaller than every later one.
pub open spec fn strictly_increasing(s: Seq<usize>) -> bool {
    forall|i: int, j: int| 0 <= i < j < s.len() ==> s[i] < s[j]
}

/// `s` lists the elements of `set`, smallest first and each once.
pub open spec fn lists(s: Seq<usize>, set: Set<usize>) -> bool {
    &&& strictly_increasing(s)
    &&& s.to_set() == set
}

/// The elements of a finite set, smallest first and each once.
pub open spec fn listing(set: Set<usize>) -> Seq<usize> {
    choose|s: Seq<usize>| lists(s, set)
}

/// A set has at most one ascending listing.
pub proof fn listing_is_unique(a: Seq<usize>, b: Seq<usize>, set: Set<usize>)
    requires
        lists(a, set),
        lists(b, set),
    ensures
        a == b,
    decreases a.len(),
{
    if a.len() == 0 {
        if b.len() > 0 {
            assert(b.to_set().contains(b[0]));
            assert(a.to_set().contains(b[0]));
        }
        assert(a =~= b);
    } else {
        assert(a.to_set().contains(a.last()));
        assert(b.to_set().contains(a.last()));
        assert(b.len() > 0);
        assert(b.to_set().contains(b.last()));
        assert(a.to_set().contains(b.last()));
        assert(a.last() == b.last());
        let x = a.last();
        assert(lists(a.drop_last(), set.remove(x))) by {
            lemma_drop_largest(a, set);
        }
        assert(lists(b.drop_last(), set.remove(x))) by {
            lemma_drop_largest(b, set);
        }
        listing_is_unique(a.drop_last(), b.drop_last(), set.remove(x));
        assert(a =~= a.drop_last().push(x));
        assert(b =~= b.drop_last().push(x));
    }
}

proof fn lemma_drop_largest(s: Seq<usize>, set: Set<usize>)
    requires
        lists(s, set),
        s.len() > 0,
    ensures
        lists(s.drop_last(), set.remove(s.last())),
{
    let front = s.drop_last();
    assert forall|y: usize| front.to_set().contains(y) <==> set.remove(s.last()).contains(y) by {
        if front.to_set().contains(y) {
            let k = choose|k: int| 0 <= k < front.len() && front[k] == y;
            assert(s[k] == y);
            assert(s.to_set().contains(y));
        }
        if set.remove(s.last()).contains(y) {
            assert(s.to_set().contains(y));
            let k = choose|k: int| 0 <= k < s.len() && s[k] == y;
            assert(front[k] == y);
        }
    }
    assert(front.to_set() =~= set.remove(s.last()));
}

/// Any listing of a set is the one that [`listing`] names.
pub proof fn lemma_is_listing(s: Seq<usize>, set: Set<usize>)
    requires
        lists(s, set),
    ensures
        s == listing(set),
{
    listing_is_unique(s, listing(set), set);
}

/// Every finite set has an ascending listing.
pub proof fn lemma_listing_lists(set: Set<usize>)
    requires
        set.finite(),
    ensures
        lists(listing(set), set),
        listing(set).len() == set.len(),
{
    let s = listing_witness(set);
    lemma_is_listing(s, set);
    assert(s.no_duplicates());
    s.unique_seq_to_set();
}

proof fn listing_witness(set: Set<usize>) -> (s: Seq<usize>)
    requires
        set.finite(),
    ensures
        lists(s, set),
    decreases set.len(),
{
    if set.len() == 0 {
        let s = Seq::<usize>::empty();
        assert(s.to_set() =~= set);
        s
    } else {
        let r = |a: usize, b: usize| a <= b;
        let top = set.find_unique_maximal(r);
        set.find_unique_maximal_ensures(r);
        let below = listing_witness(set.remove(top));
        let s = below.push(top);
        assert forall|i: int, j: int| 0 <= i < j < s.len() implies s[i] < s[j] by {
            if j == below.len() {
                assert(below.to_set().contains(below[i]));
                assert(set.remove(top).contains(s[i]));
                assert(r(top, s[i]) ==> r(s[i], top));
            }
        }
        assert forall|y: usize| s.to_set().contains(y) <==> set.contains(y) by {
            if s.to_set().contains(y) {
                let k = choose|k: int| 0 <= k < s.len() && s[k] == y;
                if k < below.len() {
                    assert(below[k] == y);
                    assert(below.to_set().contains(y));
                }
            }
            if set.contains(y) {
                if y == top {
                    assert(s[below.len() as int] == y);
                } else {
                    assert(below.to_set().contains(y));
                    let k = choose|k: int| 0 <= k < below.len() && below[k] == y;
                    assert(s[k] == y);
                }
            }
        }
        assert(s.to_set() =~= set);
        s
    }
}

/// Adds `value` to an ascending listing, if it is not in it.
pub fn insert(list: &mut Vec<usize>, value: usize)
    requires
        strictly_increasing(old(list)@),
    ensures
        lists(final(list)@, old(list)@.to_set().insert(value)),
{
    let mut at: usize = 0;
    while at < list.len() && list[at] < value
        invariant
            at <= list.len(),
            list@ == old(list)@,
            forall|i: int| 0 <= i < at ==> list@[i] < value,
        decreases list.len() - at,
    {
        at = at + 1;
    }
    let ghost before = list@;
    let ghost set = before.to_set().insert(value);
    if at < list.len() && list[at] == value {
        assert(before.to_set().contains(before[at as int]));
        assert(before.to_set() =~= set);
    } else {
        list.insert(at, value);
        let ghost after = list@;
        assert forall|i: int, j: int| 0 <= i < j < after.len() implies after[i] < after[j] by {
            if at < before.len() && j > at {
                assert(before[at as int] <= before[j - 1]);
            }
        }
        assert forall|y: usize| after.to_set().contains(y) <==> set.contains(y) by {
            if after.to_set().contains(y) {
                let k = choose|k: int| 0 <= k < after.len() && after[k] == y;
                if k < at {
                    assert(before[k] == y);
                } else if k > at {
                    assert(before[k - 1] == y);
                }
            }
            if set.contains(y) {
                if y == value {
                    assert(after[at as int] == y);
                } else {
                    let k = choose|k: int| 0 <= k < before.len() && before[k] == y;
                    if k < at {
                        assert(after[k] == y);
                    } else {
                        assert(after[k + 1] == y);
                    }
                }
            }
        }
        assert(after.to_set() =~= set);
    }
}

/// Leaving elements out of a listing gives the listing of what stays.
pub proof fn lemma_filter_lists(s: Seq<usize>, set: Set<usize>, keep: spec_fn(usize) -> bool)
    requires
        lists(s, set),
    ensures
        lists(s.filter(keep), set.filter(keep)),
    decreases s.len(),
{
    reveal(Seq::filter);
    if s.len() == 0 {
        assert(s.filter(keep).to_set() =~= set.filter(keep)) by {
            assert forall|y: usize| !set.contains(y) by {
                assert(!s.to_set().contains(y));
            }
        }
    } else {
        let last = s.last();
        let front = s.drop_last();
        lemma_drop_largest(s, set);
        lemma_filter_lists(front, set.remove(last), keep);
        let kept = front.filter(keep);
        let all = s.filter(keep);
        assert forall|i: int| 0 <= i < kept.len() implies #[trigger] kept[i] < last by {
            assert(kept.to_set().contains(kept[i]));
            assert(front.to_set().contains(kept[i]));
            let k = choose|k: int| 0 <= k < front.len() && front[k] == kept[i];
            assert(s[k] < s[s.len() - 1]);
        }
        assert(s.to_set().contains(last));
        assert forall|y: usize| #[trigger] all.to_set().contains(y) <==> set.filter(keep).contains(
            y,
        ) by {
            assert(kept.to_set().contains(y) <==> set.remove(last).filter(keep).contains(y));
            if keep(last) {
                assert(all == kept.push(last));
                if all.to_set().contains(y) {
                    let k = choose|k: int| 0 <= k < all.len() && all[k] == y;
                    if k < kept.len() {
                        assert(kept[k] == y);
                        assert(kept.to_set().contains(y));
                    }
                }
                if kept.to_set().contains(y) {
                    let k = choose|k: int| 0 <= k < kept.len() && kept[k] == y;
                    assert(all[k] == y);
                }
                assert(all[kept.len() as int] == last);
            }
        }
        assert(all.to_set() =~= set.filter(keep));
    }
}

/// The keys of a map, smallest first.
pub fn keys<V>(map: &HashMap<usize, V>) -> (out: Vec<usize>)
    ensures
        lists(out@, map@.dom()),
{
    let mut out: Vec<usize> = Vec::new();
    let ghost mut visited: Seq<usize> = Seq::empty();
    assert(out@.to_set() =~= visited.to_set());
    for key in it: map.keys()
        invariant
            it.seq().unref().to_set() == map@.dom(),
            visited.len() == it.index(),
            forall|k: int| 0 <= k < it.index() ==> #[trigger] visited[k] == it.seq().unref()[k],
            it.index() == it.seq().len() ==> visited =~= it.seq().unref(),
            lists(out@, visited.to_set()),
    {
        assert(it.seq().unref()[it.index()] == *key);
        insert(&mut out, *key);
        proof {
            visited.lemma_push_to_set_commute(*key);
            visited = visited.push(*key);
        }
    }
    out
}

} // verus!
