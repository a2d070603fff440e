//! The dataflow graph as maps from an operator id to the ids it is joined to.

use std::collections::HashMap;

use vstd::prelude::*;

use crate::ascending;

verus! {

broadcast use vstd::std_specs::hash::group_hash_axioms;

/// The contents of an adjacency map, list by list.
pub open spec fn adjacency(m: Map<usize, Vec<usize>>) -> Map<usize, Seq<usize>> {
    m.map_values(|v: Vec<usize>| v@)
}

/// `parent` is listed among the parents of `child`.
pub open spec fn is_edge(parents: Map<usize, Seq<usize>>, parent: usize, child: usize) -> bool {
    parents.contains_key(child) && parents[child].contains(parent)
}

/// The operators that list `parent` among their parents.
pub open spec fn children_of(parents: Map<usize, Seq<usize>>, parent: usize) -> Set<usize> {
    Set::new(|child: usize| is_edge(parents, parent, child))
}

/// For each operator that has a child, its children, smallest id first and
/// each once.
pub open spec fn children_map(parents: Map<usize, Seq<usize>>) -> Map<usize, Seq<usize>> {
    Map::new(
        |parent: usize| exists|child: usize| is_edge(parents, parent, child),
        |parent: usize| ascending::listing(children_of(parents, parent)),
    )
}

/// `out` holds, for each parent in `edges`, the ascending listing of its
/// children, and nothing for any other operator.
spec fn indexes(out: Map<usize, Vec<usize>>, edges: Set<(usize, usize)>) -> bool {
    &&& forall|p: usize, c: usize| #[trigger] edges.contains((p, c)) ==> out.contains_key(p)
    &&& forall|p: usize| #[trigger]
        out.contains_key(p) ==> {
            &&& out[p]@.len() > 0
            &&& ascending::lists(out[p]@, Set::new(|c: usize| edges.contains((p, c))))
        }
}

/// Records the edge from `parent` to `child`.
fn add_child(
    out: &mut HashMap<usize, Vec<usize>>,
    parent: usize,
    child: usize,
    Ghost(edges): Ghost<Set<(usize, usize)>>,
)
    requires
        indexes(old(out)@, edges),
    ensures
        indexes(final(out)@, edges.insert((parent, child))),
{
    let ghost before = out@;
    let mut children: Vec<usize> = match out.remove(&parent) {
        Some(children) => children,
        None => Vec::new(),
    };
    let ghost known = Set::new(|c: usize| edges.contains((parent, c)));
    assert(ascending::lists(children@, known)) by {
        if !before.contains_key(parent) {
            assert(children@.to_set() =~= known);
        }
    }
    ascending::insert(&mut children, child);
    let ghost listed = children@;
    out.insert(parent, children);
    proof {
        let more = edges.insert((parent, child));
        assert(known.insert(child) =~= Set::new(|c: usize| more.contains((parent, c))));
        assert(listed.to_set().contains(child));
        assert forall|p: usize| #[trigger] out@.contains_key(p) implies out@[p]@.len() > 0 && ascending::lists(
            out@[p]@,
            Set::new(|c: usize| more.contains((p, c))),
        ) by {
            if p != parent {
                assert(before.contains_key(p));
                assert(Set::new(|c: usize| more.contains((p, c))) =~= Set::new(
                    |c: usize| edges.contains((p, c)),
                ));
            }
        }
        assert forall|p: usize, c: usize| #[trigger] more.contains((p, c)) implies out@.contains_key(
            p,
        ) by {
            if p != parent {
                assert(edges.contains((p, c)));
            }
        }
    }
}

/// Turns the parents of each operator into the children of each operator.
///
/// An operator without a child has no entry. The children of the others are
/// listed smallest id first and each once, whatever the order and however often
/// the edge stands in `parents_map`.
pub fn invert_parents(parents_map: &HashMap<usize, Vec<usize>>) -> (out: HashMap<usize, Vec<usize>>)
    ensures
        adjacency(out@) == children_map(adjacency(parents_map@)),
{
    let ghost parents = adjacency(parents_map@);
    let mut out: HashMap<usize, Vec<usize>> = HashMap::new();
    let ghost mut edges: Set<(usize, usize)> = Set::empty();
    let ghost mut visited: Seq<usize> = Seq::empty();
    for child in it: parents_map.keys()
        invariant
            parents == adjacency(parents_map@),
            it.seq().unref().to_set() == parents_map@.dom(),
            indexes(out@, edges),
            forall|p: usize, c: usize| #[trigger]
                edges.contains((p, c)) ==> is_edge(parents, p, c),
            visited.len() == it.index(),
            forall|k: int| 0 <= k < it.index() ==> #[trigger] visited[k] == it.seq().unref()[k],
            forall|p: usize, c: usize|
                visited.contains(c) && is_edge(parents, p, c) ==> #[trigger] edges.contains((p, c)),
            it.index() == it.seq().len() ==> visited =~= it.seq().unref(),
    {
        assert(it.seq().unref()[it.index()] == *child);
        assert(it.seq().unref().to_set().contains(*child));
        let listed: &Vec<usize> = match parents_map.get(child) {
            Some(listed) => listed,
            None => {
                assert(false);
                return out;
            },
        };
        assert(parents[*child] == listed@);
        let ghost earlier = edges;
        for i in 0..listed.len()
            invariant
                parents.contains_key(*child),
                parents[*child] == listed@,
                indexes(out@, edges),
                earlier.subset_of(edges),
                forall|p: usize, c: usize| #[trigger]
                    edges.contains((p, c)) ==> is_edge(parents, p, c),
                forall|k: int| 0 <= k < i ==> edges.contains((#[trigger] listed@[k], *child)),
        {
            add_child(&mut out, listed[i], *child, Ghost(edges));
            proof {
                edges = edges.insert((listed@[i as int], *child));
                assert(parents[*child].contains(listed@[i as int]));
            }
        }
        proof {
            let next = visited.push(*child);
            assert forall|p: usize, c: usize|
                next.contains(c) && is_edge(parents, p, c) implies #[trigger] edges.contains((p, c)) by {
                let k = choose|k: int| 0 <= k < next.len() && next[k] == c;
                if k < visited.len() {
                    assert(visited[k] == c);
                    assert(earlier.contains((p, c)));
                } else {
                    let n = choose|n: int| 0 <= n < listed@.len() && listed@[n] == p;
                    assert(edges.contains((listed@[n], *child)));
                }
            }
            visited = next;
        }
    }
    proof {
        assert forall|p: usize, c: usize| is_edge(parents, p, c) implies #[trigger] edges.contains(
            (p, c),
        ) by {
            assert(visited.to_set().contains(c));
        }
        lemma_indexed_is_children_map(out@, edges, parents);
    }
    out
}

proof fn lemma_indexed_is_children_map(
    out: Map<usize, Vec<usize>>,
    edges: Set<(usize, usize)>,
    parents: Map<usize, Seq<usize>>,
)
    requires
        indexes(out, edges),
        forall|p: usize, c: usize| #[trigger] edges.contains((p, c)) <==> is_edge(parents, p, c),
    ensures
        adjacency(out) == children_map(parents),
{
    let goal = children_map(parents);
    assert forall|p: usize| #[trigger] adjacency(out).contains_key(p) <==> goal.contains_key(p) by {
        if out.contains_key(p) {
            let c = out[p]@[0];
            assert(out[p]@.to_set().contains(c));
            assert(edges.contains((p, c)));
            assert(is_edge(parents, p, c));
        }
        if goal.contains_key(p) {
            let c = choose|c: usize| is_edge(parents, p, c);
            assert(edges.contains((p, c)));
        }
    }
    assert forall|p: usize| #[trigger] adjacency(out).contains_key(p) implies adjacency(out)[p]
        == goal[p] by {
        assert(Set::new(|c: usize| edges.contains((p, c))) =~= children_of(parents, p));
        ascending::lemma_is_listing(out[p]@, children_of(parents, p));
    }
    assert(adjacency(out) =~= goal);
}

} // verus!
