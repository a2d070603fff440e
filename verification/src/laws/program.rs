//! What is recorded of a program, and how records and lists are read.

use vstd::prelude::*;

use crate::ascending;
use crate::graph;
use crate::ids;
use crate::ids::{ID_BUDGET, ID_CHARS};
use crate::ir;
use crate::ir::{HydroNode, IrOp, OpKind, RawOp};
use crate::naming;
use crate::types;
use crate::types::CapsysOperator;

verus! {

broadcast use vstd::std_specs::hash::group_hash_axioms;

/// The traversal visits the operator `op_id` at position `k`, and not again
/// later.
pub open spec fn last_visit(ops: Seq<IrOp>, op_id: usize, k: int) -> bool {
    &&& 0 <= k < ops.len()
    &&& ops[k].op_id == op_id
    &&& forall|later: int| k < later < ops.len() ==> (#[trigger] ops[later]).op_id != op_id
}

/// The last visit of an operator is what is recorded of it: its name by its
/// kind, its location, and whether it is a network node.
pub proof fn last_visit_is_recorded(ops: Seq<IrOp>, op_id: usize, k: int)
    requires
        last_visit(ops, op_id, k),
    ensures
        ir::raw_ops(ops).contains_key(op_id),
        ir::raw_ops(ops)[op_id].location == ops[k].location,
        ir::raw_ops(ops)[op_id].is_network <==> ops[k].kind == OpKind::Node(HydroNode::Network),
        ops[k].kind matches OpKind::Node(node) ==> ir::raw_ops(ops)[op_id].name
            == naming::node_name(node),
        ops[k].kind matches OpKind::Root(root) ==> ir::raw_ops(ops)[op_id].name
            == naming::root_name(root),
    decreases ops.len(),
{
    if k < ops.len() - 1 {
        let front = ops.drop_last();
        assert(front[k] == ops[k]);
        assert forall|later: int| k < later < front.len() implies (#[trigger] front[later]).op_id
            != op_id by {
            assert(front[later] == ops[later]);
        }
        last_visit_is_recorded(front, op_id, k);
        assert(ops[ops.len() - 1].op_id != op_id);
    }
}

/// Only what is visited is recorded, and everything visited has a last visit.
pub proof fn recorded_operators_were_visited(ops: Seq<IrOp>, op_id: usize) -> (k: int)
    ensures
        ir::raw_ops(ops).contains_key(op_id) <==> exists|n: int|
            0 <= n < ops.len() && (#[trigger] ops[n]).op_id == op_id,
        ir::raw_ops(ops).contains_key(op_id) ==> last_visit(ops, op_id, k),
    decreases ops.len(),
{
    if ops.len() == 0 {
        0
    } else {
        let front = ops.drop_last();
        let last = ops.len() - 1;
        let k = recorded_operators_were_visited(front, op_id);
        assert(ops[last] == ops.last());
        if ir::raw_ops(front).contains_key(op_id) {
            assert(ops[k] == front[k]);
        }
        if exists|n: int| 0 <= n < ops.len() && (#[trigger] ops[n]).op_id == op_id {
            let n = choose|n: int| 0 <= n < ops.len() && (#[trigger] ops[n]).op_id == op_id;
            if n < last {
                assert(front[n].op_id == op_id);
            }
        }
        if ops.last().op_id == op_id {
            last
        } else {
            assert forall|later: int|
                ir::raw_ops(ops).contains_key(op_id) && k < later < ops.len() implies (
            #[trigger] ops[later]).op_id != op_id by {
                if later < last {
                    assert(front[later] == ops[later]);
                }
            }
            k
        }
    }
}

/// An adjacency map is read list by list.
pub proof fn lists_are_read_as_they_stand(m: Map<usize, Vec<usize>>, key: usize)
    ensures
        graph::adjacency(m).contains_key(key) <==> m.contains_key(key),
        m.contains_key(key) ==> graph::adjacency(m)[key] == m[key]@,
{
}

/// Of a map from operators to their parents, inversion lists under a parent just
/// the operators that name it, smallest first; an operator that none names has
/// no list.
pub proof fn children_are_those_that_name_the_parent(
    parents: Map<usize, Seq<usize>>,
    parent: usize,
    child: usize,
)
    requires
        parents.dom().finite(),
    ensures
        graph::children_map(parents).contains_key(parent) <==> exists|c: usize|
            parents.contains_key(c) && (#[trigger] parents[c]).contains(parent),
        (graph::children_map(parents).contains_key(parent) && graph::children_map(
            parents,
        )[parent].contains(child)) <==> (parents.contains_key(child) && parents[child].contains(
            parent,
        )),
        graph::children_map(parents).contains_key(parent) ==> forall|a: int, b: int|
            0 <= a < b < graph::children_map(parents)[parent].len() ==> graph::children_map(
                parents,
            )[parent][a] < graph::children_map(parents)[parent][b],
{
    let all = graph::children_map(parents);
    let set = graph::children_of(parents, parent);
    assert(set.subset_of(parents.dom()));
    vstd::set_lib::lemma_len_subset(set, parents.dom());
    ascending::lemma_listing_lists(set);
    let s = ascending::listing(set);
    assert(s.contains(child) <==> s.to_set().contains(child));
    assert(set.contains(child) <==> (parents.contains_key(child) && parents[child].contains(
        parent,
    )));
    if exists|c: usize| parents.contains_key(c) && (#[trigger] parents[c]).contains(parent) {
        let c = choose|c: usize|
            parents.contains_key(c) && (#[trigger] parents[c]).contains(parent);
        assert(graph::is_edge(parents, parent, c));
    }
    if all.contains_key(parent) {
        let c = choose|c: usize| graph::is_edge(parents, parent, c);
        assert(parents.contains_key(c) && parents[c].contains(parent));
        assert(all[parent] == s);
    }
}

/// A listing has the elements of its set and no others, each smaller than every
/// later one; and any sequence of which that holds is a listing.
pub proof fn listings_are_ascending_and_complete(s: Seq<usize>, set: Set<usize>)
    ensures
        ascending::lists(s, set) <==> {
            &&& forall|a: int, b: int| 0 <= a < b < s.len() ==> s[a] < s[b]
            &&& forall|x: usize| set.contains(x) <==> s.contains(x)
        },
{
    if ascending::lists(s, set) {
        assert forall|x: usize| set.contains(x) <==> s.contains(x) by {
            assert(s.to_set().contains(x) <==> s.contains(x));
        }
    }
    if forall|x: usize| set.contains(x) <==> s.contains(x) {
        assert(s.to_set() =~= set);
    }
}

/// The identifiers are the lower case letters, the upper case letters and the
/// digits, each in their order, then the other printable characters but the
/// quotation mark and the backslash in the order of their codes, then the space.
pub proof fn identifiers_come_in_order()
    ensures
        ID_CHARS@.len() == 93,
        ID_BUDGET == 93,
        forall|i: int| 0 <= i < 26 ==> #[trigger] ID_CHARS@[i] as int == 'a' as int + i,
        forall|i: int| 26 <= i < 52 ==> #[trigger] ID_CHARS@[i] as int == 'A' as int + (i - 26),
        forall|i: int| 52 <= i < 62 ==> #[trigger] ID_CHARS@[i] as int == '0' as int + (i - 52),
        forall|i: int, j: int|
            62 <= i < j < 92 ==> #[trigger] ID_CHARS@[i] < #[trigger] ID_CHARS@[j],
        ID_CHARS@[92] == ' ',
        forall|c: char|
            ID_CHARS@.contains(c) <==> (' ' <= c <= '~' && c != '"' && c != '\\'),
{
    reveal_strlit(
        "abcdefghijklmnopqrstuvwxyzABCDEFGHIJKLMNOPQRSTUVWXYZ0123456789!#$%&'()*+,-./:;<=>?@[]^_`{|}~ ",
    );
    ids::id_chars_are_unique_and_plain();
    assert forall|c: char| ID_CHARS@.contains(c) <==> (' ' <= c <= '~' && c != '"' && c != '\\') by {
        assert(ID_CHARS@.contains(c) <==> ids::is_plain(c));
    }
}

/// Each operator of an ascending list, and no other, has an identifier: the
/// character at the operator's position.
pub proof fn identifiers_are_given_by_position(retained: Seq<usize>, i: int, op_id: usize)
    requires
        forall|a: int, b: int| 0 <= a < b < retained.len() ==> retained[a] < retained[b],
    ensures
        ids::id_map(retained).contains_key(op_id) <==> retained.contains(op_id),
        0 <= i < retained.len() ==> ids::id_map(retained)[retained[i]] == seq![ID_CHARS@[i]],
{
    if 0 <= i < retained.len() {
        assert(retained.contains(retained[i]));
        let k = retained.index_of(retained[i]);
        assert(retained[k] == retained[i]);
        assert(k == i);
    }
}

/// The identifiers of a list come in the list's order, one for each place that
/// holds an operator with an identifier.
pub proof fn identifiers_of_a_list_keep_its_order(
    names: Map<usize, Seq<char>>,
    op_ids: Seq<usize>,
    op_id: usize,
)
    ensures
        ids::ids_of(names, Seq::empty()) == Seq::<Seq<char>>::empty(),
        names.contains_key(op_id) ==> ids::ids_of(names, op_ids.push(op_id)) == ids::ids_of(
            names,
            op_ids,
        ).push(names[op_id]),
        !names.contains_key(op_id) ==> ids::ids_of(names, op_ids.push(op_id)) == ids::ids_of(
            names,
            op_ids,
        ),
{
    assert(op_ids.push(op_id).drop_last() =~= op_ids);
}

/// The parts of an emitted record are read as they stand.
pub proof fn records_are_read_as_they_stand(op: CapsysOperator, n: int)
    ensures
        op@.id == op.id@,
        op@.name == op.name@,
        op@.parallelism == op.parallelism,
        op@.state.bits == op.state.bits,
        op@.compute.bits == op.compute.bits,
        op@.network.bits == op.network.bits,
        op@.outboundtype == op.outboundtype@,
        op@.down_node.len() == op.down_node@.len(),
        op@.up_node.len() == op.up_node@.len(),
        0 <= n < op.down_node@.len() ==> op@.down_node[n] == op.down_node@[n]@,
        0 <= n < op.up_node@.len() ==> op@.up_node[n] == op.up_node@[n]@,
{
}

/// Lists and maps of records are read member by member.
pub proof fn collections_are_read_member_by_member(
    operators: Seq<CapsysOperator>,
    strings: Seq<String>,
    raw_ops: Map<usize, RawOp>,
    names: Map<usize, String>,
    n: int,
    key: usize,
)
    ensures
        types::operators_view(operators).len() == operators.len(),
        0 <= n < operators.len() ==> types::operators_view(operators)[n] == operators[n]@,
        types::strings_view(strings).len() == strings.len(),
        0 <= n < strings.len() ==> types::strings_view(strings)[n] == strings[n]@,
        ir::raw_view(raw_ops).contains_key(key) <==> raw_ops.contains_key(key),
        raw_ops.contains_key(key) ==> {
            &&& ir::raw_view(raw_ops)[key].name == raw_ops[key].name@
            &&& ir::raw_view(raw_ops)[key].location == raw_ops[key].location
            &&& ir::raw_view(raw_ops)[key].is_network == raw_ops[key].is_network
        },
        ids::ids_view(names).contains_key(key) <==> names.contains_key(key),
        names.contains_key(key) ==> ids::ids_view(names)[key] == names[key]@,
{
}

} // verus!
