//! What each emitted operator says of the program it comes from.

use vstd::prelude::*;

use crate::ascending;
use crate::converter;
use crate::converter::{ConvertOptions, NetworkQuery};
use crate::costs::ILPAnalysisInputs;
use crate::graph;
use crate::ids;
use crate::ids::{ID_BUDGET, ID_CHARS};
use crate::ir;
use crate::ir::{HydroIr, HydroNode, OpKind, RawOpView};
use crate::laws;
use crate::laws::program;
use crate::location::LocationId;
use crate::naming;

verus! {

broadcast use vstd::std_specs::hash::group_hash_axioms;

/// `child` names `parent` among the operators that it reads from.
pub open spec fn reads_from(ir: HydroIr, child: usize, parent: usize) -> bool {
    ir.parents@.contains_key(child) && ir.parents@[child]@.contains(parent)
}

/// The figure is 0.0 or -0.0.
pub open spec fn is_zero_pattern(bits: u64) -> bool {
    bits == 0 || bits == 0x8000_0000_0000_0000
}

/// The list of children holds just the operators that read from the parent, in
/// ascending order.
pub proof fn children_are_the_readers(ir: HydroIr, parent: usize, child: usize)
    ensures
        converter::children(ir, parent).contains(child) <==> reads_from(ir, child, parent),
        converter::children(ir, parent).len() > 0 <==> exists|c: usize| reads_from(ir, c, parent),
        forall|a: int, b: int|
            0 <= a < b < converter::children(ir, parent).len() ==> converter::children(
                ir,
                parent,
            )[a] < converter::children(ir, parent)[b],
{
    let parents = graph::adjacency(ir.parents@);
    assert(parents.dom() =~= ir.parents@.dom());
    let below = converter::children(ir, parent);
    program::children_are_those_that_name_the_parent(parents, parent, child);
    if below.len() > 0 {
        let c = below[0];
        assert(below.contains(c));
        program::children_are_those_that_name_the_parent(parents, parent, c);
        assert(reads_from(ir, c, parent));
    }
    if exists|c: usize| reads_from(ir, c, parent) {
        let c = choose|c: usize| reads_from(ir, c, parent);
        program::children_are_those_that_name_the_parent(parents, parent, c);
        assert(below.contains(c));
    }
}

/// The operators are emitted in ascending order of their ids, one for each id
/// that is retained.
pub proof fn operators_are_emitted_in_ascending_order(
    ir: HydroIr,
    inputs: ILPAnalysisInputs,
    location_info: Map<LocationId, (Seq<char>, usize)>,
    options: ConvertOptions,
    a: int,
    b: int,
)
    ensures
        converter::operators(ir, inputs, location_info, options).len() == converter::retained(
            ir,
            inputs,
            options,
        ).len(),
        0 <= a < b < converter::retained(ir, inputs, options).len() ==> converter::retained(
            ir,
            inputs,
            options,
        )[a] < converter::retained(ir, inputs, options)[b],
        0 <= a < converter::retained(ir, inputs, options).len() ==> converter::operators(
            ir,
            inputs,
            location_info,
            options,
        )[a].id == seq![ID_CHARS@[a]],
{
    laws::retained_lists_the_retained(ir, inputs, options);
    if 0 <= a < converter::retained(ir, inputs, options).len() {
        laws::ids_follow_the_order_of_operators(ir, inputs, location_info, options, a);
    }
}

/// Nothing is emitted that was not visited.
pub proof fn emitted_operators_were_visited(
    ir: HydroIr,
    inputs: ILPAnalysisInputs,
    options: ConvertOptions,
    op_id: usize,
)
    requires
        converter::retained(ir, inputs, options).contains(op_id),
    ensures
        exists|k: int| program::last_visit(ir.ops@, op_id, k),
{
    laws::retained_lists_the_retained(ir, inputs, options);
    let k = program::recorded_operators_were_visited(ir.ops@, op_id);
    assert(program::last_visit(ir.ops@, op_id, k));
}

/// An operator that was visited is emitted if leaves are not dropped, or if
/// another reads from it.
pub proof fn readers_keep_an_operator(
    ir: HydroIr,
    inputs: ILPAnalysisInputs,
    options: ConvertOptions,
    op_id: usize,
    k: int,
    child: usize,
)
    requires
        program::last_visit(ir.ops@, op_id, k),
        !options.drop_zero_cost_leaves || reads_from(ir, child, op_id),
    ensures
        converter::retained(ir, inputs, options).contains(op_id),
{
    laws::retained_lists_the_retained(ir, inputs, options);
    program::last_visit_is_recorded(ir.ops@, op_id, k);
    children_are_the_readers(ir, op_id, child);
}

/// Where leaves are dropped, a visited operator that none reads from is emitted
/// exactly if a figure of its demand has a bit set other than the sign: of its
/// measured load, else of the table's answer where the table is consulted. One of
/// which nothing is known is left out.
pub proof fn demand_keeps_a_leaf(
    ir: HydroIr,
    inputs: ILPAnalysisInputs,
    options: ConvertOptions,
    op_id: usize,
    k: int,
)
    requires
        options.drop_zero_cost_leaves,
        program::last_visit(ir.ops@, op_id, k),
        forall|child: usize| !reads_from(ir, child, op_id),
    ensures
        inputs.per_op_load@.contains_key(op_id) ==> {
            let load = inputs.per_op_load@[op_id];
            converter::retained(ir, inputs, options).contains(op_id) <==> (!is_zero_pattern(
                load.cpu.bits,
            ) || !is_zero_pattern(load.memory.bits) || !is_zero_pattern(load.network.bits))
        },
        !inputs.per_op_load@.contains_key(op_id) ==> {
            let answer = inputs.network_costs@[op_id];
            converter::retained(ir, inputs, options).contains(op_id) <==> {
                &&& ir.ops@[k].kind == OpKind::Node(HydroNode::Network)
                &&& inputs.op_counts@.contains_key(op_id) && inputs.op_counts@[op_id] > 0
                &&& inputs.op_output_sizes@.contains_key(op_id) && inputs.op_output_sizes@[op_id] > 0
                &&& inputs.network_costs@.contains_key(op_id)
                &&& !is_zero_pattern(answer.cpu.bits) || !is_zero_pattern(answer.memory.bits)
                    || !is_zero_pattern(answer.network.bits)
            }
        },
{
    laws::retained_lists_the_retained(ir, inputs, options);
    program::last_visit_is_recorded(ir.ops@, op_id, k);
    children_are_the_readers(ir, op_id, op_id);
}

/// The demands of an operator of any kind are the memory, the processor and the
/// network figure of its measured load; without one, of what the table answered
/// where it is consulted; else zero.
pub proof fn demands_are_those_of_the_load(
    ir: HydroIr,
    inputs: ILPAnalysisInputs,
    location_info: Map<LocationId, (Seq<char>, usize)>,
    options: ConvertOptions,
    i: int,
    k: int,
)
    requires
        0 <= i < converter::operators(ir, inputs, location_info, options).len(),
        program::last_visit(ir.ops@, converter::retained(ir, inputs, options)[i], k),
    ensures
        ({
            let op_id = converter::retained(ir, inputs, options)[i];
            let op = converter::operators(ir, inputs, location_info, options)[i];
            let measured = inputs.per_op_load@[op_id];
            let answer = inputs.network_costs@[op_id];
            let consulted = ir.ops@[k].kind == OpKind::Node(HydroNode::Network)
                && inputs.op_counts@.contains_key(op_id) && inputs.op_counts@[op_id] > 0
                && inputs.op_output_sizes@.contains_key(op_id)
                && inputs.op_output_sizes@[op_id] > 0;
            &&& inputs.per_op_load@.contains_key(op_id) ==> {
                &&& op.state.bits == measured.memory.bits
                &&& op.compute.bits == measured.cpu.bits
                &&& op.network.bits == measured.network.bits
            }
            &&& !inputs.per_op_load@.contains_key(op_id) && consulted
                && inputs.network_costs@.contains_key(op_id) ==> {
                &&& op.state.bits == answer.memory.bits
                &&& op.compute.bits == answer.cpu.bits
                &&& op.network.bits == answer.network.bits
            }
            &&& !inputs.per_op_load@.contains_key(op_id) && !(consulted
                && inputs.network_costs@.contains_key(op_id)) ==> {
                &&& op.state.bits == 0
                &&& op.compute.bits == 0
                &&& op.network.bits == 0
            }
        }),
{
    let op_id = converter::retained(ir, inputs, options)[i];
    program::last_visit_is_recorded(ir.ops@, op_id, k);
}

/// An operator is called by its kind, within the limit on names.
pub proof fn operators_are_called_by_their_kind(
    ir: HydroIr,
    inputs: ILPAnalysisInputs,
    location_info: Map<LocationId, (Seq<char>, usize)>,
    options: ConvertOptions,
    i: int,
    k: int,
)
    requires
        0 <= i < converter::operators(ir, inputs, location_info, options).len(),
        program::last_visit(ir.ops@, converter::retained(ir, inputs, options)[i], k),
    ensures
        ({
            let op = converter::operators(ir, inputs, location_info, options)[i];
            let name = match ir.ops@[k].kind {
                OpKind::Root(root) => naming::root_name(root),
                OpKind::Node(node) => naming::node_name(node),
            };
            match options.name_max_len {
                None => op.name == name,
                Some(n) => {
                    &&& op.name.len() <= n
                    &&& name.len() <= n ==> op.name == name
                    &&& name.len() > n ==> op.name == naming::shortened(name, Some(n))
                },
            }
        }),
{
    let op_id = converter::retained(ir, inputs, options)[i];
    program::last_visit_is_recorded(ir.ops@, op_id, k);
}

/// An operator runs with the size that is entered for the root of its location,
/// whatever the default; where none is entered, it runs with the default.
pub proof fn parallelism_is_the_entered_size(
    ir: HydroIr,
    inputs: ILPAnalysisInputs,
    location_info: Map<LocationId, (Seq<char>, usize)>,
    options: ConvertOptions,
    i: int,
    k: int,
    other_default: usize,
)
    requires
        0 <= i < converter::operators(ir, inputs, location_info, options).len(),
        program::last_visit(ir.ops@, converter::retained(ir, inputs, options)[i], k),
    ensures
        ({
            let root = ir.ops@[k].location.spec_root();
            let op = converter::operators(ir, inputs, location_info, options)[i];
            let changed = ConvertOptions { default_parallelism: other_default, ..options };
            let other = converter::operators(ir, inputs, location_info, changed)[i];
            &&& location_info.contains_key(root) ==> op.parallelism == location_info[root].1
            &&& location_info.contains_key(root) ==> other.parallelism == op.parallelism
            &&& !location_info.contains_key(root) ==> op.parallelism == options.default_parallelism
            &&& !location_info.contains_key(root) ==> other.parallelism == other_default
        }),
{
    let changed = ConvertOptions { default_parallelism: other_default, ..options };
    let op_id = converter::retained(ir, inputs, options)[i];
    program::last_visit_is_recorded(ir.ops@, op_id, k);
    assert(Set::new(|x: usize| converter::is_retained(ir, inputs, options, x)) =~= Set::new(
        |x: usize| converter::is_retained(ir, inputs, changed, x),
    ));
    assert(converter::retained(ir, inputs, changed) == converter::retained(ir, inputs, options));
}

/// The outbound type of any list of children: `REBALANCE` exactly if one of them,
/// at whatever position, was recorded in another root location; empty exactly if
/// there is none; else `FORWARD`.
pub proof fn outbound_type_asks_each_child(
    my_location: LocationId,
    children: Seq<usize>,
    raw_ops: Map<usize, RawOpView>,
)
    ensures
        converter::outbound_type(my_location, children, raw_ops) == "REBALANCE"@ <==> exists|n: int|
            0 <= n < children.len() && raw_ops.contains_key(#[trigger] children[n])
                && raw_ops[children[n]].location.spec_root() != my_location.spec_root(),
        converter::outbound_type(my_location, children, raw_ops) == "FORWARD"@ <==> (children.len()
            > 0 && forall|n: int|
            0 <= n < children.len() && raw_ops.contains_key(#[trigger] children[n])
                ==> raw_ops[children[n]].location.spec_root() == my_location.spec_root()),
        converter::outbound_type(my_location, children, raw_ops) == ""@ <==> children.len() == 0,
{
    reveal_strlit("");
    reveal_strlit("FORWARD");
    reveal_strlit("REBALANCE");
    assert(""@.len() == 0 && "FORWARD"@.len() == 7 && "REBALANCE"@.len() == 9);
    if exists|n: int|
        0 <= n < children.len() && raw_ops.contains_key(#[trigger] children[n])
            && raw_ops[children[n]].location.spec_root() != my_location.spec_root() {
        let n = choose|n: int|
            0 <= n < children.len() && raw_ops.contains_key(#[trigger] children[n])
                && raw_ops[children[n]].location.spec_root() != my_location.spec_root();
        assert(children.contains(children[n]));
    }
}

/// A child in another root location makes the outbound type `REBALANCE` wherever
/// it stands, and a child in the same one, or one that was not recorded, never
/// takes it back.
pub proof fn one_remote_child_is_enough(
    my_location: LocationId,
    children: Seq<usize>,
    raw_ops: Map<usize, RawOpView>,
    position: int,
    child: usize,
)
    requires
        0 <= position <= children.len(),
    ensures
        ({
            let before = converter::outbound_type(my_location, children, raw_ops);
            let after = converter::outbound_type(
                my_location,
                children.insert(position, child),
                raw_ops,
            );
            let remote = raw_ops.contains_key(child) && raw_ops[child].location.spec_root()
                != my_location.spec_root();
            &&& remote ==> after == "REBALANCE"@
            &&& before == "REBALANCE"@ ==> after == "REBALANCE"@
            &&& !remote && before != "REBALANCE"@ ==> after == "FORWARD"@
        }),
{
    let more = children.insert(position, child);
    outbound_type_asks_each_child(my_location, children, raw_ops);
    outbound_type_asks_each_child(my_location, more, raw_ops);
    assert(more[position] == child);
    if converter::outbound_type(my_location, children, raw_ops) == "REBALANCE"@ {
        let n = choose|n: int|
            0 <= n < children.len() && raw_ops.contains_key(#[trigger] children[n])
                && raw_ops[children[n]].location.spec_root() != my_location.spec_root();
        if n < position {
            assert(more[n] == children[n]);
        } else {
            assert(more[n + 1] == children[n]);
        }
    } else {
        assert forall|n: int|
            0 <= n < more.len() && raw_ops.contains_key(#[trigger] more[n]) && n != position implies
            raw_ops[more[n]].location.spec_root() == my_location.spec_root() by {
            if n < position {
                assert(more[n] == children[n]);
            } else {
                assert(more[n] == children[n - 1]);
            }
        }
    }
}

/// An emitted operator is `REBALANCE` exactly if an operator that reads from it
/// was last visited in another root location than it was; it has no outbound type
/// exactly if none reads from it; else it is `FORWARD`.
pub proof fn outbound_type_tells_where_readers_run(
    ir: HydroIr,
    inputs: ILPAnalysisInputs,
    location_info: Map<LocationId, (Seq<char>, usize)>,
    options: ConvertOptions,
    i: int,
    k: int,
)
    requires
        0 <= i < converter::operators(ir, inputs, location_info, options).len(),
        program::last_visit(ir.ops@, converter::retained(ir, inputs, options)[i], k),
    ensures
        ({
            let op_id = converter::retained(ir, inputs, options)[i];
            let op = converter::operators(ir, inputs, location_info, options)[i];
            let read = exists|child: usize| reads_from(ir, child, op_id);
            let remote = exists|child: usize, m: int|
                #![trigger program::last_visit(ir.ops@, child, m)]
                reads_from(ir, child, op_id) && program::last_visit(ir.ops@, child, m)
                    && ir.ops@[m].location.spec_root() != ir.ops@[k].location.spec_root();
            &&& op.outboundtype == "REBALANCE"@ <==> remote
            &&& op.outboundtype == ""@ <==> !read
            &&& op.outboundtype == "FORWARD"@ <==> read && !remote
        }),
{
    let op_id = converter::retained(ir, inputs, options)[i];
    let op = converter::operators(ir, inputs, location_info, options)[i];
    let raw_ops = ir::raw_ops(ir.ops@);
    let below = converter::children(ir, op_id);
    let here = ir.ops@[k].location;
    program::last_visit_is_recorded(ir.ops@, op_id, k);
    assert(op.outboundtype == converter::outbound_type(here, below, raw_ops));
    outbound_type_asks_each_child(here, below, raw_ops);
    children_are_the_readers(ir, op_id, op_id);
    reveal_strlit("");
    reveal_strlit("FORWARD");
    reveal_strlit("REBALANCE");
    assert(""@.len() == 0 && "FORWARD"@.len() == 7 && "REBALANCE"@.len() == 9);
    if op.outboundtype == "REBALANCE"@ {
        let n = choose|n: int|
            0 <= n < below.len() && raw_ops.contains_key(#[trigger] below[n])
                && raw_ops[below[n]].location.spec_root() != here.spec_root();
        let child = below[n];
        assert(below.contains(child));
        children_are_the_readers(ir, op_id, child);
        let m = program::recorded_operators_were_visited(ir.ops@, child);
        program::last_visit_is_recorded(ir.ops@, child, m);
        assert(reads_from(ir, child, op_id) && program::last_visit(ir.ops@, child, m));
    }
    if exists|child: usize, m: int|
        #![trigger program::last_visit(ir.ops@, child, m)]
        reads_from(ir, child, op_id) && program::last_visit(ir.ops@, child, m)
            && ir.ops@[m].location.spec_root() != here.spec_root() {
        let (child, m) = choose|child: usize, m: int|
            #![trigger program::last_visit(ir.ops@, child, m)]
            reads_from(ir, child, op_id) && program::last_visit(ir.ops@, child, m)
                && ir.ops@[m].location.spec_root() != here.spec_root();
        program::last_visit_is_recorded(ir.ops@, child, m);
        children_are_the_readers(ir, op_id, child);
        let n = choose|n: int| 0 <= n < below.len() && below[n] == child;
        assert(raw_ops.contains_key(below[n]));
    }
}

/// One emitted operator stands downstream of another, and the other upstream of
/// it, exactly if it reads from the other.
pub proof fn edges_join_readers_to_what_they_read(
    ir: HydroIr,
    inputs: ILPAnalysisInputs,
    location_info: Map<LocationId, (Seq<char>, usize)>,
    options: ConvertOptions,
    i: int,
    j: int,
)
    requires
        converter::retained(ir, inputs, options).len() <= ID_BUDGET,
        0 <= i < converter::operators(ir, inputs, location_info, options).len(),
        0 <= j < converter::operators(ir, inputs, location_info, options).len(),
    ensures
        ({
            let out = converter::operators(ir, inputs, location_info, options);
            let s = converter::retained(ir, inputs, options);
            &&& out[i].down_node.contains(out[j].id) <==> reads_from(ir, s[j], s[i])
            &&& out[j].up_node.contains(out[i].id) <==> reads_from(ir, s[j], s[i])
        }),
{
    laws::edges_are_listed_at_both_ends(ir, inputs, location_info, options, i, j);
    let s = converter::retained(ir, inputs, options);
    assert(graph::is_edge(graph::adjacency(ir.parents@), s[i], s[j]) <==> reads_from(
        ir,
        s[j],
        s[i],
    ));
}

/// Upstream of an operator stand the identifiers of the operators it reads from,
/// in the order and as often as it lists them; nothing does if it lists none.
pub proof fn upstream_follows_the_list_of_parents(
    ir: HydroIr,
    inputs: ILPAnalysisInputs,
    location_info: Map<LocationId, (Seq<char>, usize)>,
    options: ConvertOptions,
    i: int,
)
    requires
        0 <= i < converter::operators(ir, inputs, location_info, options).len(),
    ensures
        ({
            let s = converter::retained(ir, inputs, options);
            let op = converter::operators(ir, inputs, location_info, options)[i];
            &&& !ir.parents@.contains_key(s[i]) ==> op.up_node.len() == 0
            &&& ir.parents@.contains_key(s[i]) ==> op.up_node == ids::ids_of(
                ids::id_map(s),
                ir.parents@[s[i]]@,
            )
        }),
{
}

/// Downstream of an operator stand others in the order in which they are
/// emitted.
pub proof fn downstream_follows_the_order_of_emission(
    ir: HydroIr,
    inputs: ILPAnalysisInputs,
    location_info: Map<LocationId, (Seq<char>, usize)>,
    options: ConvertOptions,
    i: int,
    a: int,
    b: int,
) -> (found: (int, int))
    requires
        converter::retained(ir, inputs, options).len() <= ID_BUDGET,
        0 <= i < converter::operators(ir, inputs, location_info, options).len(),
        0 <= a < b < converter::operators(ir, inputs, location_info, options)[i].down_node.len(),
    ensures
        ({
            let out = converter::operators(ir, inputs, location_info, options);
            let (x, y) = found;
            &&& 0 <= x < y < out.len()
            &&& out[x].id == out[i].down_node[a]
            &&& out[y].id == out[i].down_node[b]
        }),
{
    let s = converter::retained(ir, inputs, options);
    let out = converter::operators(ir, inputs, location_info, options);
    let below = converter::children(ir, s[i]);
    let names = ids::id_map(s);
    children_are_the_readers(ir, s[i], s[i]);
    laws::retained_lists_the_retained(ir, inputs, options);
    let (p, q) = lemma_ids_of_positions(names, below, a, b);
    let x = s.index_of(below[p]);
    let y = s.index_of(below[q]);
    assert(s.contains(below[p]) && s.contains(below[q]));
    assert(s[x] == below[p] && s[y] == below[q]);
    (x, y)
}

/// Two places of a list of identifiers come from two places of the list of
/// operators, in the same order.
proof fn lemma_ids_of_positions(names: Map<usize, Seq<char>>, op_ids: Seq<usize>, a: int, b: int) -> (
    found: (int, int))
    requires
        0 <= a < b < ids::ids_of(names, op_ids).len(),
    ensures
        ({
            let (p, q) = found;
            &&& 0 <= p < q < op_ids.len()
            &&& names.contains_key(op_ids[p]) && names[op_ids[p]] == ids::ids_of(names, op_ids)[a]
            &&& names.contains_key(op_ids[q]) && names[op_ids[q]] == ids::ids_of(names, op_ids)[b]
        }),
    decreases op_ids.len(),
{
    let all = ids::ids_of(names, op_ids);
    let front = op_ids.drop_last();
    let last = op_ids.last();
    assert(op_ids =~= front.push(last));
    program::identifiers_of_a_list_keep_its_order(names, front, last);
    let some = ids::ids_of(names, front);
    if b < some.len() {
        let (p, q) = lemma_ids_of_positions(names, front, a, b);
        assert(op_ids[p] == front[p] && op_ids[q] == front[q]);
        (p, q)
    } else {
        let p = lemma_ids_of_position(names, front, a);
        assert(op_ids[p] == front[p]);
        (p, op_ids.len() - 1)
    }
}

/// A place of a list of identifiers comes from a place of the list of operators.
proof fn lemma_ids_of_position(names: Map<usize, Seq<char>>, op_ids: Seq<usize>, a: int) -> (p: int)
    requires
        0 <= a < ids::ids_of(names, op_ids).len(),
    ensures
        0 <= p < op_ids.len(),
        names.contains_key(op_ids[p]) && names[op_ids[p]] == ids::ids_of(names, op_ids)[a],
    decreases op_ids.len(),
{
    let front = op_ids.drop_last();
    let last = op_ids.last();
    assert(op_ids =~= front.push(last));
    program::identifiers_of_a_list_keep_its_order(names, front, last);
    if a < ids::ids_of(names, front).len() {
        let p = lemma_ids_of_position(names, front, a);
        assert(op_ids[p] == front[p]);
        p
    } else {
        op_ids.len() - 1
    }
}

/// The table is asked, in ascending order of the operators and once for each, for
/// just the visited network nodes without a measured load whose count and size
/// are recorded and positive, and for that count and that size.
pub proof fn table_is_asked_once_for_each_network_node(
    ir: HydroIr,
    inputs: ILPAnalysisInputs,
    op_id: usize,
    k: int,
    a: int,
    b: int,
)
    requires
        program::last_visit(ir.ops@, op_id, k),
    ensures
        ({
            let asked = converter::queried(ir, inputs);
            let query = converter::query_of(ir, inputs, op_id);
            &&& 0 <= a < b < asked.len() ==> asked[a] < asked[b]
            &&& asked.contains(op_id) <==> {
                &&& !inputs.per_op_load@.contains_key(op_id)
                &&& ir.ops@[k].kind == OpKind::Node(HydroNode::Network)
                &&& inputs.op_counts@.contains_key(op_id) && inputs.op_counts@[op_id] > 0
                &&& inputs.op_output_sizes@.contains_key(op_id) && inputs.op_output_sizes@[op_id] > 0
            }
            &&& asked.contains(op_id) ==> query == NetworkQuery {
                op_id,
                count: inputs.op_counts@[op_id],
                size: inputs.op_output_sizes@[op_id],
            }
        }),
{
    program::last_visit_is_recorded(ir.ops@, op_id, k);
    lemma_queried_lists(ir, inputs, op_id);
}

/// Nothing is asked for an operator that was not visited.
pub proof fn table_is_asked_for_visited_operators(ir: HydroIr, inputs: ILPAnalysisInputs, op_id: usize)
    requires
        converter::queried(ir, inputs).contains(op_id),
    ensures
        exists|k: int| program::last_visit(ir.ops@, op_id, k),
{
    lemma_queried_lists(ir, inputs, op_id);
    let k = program::recorded_operators_were_visited(ir.ops@, op_id);
    assert(program::last_visit(ir.ops@, op_id, k));
}

proof fn lemma_queried_lists(ir: HydroIr, inputs: ILPAnalysisInputs, op_id: usize)
    ensures
        ascending::strictly_increasing(converter::queried(ir, inputs)),
        converter::queried(ir, inputs).contains(op_id) <==> converter::is_queried(ir, inputs, op_id),
{
    let wanted = Set::new(|asked: usize| converter::is_queried(ir, inputs, asked));
    laws::lemma_raw_ops_finite(ir.ops@);
    assert(wanted.subset_of(ir::raw_ops(ir.ops@).dom()));
    vstd::set_lib::lemma_len_subset(wanted, ir::raw_ops(ir.ops@).dom());
    ascending::lemma_listing_lists(wanted);
    let s = converter::queried(ir, inputs);
    assert(s.contains(op_id) <==> s.to_set().contains(op_id));
    assert(wanted.contains(op_id) <==> converter::is_queried(ir, inputs, op_id));
}

} // verus!
