//! What holds of the emitted graph as a whole.

use vstd::prelude::*;

use crate::ascending;
use crate::converter;
use crate::converter::ConvertOptions;
use crate::costs;
use crate::costs::ILPAnalysisInputs;
use crate::graph;
use crate::ids;
use crate::ids::{ID_BUDGET, ID_CHARS};
use crate::ir;
use crate::ir::HydroIr;
use crate::location;
use crate::location::LocationId;
use crate::naming;

pub mod emission;
pub mod figures;
pub mod names;
pub mod places;
pub mod program;

verus! {

broadcast use vstd::std_specs::hash::group_hash_axioms;

pub(crate) proof fn lemma_raw_ops_finite(ops: Seq<ir::IrOp>)
    ensures
        ir::raw_ops(ops).dom().finite(),
    decreases ops.len(),
{
    if ops.len() > 0 {
        lemma_raw_ops_finite(ops.drop_last());
    }
}

/// The emitted operators are the retained ones, smallest id first and each once.
pub proof fn retained_lists_the_retained(
    program: HydroIr,
    inputs: ILPAnalysisInputs,
    options: ConvertOptions,
)
    ensures
        ascending::strictly_increasing(converter::retained(program, inputs, options)),
        forall|op_id: usize| #[trigger]
            converter::retained(program, inputs, options).contains(op_id)
                <==> converter::is_retained(program, inputs, options, op_id),
{
    let wanted = Set::new(|op_id: usize| converter::is_retained(program, inputs, options, op_id));
    lemma_raw_ops_finite(program.ops@);
    assert(wanted.subset_of(ir::raw_ops(program.ops@).dom()));
    vstd::set_lib::lemma_len_subset(wanted, ir::raw_ops(program.ops@).dom());
    ascending::lemma_listing_lists(wanted);
    let s = converter::retained(program, inputs, options);
    assert forall|op_id: usize| #[trigger] s.contains(op_id) <==> converter::is_retained(
        program,
        inputs,
        options,
        op_id,
    ) by {
        assert(s.contains(op_id) <==> s.to_set().contains(op_id));
        assert(wanted.contains(op_id) <==> converter::is_retained(program, inputs, options, op_id));
    }
}

/// Identifiers are given out in the order of the operator ids: the operator at
/// position `i` bears the character at position `i`.
pub proof fn ids_follow_the_order_of_operators(
    program: HydroIr,
    inputs: ILPAnalysisInputs,
    location_info: Map<LocationId, (Seq<char>, usize)>,
    options: ConvertOptions,
    i: int,
)
    requires
        0 <= i < converter::retained(program, inputs, options).len(),
    ensures
        converter::operators(program, inputs, location_info, options)[i].id == seq![ID_CHARS@[i]],
        ids::id_map(
            converter::retained(program, inputs, options),
        )[converter::retained(program, inputs, options)[i]] == seq![ID_CHARS@[i]],
{
    let s = converter::retained(program, inputs, options);
    retained_lists_the_retained(program, inputs, options);
    assert(s.contains(s[i]));
    let k = s.index_of(s[i]);
    assert(s[k] == s[i]);
    assert(k == i);
}

/// Every identifier is a single printable ASCII character that JSON holds as it
/// is.
pub proof fn ids_are_single_plain_characters(
    program: HydroIr,
    inputs: ILPAnalysisInputs,
    location_info: Map<LocationId, (Seq<char>, usize)>,
    options: ConvertOptions,
    i: int,
)
    requires
        converter::retained(program, inputs, options).len() <= ID_BUDGET,
        0 <= i < converter::operators(program, inputs, location_info, options).len(),
    ensures
        ({
            let op = converter::operators(program, inputs, location_info, options)[i];
            op.id.len() == 1 && ids::is_plain(op.id[0])
        }),
{
    ids_follow_the_order_of_operators(program, inputs, location_info, options, i);
    ids::id_chars_are_unique_and_plain();
    assert(ID_CHARS@.contains(ID_CHARS@[i]));
}

/// No two operators bear the same identifier.
pub proof fn ids_are_distinct(
    program: HydroIr,
    inputs: ILPAnalysisInputs,
    location_info: Map<LocationId, (Seq<char>, usize)>,
    options: ConvertOptions,
    i: int,
    j: int,
)
    requires
        converter::retained(program, inputs, options).len() <= ID_BUDGET,
        0 <= i < j < converter::operators(program, inputs, location_info, options).len(),
    ensures
        ({
            let out = converter::operators(program, inputs, location_info, options);
            out[i].id != out[j].id
        }),
{
    ids_follow_the_order_of_operators(program, inputs, location_info, options, i);
    ids_follow_the_order_of_operators(program, inputs, location_info, options, j);
    ids::id_chars_are_unique_and_plain();
    let out = converter::operators(program, inputs, location_info, options);
    assert(out[i].id[0] != out[j].id[0]);
}

/// What a member of a list is mapped to stands in the mapped list.
proof fn lemma_filter_map_has(s: Seq<usize>, f: spec_fn(usize) -> Option<Seq<char>>, x: usize)
    requires
        s.contains(x),
        f(x) is Some,
    ensures
        s.filter_map(f).contains(f(x)->0),
    decreases s.len(),
{
    let k = choose|k: int| 0 <= k < s.len() && s[k] == x;
    let front = s.drop_last();
    let mapped = front.filter_map(f);
    let all = s.filter_map(f);
    if k < front.len() {
        assert(front[k] == x);
        lemma_filter_map_has(front, f, x);
        let n = choose|n: int| 0 <= n < mapped.len() && mapped[n] == f(x)->0;
        assert(all[n] == f(x)->0);
    } else {
        assert(all == mapped.push(f(x)->0));
        assert(all[mapped.len() as int] == f(x)->0);
    }
}

/// The identifiers of a list of operators are those of its retained members.
proof fn lemma_ids_of(retained: Seq<usize>, op_ids: Seq<usize>, id: Seq<char>)
    ensures
        ids::ids_of(ids::id_map(retained), op_ids).contains(id) <==> exists|op_id: usize|
            #![trigger op_ids.contains(op_id)]
            op_ids.contains(op_id) && retained.contains(op_id) && ids::id_map(retained)[op_id]
                == id,
{
    let names = ids::id_map(retained);
    let f = |op_id: usize| ids::id_of(names, op_id);
    if ids::ids_of(names, op_ids).contains(id) {
        op_ids.lemma_filter_map_contains(f, id);
        let op_id = choose|op_id: usize| #[trigger]
            op_ids.contains(op_id) && f(op_id) == Some(id);
        assert(op_ids.contains(op_id) && retained.contains(op_id) && names[op_id] == id);
    }
    if exists|op_id: usize|
        #![trigger op_ids.contains(op_id)]
        op_ids.contains(op_id) && retained.contains(op_id) && names[op_id] == id {
        let op_id = choose|op_id: usize|
            #![trigger op_ids.contains(op_id)]
            op_ids.contains(op_id) && retained.contains(op_id) && names[op_id] == id;
        assert(names.contains_key(op_id));
        lemma_filter_map_has(op_ids, f, op_id);
    }
}

/// A child is listed among the children exactly where the edge stands.
proof fn lemma_children_contains(program: HydroIr, parent: usize, child: usize)
    ensures
        converter::children(program, parent).contains(child) <==> graph::is_edge(
            graph::adjacency(program.parents@),
            parent,
            child,
        ),
{
    let all = graph::adjacency(program.parents@);
    assert(all.dom() =~= program.parents@.dom());
    inversion_turns_edges_around(all, parent, child);
}

/// Inversion turns every edge around and adds none: `child` has `parent` among
/// its parents exactly where `parent` has `child` among its children.
pub proof fn inversion_turns_edges_around(
    parents: Map<usize, Seq<usize>>,
    parent: usize,
    child: usize,
)
    requires
        parents.dom().finite(),
    ensures
        graph::is_edge(parents, parent, child) <==> graph::is_edge(
            graph::children_map(parents),
            child,
            parent,
        ),
{
    let set = graph::children_of(parents, parent);
    assert(set.subset_of(parents.dom()));
    vstd::set_lib::lemma_len_subset(set, parents.dom());
    ascending::lemma_listing_lists(set);
    let s = ascending::listing(set);
    assert(s.contains(child) <==> s.to_set().contains(child));
    assert(set.contains(child) <==> graph::is_edge(parents, parent, child));
}

/// The operators that any of `children` lists among its parents are finitely
/// many.
proof fn lemma_parents_finite(parents: Map<usize, Seq<usize>>, children: Set<usize>)
    requires
        children.finite(),
    ensures
        Set::new(
            |p: usize| exists|c: usize| #[trigger] children.contains(c) && parents[c].contains(p),
        ).finite(),
    decreases children.len(),
{
    let all = Set::new(
        |p: usize| exists|c: usize| #[trigger] children.contains(c) && parents[c].contains(p),
    );
    if children.len() == 0 {
        assert(all =~= Set::empty());
    } else {
        let one = children.choose();
        let rest = children.remove(one);
        lemma_parents_finite(parents, rest);
        let of_rest = Set::new(
            |p: usize| exists|c: usize| #[trigger] rest.contains(c) && parents[c].contains(p),
        );
        vstd::seq_lib::seq_to_set_is_finite(parents[one]);
        assert forall|p: usize| all.contains(p) <==> of_rest.union(parents[one].to_set()).contains(
            p,
        ) by {
            if all.contains(p) {
                let c = choose|c: usize| #[trigger] children.contains(c) && parents[c].contains(p);
                if c != one {
                    assert(rest.contains(c));
                }
            }
            if of_rest.contains(p) {
                let c = choose|c: usize| #[trigger] rest.contains(c) && parents[c].contains(p);
                assert(children.contains(c));
            }
            assert(children.contains(one));
        }
        assert(all =~= of_rest.union(parents[one].to_set()));
    }
}

/// Inverting twice gives the edges back.
pub proof fn inverting_twice_restores_edges(
    parents: Map<usize, Seq<usize>>,
    parent: usize,
    child: usize,
)
    requires
        parents.dom().finite(),
    ensures
        graph::is_edge(
            graph::children_map(graph::children_map(parents)),
            parent,
            child,
        ) <==> graph::is_edge(parents, parent, child),
{
    let all = graph::children_map(parents);
    lemma_parents_finite(parents, parents.dom());
    let listed = Set::new(
        |p: usize| exists|c: usize| #[trigger] parents.dom().contains(c) && parents[c].contains(p),
    );
    assert forall|p: usize| all.dom().contains(p) implies listed.contains(p) by {
        let c = choose|c: usize| graph::is_edge(parents, p, c);
        assert(parents.dom().contains(c) && parents[c].contains(p));
    }
    assert(all.dom().subset_of(listed));
    vstd::set_lib::lemma_len_subset(all.dom(), listed);
    inversion_turns_edges_around(parents, parent, child);
    inversion_turns_edges_around(all, child, parent);
}

/// Every identifier upstream or downstream of an operator is that of an
/// operator that is emitted too.
pub proof fn edges_lead_to_known_operators(
    program: HydroIr,
    inputs: ILPAnalysisInputs,
    location_info: Map<LocationId, (Seq<char>, usize)>,
    options: ConvertOptions,
    i: int,
    id: Seq<char>,
)
    requires
        0 <= i < converter::operators(program, inputs, location_info, options).len(),
        ({
            let op = converter::operators(program, inputs, location_info, options)[i];
            op.up_node.contains(id) || op.down_node.contains(id)
        }),
    ensures
        exists|j: int|
            0 <= j < converter::operators(program, inputs, location_info, options).len()
                && #[trigger] converter::operators(
                program,
                inputs,
                location_info,
                options,
            )[j].id == id,
{
    let s = converter::retained(program, inputs, options);
    let out = converter::operators(program, inputs, location_info, options);
    let op_id = s[i];
    lemma_ids_of(s, converter::children(program, op_id), id);
    lemma_ids_of(s, converter::parents(program, op_id), id);
    let names = ids::id_map(s);
    assert(exists|other: usize| #[trigger] s.contains(other) && names[other] == id) by {
        let near = if out[i].up_node.contains(id) {
            converter::parents(program, op_id)
        } else {
            converter::children(program, op_id)
        };
        let other = choose|other: usize|
            #![trigger near.contains(other)]
            near.contains(other) && s.contains(other) && names[other] == id;
        assert(s.contains(other) && names[other] == id);
    }
    let other = choose|other: usize| #[trigger] s.contains(other) && names[other] == id;
    let j = choose|j: int| 0 <= j < s.len() && s[j] == other;
    assert(out[j].id == id);
}

/// The edges of the emitted graph are those of the program between the emitted
/// operators, and they are listed at both ends: an operator has another
/// downstream, and the other has it upstream, exactly where the other lists it
/// among its parents.
pub proof fn edges_are_listed_at_both_ends(
    program: HydroIr,
    inputs: ILPAnalysisInputs,
    location_info: Map<LocationId, (Seq<char>, usize)>,
    options: ConvertOptions,
    i: int,
    j: int,
)
    requires
        converter::retained(program, inputs, options).len() <= ID_BUDGET,
        0 <= i < converter::operators(program, inputs, location_info, options).len(),
        0 <= j < converter::operators(program, inputs, location_info, options).len(),
    ensures
        ({
            let out = converter::operators(program, inputs, location_info, options);
            let s = converter::retained(program, inputs, options);
            let edge = graph::is_edge(graph::adjacency(program.parents@), s[i], s[j]);
            &&& out[i].down_node.contains(out[j].id) <==> edge
            &&& out[j].up_node.contains(out[i].id) <==> edge
        }),
{
    let s = converter::retained(program, inputs, options);
    let out = converter::operators(program, inputs, location_info, options);
    lemma_edge_between(program, inputs, options, i, j);
    let below = converter::children(program, s[i]);
    let above = converter::parents(program, s[j]);
    lemma_ids_of(s, below, out[j].id);
    lemma_ids_of(s, above, out[i].id);
    let names = ids::id_map(s);
    assert(s.contains(s[i]) && s.contains(s[j]));
    if out[i].down_node.contains(out[j].id) {
        let c = choose|c: usize|
            #![trigger below.contains(c)]
            below.contains(c) && s.contains(c) && names[c] == out[j].id;
        lemma_id_determines_operator(program, inputs, options, c, s[j]);
        assert(above.contains(s[i]));
    }
    if out[j].up_node.contains(out[i].id) {
        let p = choose|p: usize|
            #![trigger above.contains(p)]
            above.contains(p) && s.contains(p) && names[p] == out[i].id;
        lemma_id_determines_operator(program, inputs, options, p, s[i]);
        assert(below.contains(s[j]));
    }
}

/// The list of children holds an operator where its list of parents holds the
/// other end.
proof fn lemma_edge_between(
    program: HydroIr,
    inputs: ILPAnalysisInputs,
    options: ConvertOptions,
    i: int,
    j: int,
)
    ensures
        ({
            let s = converter::retained(program, inputs, options);
            converter::children(program, s[i]).contains(s[j]) <==> converter::parents(
                program,
                s[j],
            ).contains(s[i])
        }),
{
    let s = converter::retained(program, inputs, options);
    lemma_children_contains(program, s[i], s[j]);
}

/// Two retained operators with the same identifier are the same.
proof fn lemma_id_determines_operator(
    program: HydroIr,
    inputs: ILPAnalysisInputs,
    options: ConvertOptions,
    a: usize,
    b: usize,
)
    requires
        converter::retained(program, inputs, options).len() <= ID_BUDGET,
        converter::retained(program, inputs, options).contains(a),
        converter::retained(program, inputs, options).contains(b),
        ids::id_map(converter::retained(program, inputs, options))[a] == ids::id_map(
            converter::retained(program, inputs, options),
        )[b],
    ensures
        a == b,
{
    let s = converter::retained(program, inputs, options);
    let names = ids::id_map(s);
    ids::id_chars_are_unique_and_plain();
    let i = s.index_of(a);
    let j = s.index_of(b);
    assert(s[i] == a && s[j] == b);
    assert(names[a][0] == ID_CHARS@[i]);
    assert(names[b][0] == ID_CHARS@[j]);
}

/// A mapped list repeats nothing if the list does not and no two members are
/// mapped to the same.
proof fn lemma_filter_map_no_duplicates(s: Seq<usize>, f: spec_fn(usize) -> Option<Seq<char>>)
    requires
        s.no_duplicates(),
        forall|x: usize, y: usize| #![trigger f(x), f(y)] f(x) is Some && f(x) == f(y) ==> x == y,
    ensures
        s.filter_map(f).no_duplicates(),
    decreases s.len(),
{
    if s.len() > 0 {
        let front = s.drop_last();
        let last = s.last();
        lemma_filter_map_no_duplicates(front, f);
        let mapped = front.filter_map(f);
        if f(last) is Some {
            let id = f(last)->0;
            if mapped.contains(id) {
                front.lemma_filter_map_contains(f, id);
                let x = choose|x: usize| #[trigger] front.contains(x) && f(x) == Some(id);
                let k = choose|k: int| 0 <= k < front.len() && front[k] == x;
                assert(s[k] == x);
                assert(x == last);
                assert(s[s.len() - 1] == last);
            }
            assert(s.filter_map(f) =~= mapped.push(id));
        }
    }
}

/// No operator stands twice downstream of another.
pub proof fn downstream_lists_each_operator_once(
    program: HydroIr,
    inputs: ILPAnalysisInputs,
    location_info: Map<LocationId, (Seq<char>, usize)>,
    options: ConvertOptions,
    i: int,
)
    requires
        converter::retained(program, inputs, options).len() <= ID_BUDGET,
        0 <= i < converter::operators(program, inputs, location_info, options).len(),
    ensures
        converter::operators(
            program,
            inputs,
            location_info,
            options,
        )[i].down_node.no_duplicates(),
{
    let s = converter::retained(program, inputs, options);
    let op_id = s[i];
    let all = graph::adjacency(program.parents@);
    let below = converter::children(program, op_id);
    let set = graph::children_of(all, op_id);
    assert(all.dom() =~= program.parents@.dom());
    assert(set.subset_of(all.dom()));
    vstd::set_lib::lemma_len_subset(set, all.dom());
    ascending::lemma_listing_lists(set);
    assert(below.no_duplicates());
    let f = |child: usize| ids::id_of(ids::id_map(s), child);
    assert forall|x: usize, y: usize|
        #![trigger f(x), f(y)]
        f(x) is Some && f(x) == f(y) implies x == y by {
        lemma_id_determines_operator(program, inputs, options, x, y);
    }
    lemma_filter_map_no_duplicates(below, f);
}

/// Unless leaves are dropped, every operator id that was visited is emitted, and
/// emitted once.
pub proof fn every_operator_is_emitted(
    program: HydroIr,
    inputs: ILPAnalysisInputs,
    location_info: Map<LocationId, (Seq<char>, usize)>,
    options: ConvertOptions,
)
    requires
        !options.drop_zero_cost_leaves,
    ensures
        converter::retained(program, inputs, options).to_set() == ir::raw_ops(program.ops@).dom(),
        converter::operators(program, inputs, location_info, options).len() == ir::raw_ops(
            program.ops@,
        ).dom().len(),
{
    let s = converter::retained(program, inputs, options);
    retained_lists_the_retained(program, inputs, options);
    assert forall|op_id: usize| #[trigger] s.to_set().contains(op_id) <==> ir::raw_ops(
        program.ops@,
    ).dom().contains(op_id) by {
        assert(s.contains(op_id) <==> s.to_set().contains(op_id));
    }
    assert(s.to_set() =~= ir::raw_ops(program.ops@).dom());
    assert(s.no_duplicates());
    s.unique_seq_to_set();
}

/// Where leaves are dropped, an operator that was visited is left out exactly if
/// it has no child and demands nothing.
pub proof fn only_idle_leaves_are_dropped(
    program: HydroIr,
    inputs: ILPAnalysisInputs,
    options: ConvertOptions,
    op_id: usize,
)
    requires
        options.drop_zero_cost_leaves,
        ir::raw_ops(program.ops@).contains_key(op_id),
    ensures
        !converter::retained(program, inputs, options).contains(op_id) <==> (converter::children(
            program,
            op_id,
        ).len() == 0 && converter::load(program, inputs, op_id).spec_demands_nothing()),
{
    retained_lists_the_retained(program, inputs, options);
}

/// Dropping leaves changes nothing of an operator that stays but the identifiers
/// in it.
pub proof fn dropping_leaves_keeps_the_rest(
    program: HydroIr,
    inputs: ILPAnalysisInputs,
    location_info: Map<LocationId, (Seq<char>, usize)>,
    options: ConvertOptions,
    op_id: usize,
)
    ensures
        ({
            let all = ConvertOptions { drop_zero_cost_leaves: false, ..options };
            let some = ConvertOptions { drop_zero_cost_leaves: true, ..options };
            let a = converter::operator(program, inputs, location_info, all, op_id);
            let b = converter::operator(program, inputs, location_info, some, op_id);
            &&& converter::is_retained(program, inputs, some, op_id) ==> converter::is_retained(
                program,
                inputs,
                all,
                op_id,
            )
            &&& a.name == b.name
            &&& a.parallelism == b.parallelism
            &&& a.state == b.state
            &&& a.compute == b.compute
            &&& a.network == b.network
            &&& a.outboundtype == b.outboundtype
        }),
{
}

/// The outbound type is empty exactly for an operator that nothing reads from,
/// and then nothing stands downstream. Otherwise it is `FORWARD` or `REBALANCE`.
pub proof fn sinks_have_no_outbound_type(
    program: HydroIr,
    inputs: ILPAnalysisInputs,
    location_info: Map<LocationId, (Seq<char>, usize)>,
    options: ConvertOptions,
    op_id: usize,
)
    ensures
        ({
            let op = converter::operator(program, inputs, location_info, options, op_id);
            &&& op.outboundtype == ""@ <==> converter::children(program, op_id).len() == 0
            &&& op.outboundtype == ""@ ==> op.down_node.len() == 0
            &&& op.outboundtype == ""@ || op.outboundtype == "FORWARD"@ || op.outboundtype
                == "REBALANCE"@
        }),
{
    reveal_strlit("");
    reveal_strlit("FORWARD");
    reveal_strlit("REBALANCE");
    assert(""@.len() == 0 && "FORWARD"@.len() == 7 && "REBALANCE"@.len() == 9);
}

/// Where every operator that has parents is emitted, the outbound type is empty
/// exactly if nothing stands downstream.
pub proof fn outbound_type_agrees_with_downstream(
    program: HydroIr,
    inputs: ILPAnalysisInputs,
    location_info: Map<LocationId, (Seq<char>, usize)>,
    options: ConvertOptions,
    op_id: usize,
)
    requires
        forall|child: usize| #[trigger]
            program.parents@.contains_key(child) ==> converter::retained(
                program,
                inputs,
                options,
            ).contains(child),
    ensures
        ({
            let op = converter::operator(program, inputs, location_info, options, op_id);
            op.outboundtype == ""@ <==> op.down_node.len() == 0
        }),
{
    sinks_have_no_outbound_type(program, inputs, location_info, options, op_id);
    let s = converter::retained(program, inputs, options);
    let below = converter::children(program, op_id);
    if below.len() > 0 {
        let child = below[0];
        assert(below.contains(child));
        lemma_children_contains(program, op_id, child);
        assert(program.parents@.contains_key(child));
        let f = |c: usize| ids::id_of(ids::id_map(s), c);
        assert(ids::id_map(s).contains_key(child));
        lemma_filter_map_has(below, f, child);
    }
}

/// The emitted graph depends on the records of the operators and on the lists of
/// parents alone: not on the order of the traversal, nor on that of a map.
pub proof fn emission_is_reproducible(
    first: HydroIr,
    second: HydroIr,
    inputs: ILPAnalysisInputs,
    location_info: Map<LocationId, (Seq<char>, usize)>,
    options: ConvertOptions,
)
    requires
        ir::raw_ops(first.ops@) == ir::raw_ops(second.ops@),
        graph::adjacency(first.parents@) == graph::adjacency(second.parents@),
    ensures
        converter::retained(first, inputs, options) == converter::retained(second, inputs, options),
        converter::operators(first, inputs, location_info, options) == converter::operators(
            second,
            inputs,
            location_info,
            options,
        ),
{
    let a = Set::new(|op_id: usize| converter::is_retained(first, inputs, options, op_id));
    let b = Set::new(|op_id: usize| converter::is_retained(second, inputs, options, op_id));
    assert(a =~= b);
    assert(converter::operators(first, inputs, location_info, options) =~= converter::operators(
        second,
        inputs,
        location_info,
        options,
    ));
}

/// Operators of one root location run with the same parallelism.
pub proof fn parallelism_is_that_of_the_root(
    program: HydroIr,
    inputs: ILPAnalysisInputs,
    location_info: Map<LocationId, (Seq<char>, usize)>,
    options: ConvertOptions,
    a: usize,
    b: usize,
)
    requires
        ({
            let raw = ir::raw_ops(program.ops@);
            raw[a].location.spec_root() == raw[b].location.spec_root()
        }),
    ensures
        converter::operator(program, inputs, location_info, options, a).parallelism
            == converter::operator(program, inputs, location_info, options, b).parallelism,
{
}

/// Once the questions that the network cost table has to answer are answered,
/// every network operator with a positive count and size has a cost.
pub proof fn answered_network_operators_have_a_cost(
    program: HydroIr,
    inputs: ILPAnalysisInputs,
    op_id: usize,
)
    requires
        forall|asked: usize| #[trigger]
            converter::queried(program, inputs).contains(asked)
                ==> inputs.network_costs@.contains_key(asked),
        ir::raw_ops(program.ops@).contains_key(op_id),
        ir::raw_ops(program.ops@)[op_id].is_network,
        costs::count_of(inputs.op_counts@, op_id) > 0,
        costs::count_of(inputs.op_output_sizes@, op_id) > 0,
    ensures
        costs::cost_of(op_id, true, inputs) is Some,
{
    let wanted = Set::new(|asked: usize| converter::is_queried(program, inputs, asked));
    lemma_raw_ops_finite(program.ops@);
    assert(wanted.subset_of(ir::raw_ops(program.ops@).dom()));
    vstd::set_lib::lemma_len_subset(wanted, ir::raw_ops(program.ops@).dom());
    ascending::lemma_listing_lists(wanted);
    let s = converter::queried(program, inputs);
    if wanted.contains(op_id) {
        assert(s.to_set().contains(op_id));
        assert(s.contains(op_id));
    }
}

/// What is entered for a location is found for every location under the same
/// root, and nothing else changes.
pub proof fn entry_is_found_under_its_root(
    info: Map<LocationId, (Seq<char>, usize)>,
    entered: LocationId,
    entry: (Seq<char>, usize),
    asked: LocationId,
)
    ensures
        ({
            let after = info.insert(entered.spec_root(), entry);
            if asked.spec_root() == entered.spec_root() {
                after.contains_key(asked.spec_root()) && after[asked.spec_root()] == entry
            } else {
                &&& after.contains_key(asked.spec_root()) == info.contains_key(asked.spec_root())
                &&& after[asked.spec_root()] == info[asked.spec_root()]
            }
        }),
{
}

/// Whatever the locations that were asked for, only roots are entered.
pub proof fn entries_are_roots(
    answers: Seq<(LocationId, Option<(String, usize)>)>,
    known: LocationId,
)
    requires
        location::answers_map(answers).contains_key(known),
    ensures
        known.spec_root() == known,
    decreases answers.len(),
{
    if answers.len() > 0 {
        location::lemma_root_is_root(answers.last().0);
        if location::answers_map(answers.drop_last()).contains_key(known) {
            entries_are_roots(answers.drop_last(), known);
        }
    }
}

/// No name exceeds its limit; one that fits stays as it is; one that is cut keeps
/// its first characters and ends in an ellipsis; cutting again changes nothing.
pub proof fn shortening_is_stable(name: Seq<char>, n: usize)
    ensures
        ({
            let cut = naming::shortened(name, Some(n));
            &&& cut.len() <= n
            &&& name.len() <= n ==> cut == name
            &&& name.len() > n && n > 0 ==> {
                &&& cut.len() == n
                &&& cut.take(n - 1) == name.take(n - 1)
                &&& cut.last() == '\u{2026}'
            }
            &&& naming::shortened(cut, Some(n)) == cut
        }),
{
    let cut = naming::shortened(name, Some(n));
    if name.len() > n && n > 0 {
        assert(cut.take(n - 1) =~= name.take(n - 1));
    }
}

} // verus!
