//! From a Hydro program and its measured loads to the operators of a CAPSys job
//! graph.
//!
//! - Each operator id becomes one [`CapsysOperator`].
//! - The edges are those of [`HydroIr::parents`].
//! - The demands per task are the measured load of the operator, or what the
//!   network cost table gives for a network operator without one.
//! - The parallelism is the size of the root location that the operator runs in.
//! - The outbound type tells whether the operators downstream run in the same
//!   root location (`FORWARD`) or not (`REBALANCE`). `HASH` is never inferred.

use std::collections::HashMap;

use vstd::prelude::*;

use crate::ascending;
use crate::costs;
use crate::costs::{cost_for_op, network_query, ILPAnalysisInputs, SarStats};
use crate::graph;
use crate::graph::invert_parents;
use crate::ids;
use crate::ids::{assign_ids, lookup_ids, ID_BUDGET};
use crate::ir;
use crate::ir::{collect_raw_ops, HydroIr, RawOp, RawOpView};
use crate::location::LocationId;
pub use crate::location::LocationInfo;
use crate::naming;
use crate::naming::truncate_name;
use crate::types;
use crate::types::{CapsysOperator, CapsysOperatorView};

verus! {

broadcast use vstd::std_specs::hash::group_hash_axioms;

/// Choices that [`convert`] leaves open.
#[derive(Debug, Clone)]
pub struct ConvertOptions {
    /// The parallelism of a location that is not in the [`LocationInfo`].
    pub default_parallelism: usize,
    /// Drop the operators whose demand per task (compute, state and network
    /// together) is zero and that have no child.
    ///
    /// The outbound type of the others is that of the whole program: one whose
    /// children are all dropped stays `FORWARD` or `REBALANCE`, with nothing
    /// downstream.
    pub drop_zero_cost_leaves: bool,
    /// The number of characters to which names are truncated, if they are.
    pub name_max_len: Option<usize>,
}

impl Default for ConvertOptions {
    /// One instance per unknown location, all operators, names of at most 64
    /// characters.
    fn default() -> (options: Self)
        ensures
            options == (ConvertOptions {
                default_parallelism: 1,
                drop_zero_cost_leaves: false,
                name_max_len: Some(64),
            }),
    {
        ConvertOptions {
            default_parallelism: 1,
            drop_zero_cost_leaves: false,
            name_max_len: Some(64),
        }
    }
}

/// The children of an operator, smallest id first and each once.
pub open spec fn children(program: HydroIr, op_id: usize) -> Seq<usize> {
    let all = graph::children_map(graph::adjacency(program.parents@));
    if all.contains_key(op_id) {
        all[op_id]
    } else {
        Seq::empty()
    }
}

/// The parents of an operator, as they are listed.
pub open spec fn parents(program: HydroIr, op_id: usize) -> Seq<usize> {
    let all = graph::adjacency(program.parents@);
    if all.contains_key(op_id) {
        all[op_id]
    } else {
        Seq::empty()
    }
}

/// The load that an operator is emitted with: its cost, or none at all where
/// nothing is known.
pub open spec fn load(program: HydroIr, inputs: ILPAnalysisInputs, op_id: usize) -> SarStats {
    match costs::cost_of(op_id, ir::raw_ops(program.ops@)[op_id].is_network, inputs) {
        Some(cost) => cost,
        None => SarStats::spec_idle(),
    }
}

/// Whether an operator is emitted.
pub open spec fn is_retained(
    program: HydroIr,
    inputs: ILPAnalysisInputs,
    options: ConvertOptions,
    op_id: usize,
) -> bool {
    &&& ir::raw_ops(program.ops@).contains_key(op_id)
    &&& options.drop_zero_cost_leaves ==> (children(program, op_id).len() > 0 || !load(
        program,
        inputs,
        op_id,
    ).spec_demands_nothing())
}

/// The ids of the operators that are emitted, smallest first.
pub open spec fn retained(
    program: HydroIr,
    inputs: ILPAnalysisInputs,
    options: ConvertOptions,
) -> Seq<usize> {
    ascending::listing(
        Set::new(|op_id: usize| is_retained(program, inputs, options, op_id)),
    )
}

/// How an operator hands its output on: `""` without a child, `"REBALANCE"` if
/// a child that was visited runs in another root location, else `"FORWARD"`.
pub open spec fn outbound_type(
    my_location: LocationId,
    children: Seq<usize>,
    raw_ops: Map<usize, RawOpView>,
) -> Seq<char> {
    if children.len() == 0 {
        ""@
    } else if exists|child: usize| #[trigger]
        children.contains(child) && raw_ops.contains_key(child)
            && raw_ops[child].location.spec_root() != my_location.spec_root() {
        "REBALANCE"@
    } else {
        "FORWARD"@
    }
}

/// The operator that is emitted for an id.
pub open spec fn operator(
    program: HydroIr,
    inputs: ILPAnalysisInputs,
    location_info: Map<LocationId, (Seq<char>, usize)>,
    options: ConvertOptions,
    op_id: usize,
) -> CapsysOperatorView {
    let raw_ops = ir::raw_ops(program.ops@);
    let raw = raw_ops[op_id];
    let root = raw.location.spec_root();
    let names = ids::id_map(retained(program, inputs, options));
    let load = load(program, inputs, op_id);
    CapsysOperatorView {
        id: names[op_id],
        name: naming::shortened(raw.name, options.name_max_len),
        parallelism: if location_info.contains_key(root) {
            location_info[root].1
        } else {
            options.default_parallelism
        },
        state: load.memory,
        compute: load.cpu,
        network: load.network,
        outboundtype: outbound_type(raw.location, children(program, op_id), raw_ops),
        down_node: ids::ids_of(names, children(program, op_id)),
        up_node: ids::ids_of(names, parents(program, op_id)),
    }
}

/// The operators that are emitted, smallest id first.
pub open spec fn operators(
    program: HydroIr,
    inputs: ILPAnalysisInputs,
    location_info: Map<LocationId, (Seq<char>, usize)>,
    options: ConvertOptions,
) -> Seq<CapsysOperatorView> {
    retained(program, inputs, options).map_values(
        |op_id: usize| operator(program, inputs, location_info, options, op_id),
    )
}

/// Picks `"FORWARD"` when every child that was visited runs in the same root
/// location, `"REBALANCE"` when one runs in another, and `""` for a sink.
pub fn determine_outbound_type(
    my_location: &LocationId,
    children: &Vec<usize>,
    raw_ops: &HashMap<usize, RawOp>,
) -> (out: &'static str)
    ensures
        out@ == outbound_type(*my_location, children@, ir::raw_view(raw_ops@)),
{
    if children.len() == 0 {
        return "";
    }
    let mine: &LocationId = my_location.root();
    let ghost seen = ir::raw_view(raw_ops@);
    for i in 0..children.len()
        invariant
            *mine == my_location.spec_root(),
            seen == ir::raw_view(raw_ops@),
            forall|k: int|
                0 <= k < i && seen.contains_key(#[trigger] children@[k])
                    ==> seen[children@[k]].location.spec_root() == *mine,
    {
        if let Some(child) = raw_ops.get(&children[i]) {
            if *child.location.root() != *mine {
                assert(children@.contains(children@[i as int]));
                return "REBALANCE";
            }
        }
    }
    "FORWARD"
}

/// A copy of the list that a map holds under a key, empty without one.
fn list_at(lists: &HashMap<usize, Vec<usize>>, key: usize) -> (list: Vec<usize>)
    ensures
        list@ == (if graph::adjacency(lists@).contains_key(key) {
            graph::adjacency(lists@)[key]
        } else {
            Seq::empty()
        }),
{
    match lists.get(&key) {
        Some(list) => list.clone(),
        None => Vec::new(),
    }
}

/// The load that a recorded operator is emitted with.
fn load_for_op(op_id: usize, raw: &RawOp, inputs: &ILPAnalysisInputs) -> (out: SarStats)
    ensures
        out == (match costs::cost_of(op_id, raw.is_network, *inputs) {
            Some(cost) => cost,
            None => SarStats::spec_idle(),
        }),
{
    match cost_for_op(op_id, raw, inputs) {
        Some(cost) => cost,
        None => SarStats::default(),
    }
}

/// Lists the recorded operators that are emitted, smallest id first.
fn retain(
    program: &HydroIr,
    raw_ops: &HashMap<usize, RawOp>,
    children_map: &HashMap<usize, Vec<usize>>,
    inputs: &ILPAnalysisInputs,
    options: &ConvertOptions,
) -> (out: Vec<usize>)
    requires
        ir::raw_view(raw_ops@) == ir::raw_ops(program.ops@),
        graph::adjacency(children_map@) == graph::children_map(graph::adjacency(program.parents@)),
    ensures
        out@ == retained(*program, *inputs, *options),
        ascending::strictly_increasing(out@),
        forall|op_id: usize| #[trigger]
            out@.contains(op_id) <==> is_retained(*program, *inputs, *options, op_id),
{
    let all: Vec<usize> = ascending::keys(raw_ops);
    let ghost keep = |op_id: usize| is_retained(*program, *inputs, *options, op_id);
    let mut out: Vec<usize> = Vec::new();
    reveal(Seq::filter);
    for i in 0..all.len()
        invariant
            ir::raw_view(raw_ops@) == ir::raw_ops(program.ops@),
            graph::adjacency(children_map@) == graph::children_map(
                graph::adjacency(program.parents@),
            ),
            ascending::lists(all@, raw_ops@.dom()),
            keep == |op_id: usize| is_retained(*program, *inputs, *options, op_id),
            out@ == all@.take(i as int).filter(keep),
    {
        reveal(Seq::filter);
        let op_id: usize = all[i];
        assert(all@.take(i + 1).drop_last() =~= all@.take(i as int));
        assert(all@.to_set().contains(op_id));
        if let Some(raw) = raw_ops.get(&op_id) {
            let has_children: bool = match children_map.get(&op_id) {
                Some(children) => children.len() > 0,
                None => false,
            };
            assert(has_children == (children(*program, op_id).len() > 0));
            assert(ir::raw_view(raw_ops@)[op_id] == raw@);
            if !options.drop_zero_cost_leaves || has_children || !load_for_op(
                op_id,
                raw,
                inputs,
            ).demands_nothing() {
                out.push(op_id);
            }
        }
    }
    proof {
        assert(all@.take(all@.len() as int) =~= all@);
        ascending::lemma_filter_lists(all@, raw_ops@.dom(), keep);
        let wanted = Set::new(keep);
        assert forall|op_id: usize| wanted.contains(op_id) implies raw_ops@.dom().contains(op_id) by {
            assert(ir::raw_view(raw_ops@).contains_key(op_id));
        }
        assert(raw_ops@.dom().filter(keep) =~= wanted);
        ascending::lemma_is_listing(out@, wanted);
        assert forall|op_id: usize| #[trigger] out@.contains(op_id) <==> keep(op_id) by {
            assert(out@.contains(op_id) <==> out@.to_set().contains(op_id));
        }
    }
    out
}

/// The ids of the operators that [`convert`] emits, smallest first.
pub fn retained_ops(program: &HydroIr, inputs: &ILPAnalysisInputs, options: &ConvertOptions) -> (out:
    Vec<usize>)
    ensures
        out@ == retained(*program, *inputs, *options),
{
    let raw_ops = collect_raw_ops(&program.ops);
    let children_map = invert_parents(&program.parents);
    retain(program, &raw_ops, &children_map, inputs, options)
}

/// The ids of the operators for which the network cost table is consulted,
/// smallest first.
pub open spec fn queried(program: HydroIr, inputs: ILPAnalysisInputs) -> Seq<usize> {
    ascending::listing(Set::new(|op_id: usize| is_queried(program, inputs, op_id)))
}

/// Whether the network cost table is consulted for an operator.
pub open spec fn is_queried(program: HydroIr, inputs: ILPAnalysisInputs, op_id: usize) -> bool {
    &&& ir::raw_ops(program.ops@).contains_key(op_id)
    &&& costs::table_query(op_id, ir::raw_ops(program.ops@)[op_id].is_network, inputs) is Some
}

/// A count and a size for which the network cost table has to be consulted, and
/// the operator that its answer is for.
#[derive(Debug, Clone, Copy, PartialEq, Eq, Structural)]
pub struct NetworkQuery {
    pub op_id: usize,
    pub count: usize,
    pub size: usize,
}

/// The question that an operator puts to the network cost table.
pub open spec fn query_of(program: HydroIr, inputs: ILPAnalysisInputs, op_id: usize) -> NetworkQuery {
    let (count, size) = costs::table_query(
        op_id,
        ir::raw_ops(program.ops@)[op_id].is_network,
        inputs,
    ).unwrap();
    NetworkQuery { op_id, count, size }
}

/// The questions whose answers belong into [`ILPAnalysisInputs::network_costs`]
/// before [`convert`] is called, smallest operator id first.
pub fn network_queries(program: &HydroIr, inputs: &ILPAnalysisInputs) -> (out: Vec<NetworkQuery>)
    ensures
        out@ == queried(*program, *inputs).map_values(
            |op_id: usize| query_of(*program, *inputs, op_id),
        ),
{
    let raw_ops = collect_raw_ops(&program.ops);
    let all: Vec<usize> = ascending::keys(&raw_ops);
    let ghost keep = |op_id: usize| is_queried(*program, *inputs, op_id);
    let ghost ask = |op_id: usize| query_of(*program, *inputs, op_id);
    let mut out: Vec<NetworkQuery> = Vec::new();
    reveal(Seq::filter);
    assert(out@ =~= all@.take(0).filter(keep).map_values(ask));
    for i in 0..all.len()
        invariant
            ir::raw_view(raw_ops@) == ir::raw_ops(program.ops@),
            ascending::lists(all@, raw_ops@.dom()),
            keep == |op_id: usize| is_queried(*program, *inputs, op_id),
            ask == |op_id: usize| query_of(*program, *inputs, op_id),
            out@ == all@.take(i as int).filter(keep).map_values(ask),
    {
        reveal(Seq::filter);
        let op_id: usize = all[i];
        assert(all@.take(i + 1).drop_last() =~= all@.take(i as int));
        assert(all@.to_set().contains(op_id));
        if let Some(raw) = raw_ops.get(&op_id) {
            assert(ir::raw_view(raw_ops@)[op_id] == raw@);
            if let Some((count, size)) = network_query(op_id, raw, inputs) {
                out.push(NetworkQuery { op_id, count, size });
                assert(out@ =~= all@.take(i + 1).filter(keep).map_values(ask));
            }
        }
    }
    proof {
        assert(all@.take(all@.len() as int) =~= all@);
        ascending::lemma_filter_lists(all@, raw_ops@.dom(), keep);
        let wanted = Set::new(keep);
        assert forall|op_id: usize| wanted.contains(op_id) implies raw_ops@.dom().contains(op_id) by {
            assert(ir::raw_view(raw_ops@).contains_key(op_id));
        }
        assert(raw_ops@.dom().filter(keep) =~= wanted);
        ascending::lemma_is_listing(all@.filter(keep), wanted);
    }
    out
}

/// Emits the operators of a program, smallest operator id first.
///
/// There are only so many identifiers: the operators that [`retained_ops`] lists
/// must not be more than [`ID_BUDGET`]. Where they are, fuse some, or set
/// [`ConvertOptions::drop_zero_cost_leaves`].
pub fn convert(
    program: &HydroIr,
    inputs: &ILPAnalysisInputs,
    location_info: &LocationInfo,
    options: &ConvertOptions,
) -> (out: Vec<CapsysOperator>)
    requires
        retained(*program, *inputs, *options).len() <= ID_BUDGET,
    ensures
        types::operators_view(out@) == operators(*program, *inputs, location_info@, *options),
{
    let raw_ops = collect_raw_ops(&program.ops);
    let children_map = invert_parents(&program.parents);
    let retained_sorted = retain(program, &raw_ops, &children_map, inputs, options);
    let capsys_ids = assign_ids(&retained_sorted);

    let ghost emit = |op_id: usize| operator(*program, *inputs, location_info@, *options, op_id);
    let mut out: Vec<CapsysOperator> = Vec::new();
    for i in 0..retained_sorted.len()
        invariant
            ir::raw_view(raw_ops@) == ir::raw_ops(program.ops@),
            graph::adjacency(children_map@) == graph::children_map(
                graph::adjacency(program.parents@),
            ),
            retained_sorted@ == retained(*program, *inputs, *options),
            forall|op_id: usize| #[trigger]
                retained_sorted@.contains(op_id) <==> is_retained(
                    *program,
                    *inputs,
                    *options,
                    op_id,
                ),
            ids::ids_view(capsys_ids@) == ids::id_map(retained_sorted@),
            emit == |op_id: usize| operator(*program, *inputs, location_info@, *options, op_id),
            types::operators_view(out@) == retained_sorted@.take(i as int).map_values(emit),
    {
        let op_id: usize = retained_sorted[i];
        assert(retained_sorted@.contains(op_id));
        assert(ir::raw_view(raw_ops@).contains_key(op_id));
        assert(ids::ids_view(capsys_ids@).contains_key(op_id));
        if let (Some(raw), Some(id)) = (raw_ops.get(&op_id), capsys_ids.get(&op_id)) {
            let parallelism: usize = match location_info.lookup(&raw.location) {
                Some(entry) => entry.1,
                None => options.default_parallelism,
            };
            let load = load_for_op(op_id, raw, inputs);
            let children = list_at(&children_map, op_id);
            let parents = list_at(&program.parents, op_id);
            let outboundtype = determine_outbound_type(&raw.location, &children, &raw_ops);
            let op = CapsysOperator {
                id: id.clone(),
                name: truncate_name(raw.name.as_str(), options.name_max_len),
                parallelism,
                state: load.memory,
                compute: load.cpu,
                network: load.network,
                outboundtype: outboundtype.to_owned(),
                down_node: lookup_ids(&capsys_ids, &children),
                up_node: lookup_ids(&capsys_ids, &parents),
            };
            assert(ids::ids_view(capsys_ids@)[op_id] == id@);
            assert(ir::raw_view(raw_ops@)[op_id] == raw@);
            assert(op@ == emit(op_id));
            let ghost before = out@;
            out.push(op);
            assert(types::operators_view(out@) =~= types::operators_view(before).push(op@));
            assert(retained_sorted@.take(i + 1) =~= retained_sorted@.take(i as int).push(op_id));
            assert(retained_sorted@.take(i + 1).map_values(emit) =~= retained_sorted@.take(
                i as int,
            ).map_values(emit).push(emit(op_id)));
        }
    }
    assert(retained_sorted@.take(retained_sorted@.len() as int) =~= retained_sorted@);
    out
}

} // verus!
