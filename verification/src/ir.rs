//! The Hydro IR as the converter reads it: which operators a traversal visits,
//! and how they are joined.

use std::collections::HashMap;

use vstd::prelude::*;

use crate::location::LocationId;
use crate::naming;
use crate::naming::{pretty_node_name, pretty_root_name};

verus! {

broadcast use vstd::std_specs::hash::group_hash_axioms;

/// An intermediate operator of the Hydro IR.
#[derive(Debug)]
pub enum HydroNode {
    Placeholder,
    Cast,
    ObserveNonDet,
    SingletonSource,
    Tee,
    Partition,
    Network,
    /// The element-wise `Map` operator.
    MapOp,
    Filter,
    FilterMap,
    FlatMap,
    Fold,
    FoldKeyed,
    Reduce,
    ReduceKeyed,
    Unique,
    Sort,
    Counter,
    Chain,
    MergeOrdered,
    Inspect,
    Enumerate,
    CrossProduct,
    CrossSingleton,
    Join,
    Difference,
    AntiJoin,
    DeferTick,
    BeginAtomic,
    EndAtomic,
    Batch,
    YieldConcat,
    /// A source, with the node's printed form.
    Source { printed: String },
    /// The reading end of a cycle.
    CycleSource { cycle_id: usize },
    /// Any other node, with its printed form.
    Other { printed: String },
}

/// A sink of the Hydro IR.
#[derive(Debug)]
pub enum HydroRoot {
    ForEach,
    SendExternal,
    DestSink,
    EmbeddedOutput,
    Null,
    /// The writing end of a cycle.
    CycleSink { cycle_id: usize },
}

/// What a traversal finds at one position of the IR.
#[derive(Debug)]
pub enum OpKind {
    /// A sink.
    Root(HydroRoot),
    /// An intermediate operator.
    Node(HydroNode),
}

/// One operator that a traversal visits.
#[derive(Debug)]
pub struct IrOp {
    /// The id that the traversal gives the operator.
    pub op_id: usize,
    pub kind: OpKind,
    /// Where a node runs; for a sink, where its input runs.
    pub location: LocationId,
}

/// A Hydro program.
#[derive(Debug)]
pub struct HydroIr {
    /// The operators, in the order of the traversal.
    pub ops: Vec<IrOp>,
    /// The ids of the operators that each operator reads from, with cycles
    /// closed and shared inputs resolved.
    pub parents: HashMap<usize, Vec<usize>>,
}

/// What is recorded of one operator before its edges and its cost are added.
#[derive(Debug)]
pub struct RawOp {
    pub name: String,
    pub location: LocationId,
    pub is_network: bool,
}

/// A [`RawOp`] with its name as a sequence of characters.
pub struct RawOpView {
    pub name: Seq<char>,
    pub location: LocationId,
    pub is_network: bool,
}

impl View for RawOp {
    type V = RawOpView;

    open spec fn view(&self) -> RawOpView {
        RawOpView { name: self.name@, location: self.location, is_network: self.is_network }
    }
}

/// The record of one visited operator.
pub open spec fn raw_op(op: IrOp) -> RawOpView {
    RawOpView {
        name: match op.kind {
            OpKind::Root(root) => naming::root_name(root),
            OpKind::Node(node) => naming::node_name(node),
        },
        location: op.location,
        is_network: op.kind matches OpKind::Node(HydroNode::Network),
    }
}

/// The records of the visited operators by their ids. Of two visits under one
/// id the later counts.
pub open spec fn raw_ops(ops: Seq<IrOp>) -> Map<usize, RawOpView>
    decreases ops.len(),
{
    if ops.len() == 0 {
        Map::empty()
    } else {
        raw_ops(ops.drop_last()).insert(ops.last().op_id, raw_op(ops.last()))
    }
}

/// A map of records, record by record.
pub open spec fn raw_view(m: Map<usize, RawOp>) -> Map<usize, RawOpView> {
    m.map_values(|raw: RawOp| raw@)
}

/// Records the display name, the location and the kind of each visited
/// operator.
pub fn collect_raw_ops(ops: &Vec<IrOp>) -> (out: HashMap<usize, RawOp>)
    ensures
        raw_view(out@) == raw_ops(ops@),
{
    let mut out: HashMap<usize, RawOp> = HashMap::new();
    assert(raw_view(out@) =~= raw_ops(ops@.take(0)));
    for i in 0..ops.len()
        invariant
            raw_view(out@) == raw_ops(ops@.take(i as int)),
    {
        let op: &IrOp = &ops[i];
        let raw = match &op.kind {
            OpKind::Root(root) => RawOp {
                name: pretty_root_name(root),
                location: op.location.clone(),
                is_network: false,
            },
            OpKind::Node(node) => RawOp {
                name: pretty_node_name(node),
                location: op.location.clone(),
                is_network: matches!(node, HydroNode::Network),
            },
        };
        assert(raw@ == raw_op(*op));
        let ghost before = out@;
        out.insert(op.op_id, raw);
        assert(ops@.take(i + 1).drop_last() =~= ops@.take(i as int));
        assert(raw_view(out@) =~= raw_view(before).insert(op.op_id, raw@));
    }
    assert(ops@.take(ops@.len() as int) =~= ops@);
    out
}

} // verus!
