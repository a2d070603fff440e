//! What an operator costs per task.

use std::collections::HashMap;

use vstd::prelude::*;

use crate::ir::RawOp;

verus! {

broadcast use vstd::std_specs::hash::group_hash_axioms;

/// A measured figure: an IEEE 754 double, held by its bit pattern.
///
/// Figures compare as doubles do: 0.0 equals -0.0, and a NaN equals nothing.
#[derive(Debug, Clone, Copy)]
pub struct Figure {
    pub bits: u64,
}

impl Figure {
    /// The figure 0.
    pub open spec fn spec_zero() -> Figure {
        Figure { bits: 0 }
    }

    /// A figure is zero under either sign.
    pub open spec fn spec_is_zero(self) -> bool {
        self.bits == 0 || self.bits == 0x8000_0000_0000_0000
    }

    /// A figure is no number if its exponent is the largest and its fraction is
    /// not zero, under either sign.
    pub open spec fn spec_is_nan(self) -> bool {
        ||| 0x7ff0_0000_0000_0000 < self.bits < 0x8000_0000_0000_0000
        ||| 0xfff0_0000_0000_0000 < self.bits
    }

    /// Whether the figure is no number.
    pub fn is_nan(&self) -> (nan: bool)
        ensures
            nan == self.spec_is_nan(),
    {
        (0x7ff0_0000_0000_0000 < self.bits && self.bits < 0x8000_0000_0000_0000)
            || 0xfff0_0000_0000_0000 < self.bits
    }

    /// The figure 0.
    pub fn zero() -> (figure: Figure)
        ensures
            figure == Figure::spec_zero(),
    {
        Figure { bits: 0 }
    }

    /// Whether the figure is zero, under either sign.
    pub fn is_zero(&self) -> (zero: bool)
        ensures
            zero == self.spec_is_zero(),
    {
        self.bits == 0 || self.bits == 0x8000_0000_0000_0000
    }
}

impl PartialEq for Figure {
    fn eq(&self, other: &Self) -> (same: bool) {
        !self.is_nan() && !other.is_nan() && (self.bits == other.bits || (self.is_zero()
            && other.is_zero()))
    }
}

impl vstd::std_specs::cmp::PartialEqSpecImpl for Figure {
    open spec fn obeys_eq_spec() -> bool {
        true
    }

    /// Neither figure is a NaN, and they are the same or both zero.
    open spec fn eq_spec(&self, other: &Self) -> bool {
        &&& !self.spec_is_nan()
        &&& !other.spec_is_nan()
        &&& self.bits == other.bits || (self.spec_is_zero() && other.spec_is_zero())
    }
}

/// Resource use of one task, as the `sar` tool reports it.
#[derive(Debug, Clone, Copy, PartialEq)]
pub struct SarStats {
    pub cpu: Figure,
    pub cpu_user: Figure,
    pub network: Figure,
    pub memory: Figure,
    pub io: Figure,
}

impl SarStats {
    /// Nothing is used.
    pub open spec fn spec_idle() -> SarStats {
        SarStats {
            cpu: Figure::spec_zero(),
            cpu_user: Figure::spec_zero(),
            network: Figure::spec_zero(),
            memory: Figure::spec_zero(),
            io: Figure::spec_zero(),
        }
    }

    /// Each part of the emitted demand (compute, state and network) is zero.
    pub open spec fn spec_demands_nothing(self) -> bool {
        self.cpu.spec_is_zero() && self.memory.spec_is_zero() && self.network.spec_is_zero()
    }

    /// Whether each part of the emitted demand (compute, state and network) is
    /// zero. Of measured figures, which are not negative, that is when the three
    /// add up to zero; parts of opposite sign that cancel out do not count as
    /// zero.
    pub fn demands_nothing(&self) -> (nothing: bool)
        ensures
            nothing == self.spec_demands_nothing(),
    {
        self.cpu.is_zero() && self.memory.is_zero() && self.network.is_zero()
    }
}

impl Default for SarStats {
    /// Nothing is used.
    fn default() -> (stats: Self)
        ensures
            stats == SarStats::spec_idle(),
    {
        SarStats {
            cpu: Figure::zero(),
            cpu_user: Figure::zero(),
            network: Figure::zero(),
            memory: Figure::zero(),
            io: Figure::zero(),
        }
    }
}

/// What an analysis of a running program has found out, by operator id.
#[derive(Debug)]
pub struct ILPAnalysisInputs {
    /// How many elements an operator emits.
    pub op_counts: HashMap<usize, usize>,
    /// How large an element is that an operator emits.
    pub op_output_sizes: HashMap<usize, usize>,
    /// What the calibrated table of network costs gives for an operator, on
    /// the count and the size that [`network_query`] returns.
    pub network_costs: HashMap<usize, SarStats>,
    /// The measured load of an operator.
    pub per_op_load: HashMap<usize, SarStats>,
}

/// The number recorded for an operator, 0 without a record.
pub open spec fn count_of(counts: Map<usize, usize>, op_id: usize) -> usize {
    if counts.contains_key(op_id) {
        counts[op_id]
    } else {
        0
    }
}

/// The count and the size for which the network cost table is consulted: those
/// of a network operator without a measured load, if both are positive.
pub open spec fn table_query(op_id: usize, is_network: bool, inputs: ILPAnalysisInputs) -> Option<
    (usize, usize),
> {
    let count = count_of(inputs.op_counts@, op_id);
    let size = count_of(inputs.op_output_sizes@, op_id);
    if !inputs.per_op_load@.contains_key(op_id) && is_network && count > 0 && size > 0 {
        Some((count, size))
    } else {
        None
    }
}

/// The cost of an operator: its measured load, else what the network cost table
/// gives where it is consulted, else nothing.
pub open spec fn cost_of(op_id: usize, is_network: bool, inputs: ILPAnalysisInputs) -> Option<
    SarStats,
> {
    if inputs.per_op_load@.contains_key(op_id) {
        Some(inputs.per_op_load@[op_id])
    } else if table_query(op_id, is_network, inputs) is Some && inputs.network_costs@.contains_key(
        op_id,
    ) {
        Some(inputs.network_costs@[op_id])
    } else {
        None
    }
}

/// The number recorded for an operator, 0 without a record.
fn recorded(counts: &HashMap<usize, usize>, op_id: usize) -> (count: usize)
    ensures
        count == count_of(counts@, op_id),
{
    match counts.get(&op_id) {
        Some(count) => *count,
        None => 0,
    }
}

/// The count and the size for which the network cost table has to be consulted
/// to learn what an operator costs, if it has to be.
pub fn network_query(op_id: usize, raw: &RawOp, inputs: &ILPAnalysisInputs) -> (query: Option<
    (usize, usize),
>)
    ensures
        query == table_query(op_id, raw.is_network, *inputs),
{
    if inputs.per_op_load.contains_key(&op_id) || !raw.is_network {
        return None;
    }
    let count: usize = recorded(&inputs.op_counts, op_id);
    let size: usize = recorded(&inputs.op_output_sizes, op_id);
    if count > 0 && size > 0 {
        Some((count, size))
    } else {
        None
    }
}

/// The cost of an operator per task. `None` if nothing is known, so that the
/// caller can decide whether to drop the operator or to count it as idle.
pub fn cost_for_op(op_id: usize, raw: &RawOp, inputs: &ILPAnalysisInputs) -> (cost: Option<SarStats>)
    ensures
        cost == cost_of(op_id, raw.is_network, *inputs),
{
    if let Some(load) = inputs.per_op_load.get(&op_id) {
        return Some(*load);
    }
    if network_query(op_id, raw, inputs).is_some() {
        if let Some(cost) = inputs.network_costs.get(&op_id) {
            return Some(*cost);
        }
    }
    None
}

} // verus!
