//! What figures, loads and costs mean.

use vstd::prelude::*;
use vstd::std_specs::cmp::PartialEqSpec;

use crate::costs;
use crate::costs::{Figure, ILPAnalysisInputs, SarStats};

verus! {

/// The bits of a figure but its sign.
pub open spec fn magnitude(figure: Figure) -> int {
    figure.bits as int % 0x8000_0000_0000_0000
}

/// Where a figure that is a number stands among them: below 0 if it is negative,
/// the farther from 0 the larger its magnitude.
pub open spec fn rank(figure: Figure) -> int {
    if figure.bits < 0x8000_0000_0000_0000 {
        magnitude(figure)
    } else {
        -magnitude(figure)
    }
}

/// A figure is zero if nothing but its sign is set. It is a NaN if all eleven
/// bits of its exponent are set and one of the fifty-two of its fraction.
pub proof fn bit_patterns_are_read_as_doubles(figure: Figure)
    ensures
        figure.spec_is_zero() <==> magnitude(figure) == 0,
        figure.spec_is_nan() <==> (magnitude(figure) / 0x10_0000_0000_0000 == 0x7ff && magnitude(
            figure,
        ) % 0x10_0000_0000_0000 != 0),
        Figure::spec_zero().bits == 0,
{
}

/// Figures are equal exactly if both are numbers and stand at the same place. So
/// a number equals itself, and the two zeros each other.
pub proof fn figures_are_equal_as_numbers(a: Figure, b: Figure)
    ensures
        a.eq_spec(&b) <==> (magnitude(a) <= 0x7ff0_0000_0000_0000 && magnitude(b)
            <= 0x7ff0_0000_0000_0000 && rank(a) == rank(b)),
        a.eq_spec(&b) == b.eq_spec(&a),
{
}

/// A load demands nothing exactly if its processor, its memory and its network
/// figure each have no bit set but the sign.
pub proof fn demand_is_nothing_if_each_figure_is_zero(stats: SarStats)
    ensures
        stats.spec_demands_nothing() <==> {
            &&& stats.cpu.bits == 0 || stats.cpu.bits == 0x8000_0000_0000_0000
            &&& stats.memory.bits == 0 || stats.memory.bits == 0x8000_0000_0000_0000
            &&& stats.network.bits == 0 || stats.network.bits == 0x8000_0000_0000_0000
        },
{
}

/// An idle task uses nothing of anything.
pub proof fn idle_is_zero_throughout()
    ensures
        SarStats::spec_idle().cpu.bits == 0,
        SarStats::spec_idle().cpu_user.bits == 0,
        SarStats::spec_idle().network.bits == 0,
        SarStats::spec_idle().memory.bits == 0,
        SarStats::spec_idle().io.bits == 0,
{
}

/// A measured load is the cost, whatever else is known of the operator.
pub proof fn measured_load_is_the_cost(op_id: usize, is_network: bool, inputs: ILPAnalysisInputs)
    requires
        inputs.per_op_load@.contains_key(op_id),
    ensures
        costs::cost_of(op_id, is_network, inputs) == Some(inputs.per_op_load@[op_id]),
        costs::table_query(op_id, is_network, inputs) is None,
{
}

/// Without a measured load, the table is consulted for a network operator whose
/// count and size are both recorded and positive, and for no other; it is asked
/// for just that count and that size.
pub proof fn table_is_asked_for_recorded_traffic(
    op_id: usize,
    is_network: bool,
    inputs: ILPAnalysisInputs,
    count: usize,
    size: usize,
)
    requires
        !inputs.per_op_load@.contains_key(op_id),
    ensures
        costs::table_query(op_id, is_network, inputs) == Some((count, size)) <==> {
            &&& is_network
            &&& inputs.op_counts@.contains_key(op_id)
            &&& inputs.op_counts@[op_id] == count
            &&& count > 0
            &&& inputs.op_output_sizes@.contains_key(op_id)
            &&& inputs.op_output_sizes@[op_id] == size
            &&& size > 0
        },
{
}

/// Without a measured load, the cost is what the table answered where it is
/// consulted, and nothing is known otherwise.
pub proof fn table_gives_the_cost_of_traffic(
    op_id: usize,
    is_network: bool,
    inputs: ILPAnalysisInputs,
    cost: SarStats,
)
    requires
        !inputs.per_op_load@.contains_key(op_id),
    ensures
        costs::cost_of(op_id, is_network, inputs) == Some(cost) <==> {
            &&& is_network
            &&& inputs.op_counts@.contains_key(op_id)
            &&& inputs.op_counts@[op_id] > 0
            &&& inputs.op_output_sizes@.contains_key(op_id)
            &&& inputs.op_output_sizes@[op_id] > 0
            &&& inputs.network_costs@.contains_key(op_id)
            &&& inputs.network_costs@[op_id] == cost
        },
{
}

} // verus!
