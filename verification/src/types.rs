//! The records that the CAPSys search consumes, one per operator.

use vstd::prelude::*;

use crate::costs::Figure;

verus! {

/// One operator of a CAPSys job graph.
///
/// Records are equal if all fields are; the figures compare as doubles do (see
/// [`Figure`]).
#[derive(Debug, Clone, PartialEq)]
pub struct CapsysOperator {
    /// A one-character identifier.
    pub id: String,
    /// A human-readable tag.
    pub name: String,
    /// The number of task instances.
    pub parallelism: usize,
    /// Memory demand per task.
    pub state: Figure,
    /// Processor demand per task.
    pub compute: Figure,
    /// Network demand per task.
    pub network: Figure,
    /// `"FORWARD"`, `"REBALANCE"` or `"HASH"`; empty for a sink.
    pub outboundtype: String,
    /// The ids of the operators downstream.
    pub down_node: Vec<String>,
    /// The ids of the operators upstream.
    pub up_node: Vec<String>,
}

/// A [`CapsysOperator`] with its strings as sequences of characters.
#[verifier::ext_equal]
pub struct CapsysOperatorView {
    pub id: Seq<char>,
    pub name: Seq<char>,
    pub parallelism: usize,
    pub state: Figure,
    pub compute: Figure,
    pub network: Figure,
    pub outboundtype: Seq<char>,
    pub down_node: Seq<Seq<char>>,
    pub up_node: Seq<Seq<char>>,
}

/// A list of strings, string by string.
pub open spec fn strings_view(strings: Seq<String>) -> Seq<Seq<char>> {
    strings.map_values(|s: String| s@)
}

impl View for CapsysOperator {
    type V = CapsysOperatorView;

    open spec fn view(&self) -> CapsysOperatorView {
        CapsysOperatorView {
            id: self.id@,
            name: self.name@,
            parallelism: self.parallelism,
            state: self.state,
            compute: self.compute,
            network: self.network,
            outboundtype: self.outboundtype@,
            down_node: strings_view(self.down_node@),
            up_node: strings_view(self.up_node@),
        }
    }
}

/// A list of operators, operator by operator.
pub open spec fn operators_view(ops: Seq<CapsysOperator>) -> Seq<CapsysOperatorView> {
    ops.map_values(|op: CapsysOperator| op@)
}

} // verus!
