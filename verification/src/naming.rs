//! Display names of operators.
//!
//! The printed form of a Hydro node embeds whole closures. Operators are named
//! by a short tag instead; only where the payload is informative, or where a
//! node has no tag of its own, does the printed form stand.

use vstd::prelude::*;
use vstd::string::*;

use crate::ir::{HydroNode, HydroRoot};

verus! {

/// A number in decimal notation.
pub open spec fn decimal(n: nat) -> Seq<char>
    decreases n,
{
    if n < 10 {
        seq!["0123456789"@[n as int]]
    } else {
        decimal(n / 10).push("0123456789"@[(n % 10) as int])
    }
}

/// A tag followed by a number in parentheses.
pub open spec fn numbered(tag: Seq<char>, n: usize) -> Seq<char> {
    tag + "("@ + decimal(n as nat) + ")"@
}

/// The name of an intermediate operator.
pub open spec fn node_name(node: HydroNode) -> Seq<char> {
    match node {
        HydroNode::Placeholder => "Placeholder"@,
        HydroNode::Cast => "Cast"@,
        HydroNode::ObserveNonDet => "ObserveNonDet"@,
        HydroNode::SingletonSource => "SingletonSource"@,
        HydroNode::Tee => "Tee"@,
        HydroNode::Partition => "Partition"@,
        HydroNode::Network => "Network"@,
        HydroNode::MapOp => "Map"@,
        HydroNode::Filter => "Filter"@,
        HydroNode::FilterMap => "FilterMap"@,
        HydroNode::FlatMap => "FlatMap"@,
        HydroNode::Fold => "Fold"@,
        HydroNode::FoldKeyed => "FoldKeyed"@,
        HydroNode::Reduce => "Reduce"@,
        HydroNode::ReduceKeyed => "ReduceKeyed"@,
        HydroNode::Unique => "Unique"@,
        HydroNode::Sort => "Sort"@,
        HydroNode::Counter => "Counter"@,
        HydroNode::Chain => "Chain"@,
        HydroNode::MergeOrdered => "MergeOrdered"@,
        HydroNode::Inspect => "Inspect"@,
        HydroNode::Enumerate => "Enumerate"@,
        HydroNode::CrossProduct => "CrossProduct"@,
        HydroNode::CrossSingleton => "CrossSingleton"@,
        HydroNode::Join => "Join"@,
        HydroNode::Difference => "Difference"@,
        HydroNode::AntiJoin => "AntiJoin"@,
        HydroNode::DeferTick => "DeferTick"@,
        HydroNode::BeginAtomic => "BeginAtomic"@,
        HydroNode::EndAtomic => "EndAtomic"@,
        HydroNode::Batch => "Batch"@,
        HydroNode::YieldConcat => "YieldConcat"@,
        HydroNode::Source { printed } => printed@,
        HydroNode::CycleSource { cycle_id } => numbered("CycleSource"@, cycle_id),
        HydroNode::Other { printed } => printed@,
    }
}

/// The name of a sink.
pub open spec fn root_name(root: HydroRoot) -> Seq<char> {
    match root {
        HydroRoot::ForEach => "ForEach"@,
        HydroRoot::SendExternal => "SendExternal"@,
        HydroRoot::DestSink => "DestSink"@,
        HydroRoot::EmbeddedOutput => "EmbeddedOutput"@,
        HydroRoot::Null => "Null"@,
        HydroRoot::CycleSink { cycle_id } => numbered("CycleSink"@, cycle_id),
    }
}

/// The name as it is emitted: of at most `max` characters, the last of which is
/// an ellipsis where the name is longer than that.
pub open spec fn shortened(name: Seq<char>, max: Option<usize>) -> Seq<char> {
    match max {
        Some(n) if name.len() > n => if n == 0 {
            Seq::empty()
        } else {
            name.take(n - 1).push('\u{2026}')
        },
        _ => name,
    }
}

/// Appends `n` in decimal notation.
fn push_decimal(out: &mut String, n: usize)
    ensures
        final(out)@ == old(out)@ + decimal(n as nat),
    decreases n,
{
    if n >= 10 {
        push_decimal(out, n / 10);
    }
    let digit: usize = n % 10;
    proof {
        reveal_strlit("0123456789");
    }
    out.append("0123456789".substring_char(digit, digit + 1));
}

/// A tag followed by a number in parentheses.
fn numbered_name(tag: &str, n: usize) -> (name: String)
    ensures
        name@ == numbered(tag@, n),
{
    let mut name: String = tag.to_owned();
    name.append("(");
    push_decimal(&mut name, n);
    name.append(")");
    name
}

/// The name of an intermediate operator: its tag, or its printed form.
pub fn pretty_node_name(node: &HydroNode) -> (name: String)
    ensures
        name@ == node_name(*node),
{
    match node {
        HydroNode::Placeholder => "Placeholder".to_owned(),
        HydroNode::Cast => "Cast".to_owned(),
        HydroNode::ObserveNonDet => "ObserveNonDet".to_owned(),
        HydroNode::SingletonSource => "SingletonSource".to_owned(),
        HydroNode::Tee => "Tee".to_owned(),
        HydroNode::Partition => "Partition".to_owned(),
        HydroNode::Network => "Network".to_owned(),
        HydroNode::MapOp => "Map".to_owned(),
        HydroNode::Filter => "Filter".to_owned(),
        HydroNode::FilterMap => "FilterMap".to_owned(),
        HydroNode::FlatMap => "FlatMap".to_owned(),
        HydroNode::Fold => "Fold".to_owned(),
        HydroNode::FoldKeyed => "FoldKeyed".to_owned(),
        HydroNode::Reduce => "Reduce".to_owned(),
        HydroNode::ReduceKeyed => "ReduceKeyed".to_owned(),
        HydroNode::Unique => "Unique".to_owned(),
        HydroNode::Sort => "Sort".to_owned(),
        HydroNode::Counter => "Counter".to_owned(),
        HydroNode::Chain => "Chain".to_owned(),
        HydroNode::MergeOrdered => "MergeOrdered".to_owned(),
        HydroNode::Inspect => "Inspect".to_owned(),
        HydroNode::Enumerate => "Enumerate".to_owned(),
        HydroNode::CrossProduct => "CrossProduct".to_owned(),
        HydroNode::CrossSingleton => "CrossSingleton".to_owned(),
        HydroNode::Join => "Join".to_owned(),
        HydroNode::Difference => "Difference".to_owned(),
        HydroNode::AntiJoin => "AntiJoin".to_owned(),
        HydroNode::DeferTick => "DeferTick".to_owned(),
        HydroNode::BeginAtomic => "BeginAtomic".to_owned(),
        HydroNode::EndAtomic => "EndAtomic".to_owned(),
        HydroNode::Batch => "Batch".to_owned(),
        HydroNode::YieldConcat => "YieldConcat".to_owned(),
        HydroNode::Source { printed } => printed.clone(),
        HydroNode::CycleSource { cycle_id } => numbered_name("CycleSource", *cycle_id),
        HydroNode::Other { printed } => printed.clone(),
    }
}

/// The name of a sink: its tag.
pub fn pretty_root_name(root: &HydroRoot) -> (name: String)
    ensures
        name@ == root_name(*root),
{
    match root {
        HydroRoot::ForEach => "ForEach".to_owned(),
        HydroRoot::SendExternal => "SendExternal".to_owned(),
        HydroRoot::DestSink => "DestSink".to_owned(),
        HydroRoot::EmbeddedOutput => "EmbeddedOutput".to_owned(),
        HydroRoot::Null => "Null".to_owned(),
        HydroRoot::CycleSink { cycle_id } => numbered_name("CycleSink", *cycle_id),
    }
}

/// Truncates a name to `max` characters, if it is longer, and marks the cut with
/// an ellipsis, which counts as one of them. Without a limit the name stays as
/// it is.
pub fn truncate_name(name: &str, max: Option<usize>) -> (out: String)
    ensures
        out@ == shortened(name@, max),
        max matches Some(n) ==> out@.len() <= n,
{
    match max {
        None => name.to_owned(),
        Some(n) => {
            if name.unicode_len() <= n {
                name.to_owned()
            } else if n == 0 {
                String::new()
            } else {
                let mut out: String = name.substring_char(0, n - 1).to_owned();
                proof {
                    reveal_strlit("\u{2026}");
                }
                out.append("\u{2026}");
                out
            }
        },
    }
}

} // verus!
