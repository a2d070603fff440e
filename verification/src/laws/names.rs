//! What operators are called.

use vstd::prelude::*;

use crate::ir::{HydroNode, HydroRoot, OpKind};
use crate::naming;

verus! {

/// The name of an operator, before it is shortened.
spec fn kind_name(kind: OpKind) -> Seq<char> {
    match kind {
        OpKind::Root(root) => naming::root_name(root),
        OpKind::Node(node) => naming::node_name(node),
    }
}

/// The number that a sequence of decimal digits denotes.
pub open spec fn digits_value(digits: Seq<char>) -> int
    decreases digits.len(),
{
    if digits.len() == 0 {
        0
    } else {
        digits_value(digits.drop_last()) * 10 + (digits.last() as int - '0' as int)
    }
}

/// Decimal notation consists of digits, denotes the number, and has no leading
/// zero but for zero itself.
pub proof fn decimal_denotes_the_number(n: nat)
    ensures
        digits_value(naming::decimal(n)) == n,
        forall|i: int|
            0 <= i < naming::decimal(n).len() ==> '0' <= #[trigger] naming::decimal(n)[i] <= '9',
        naming::decimal(n).len() > 0,
        n > 0 ==> naming::decimal(n)[0] != '0',
        n == 0 ==> naming::decimal(n).len() == 1,
    decreases n,
{
    reveal_strlit("0123456789");
    let s = naming::decimal(n);
    if n < 10 {
        assert(s.drop_last() =~= Seq::empty());
        assert(digits_value(s.drop_last()) == 0);
    } else {
        decimal_denotes_the_number(n / 10);
        let front = naming::decimal(n / 10);
        assert(s.drop_last() =~= front);
        assert forall|i: int| 0 <= i < s.len() implies '0' <= #[trigger] s[i] <= '9' by {
            if i < front.len() {
                assert(s[i] == front[i]);
            }
        }
        assert(s[0] == front[0]);
    }
}

/// Two numbers with the same notation are the same.
pub proof fn decimal_tells_numbers_apart(a: nat, b: nat)
    requires
        naming::decimal(a) == naming::decimal(b),
    ensures
        a == b,
{
    decimal_denotes_the_number(a);
    decimal_denotes_the_number(b);
}

/// Either end of a cycle is called by its tag and, in parentheses, the number of
/// the cycle.
pub proof fn cycle_ends_are_numbered(cycle_id: usize)
    ensures
        ({
            let name = naming::node_name(HydroNode::CycleSource { cycle_id });
            &&& name.len() > 13
            &&& name.take(12) == "CycleSource("@
            &&& digits_value(name.subrange(12, name.len() - 1)) == cycle_id
            &&& name.last() == ')'
        }),
        ({
            let name = naming::root_name(HydroRoot::CycleSink { cycle_id });
            &&& name.len() > 11
            &&& name.take(10) == "CycleSink("@
            &&& digits_value(name.subrange(10, name.len() - 1)) == cycle_id
            &&& name.last() == ')'
        }),
        naming::node_name(HydroNode::CycleSource { cycle_id }) == "CycleSource("@ + naming::decimal(
            cycle_id as nat,
        ) + ")"@,
        naming::root_name(HydroRoot::CycleSink { cycle_id }) == "CycleSink("@ + naming::decimal(
            cycle_id as nat,
        ) + ")"@,
{
    reveal_strlit("CycleSource");
    reveal_strlit("CycleSource(");
    reveal_strlit("CycleSink");
    reveal_strlit("CycleSink(");
    reveal_strlit("(");
    reveal_strlit(")");
    decimal_denotes_the_number(cycle_id as nat);
    let digits = naming::decimal(cycle_id as nat);
    let source = naming::node_name(HydroNode::CycleSource { cycle_id });
    let sink = naming::root_name(HydroRoot::CycleSink { cycle_id });
    assert("CycleSource("@ =~= "CycleSource"@ + "("@);
    assert("CycleSink("@ =~= "CycleSink"@ + "("@);
    assert(source =~= "CycleSource("@ + digits + ")"@);
    assert(sink =~= "CycleSink("@ + digits + ")"@);
    assert(source.take(12) =~= "CycleSource("@);
    assert(sink.take(10) =~= "CycleSink("@);
    assert(source.subrange(12, source.len() - 1) =~= digits);
    assert(sink.subrange(10, sink.len() - 1) =~= digits);
}

/// A node is called by the name of its variant, or by its printed form where it
/// has one.
pub proof fn nodes_are_called_by_their_variants(node: HydroNode)
    ensures
        node is Placeholder ==> naming::node_name(node) == "Placeholder"@,
        node is Cast ==> naming::node_name(node) == "Cast"@,
        node is ObserveNonDet ==> naming::node_name(node) == "ObserveNonDet"@,
        node is SingletonSource ==> naming::node_name(node) == "SingletonSource"@,
        node is Tee ==> naming::node_name(node) == "Tee"@,
        node is Partition ==> naming::node_name(node) == "Partition"@,
        node is Network ==> naming::node_name(node) == "Network"@,
        node is MapOp ==> naming::node_name(node) == "Map"@,
        node is Filter ==> naming::node_name(node) == "Filter"@,
        node is FilterMap ==> naming::node_name(node) == "FilterMap"@,
        node is FlatMap ==> naming::node_name(node) == "FlatMap"@,
        node is Fold ==> naming::node_name(node) == "Fold"@,
        node is FoldKeyed ==> naming::node_name(node) == "FoldKeyed"@,
        node is Reduce ==> naming::node_name(node) == "Reduce"@,
        node is ReduceKeyed ==> naming::node_name(node) == "ReduceKeyed"@,
        node is Unique ==> naming::node_name(node) == "Unique"@,
        node is Sort ==> naming::node_name(node) == "Sort"@,
        node is Counter ==> naming::node_name(node) == "Counter"@,
        node is Chain ==> naming::node_name(node) == "Chain"@,
        node is MergeOrdered ==> naming::node_name(node) == "MergeOrdered"@,
        node is Inspect ==> naming::node_name(node) == "Inspect"@,
        node is Enumerate ==> naming::node_name(node) == "Enumerate"@,
        node is CrossProduct ==> naming::node_name(node) == "CrossProduct"@,
        node is CrossSingleton ==> naming::node_name(node) == "CrossSingleton"@,
        node is Join ==> naming::node_name(node) == "Join"@,
        node is Difference ==> naming::node_name(node) == "Difference"@,
        node is AntiJoin ==> naming::node_name(node) == "AntiJoin"@,
        node is DeferTick ==> naming::node_name(node) == "DeferTick"@,
        node is BeginAtomic ==> naming::node_name(node) == "BeginAtomic"@,
        node is EndAtomic ==> naming::node_name(node) == "EndAtomic"@,
        node is Batch ==> naming::node_name(node) == "Batch"@,
        node is YieldConcat ==> naming::node_name(node) == "YieldConcat"@,
        node matches HydroNode::Source { printed } ==> naming::node_name(node) == printed@,
        node matches HydroNode::Other { printed } ==> naming::node_name(node) == printed@,
{
}

/// A sink is called by the name of its variant.
pub proof fn roots_are_called_by_their_variants(root: HydroRoot)
    ensures
        root is ForEach ==> naming::root_name(root) == "ForEach"@,
        root is SendExternal ==> naming::root_name(root) == "SendExternal"@,
        root is DestSink ==> naming::root_name(root) == "DestSink"@,
        root is EmbeddedOutput ==> naming::root_name(root) == "EmbeddedOutput"@,
        root is Null ==> naming::root_name(root) == "Null"@,
{
}

/// Whether an operator is called by the name of its variant alone.
spec fn is_tagged(kind: OpKind) -> bool {
    match kind {
        OpKind::Root(HydroRoot::CycleSink { .. }) => false,
        OpKind::Root(_) => true,
        OpKind::Node(HydroNode::CycleSource { .. }) => false,
        OpKind::Node(HydroNode::Source { .. }) => false,
        OpKind::Node(HydroNode::Other { .. }) => false,
        OpKind::Node(_) => true,
    }
}

/// Whether an operator is called by a printed form.
pub open spec fn is_printed(kind: OpKind) -> bool {
    match kind {
        OpKind::Node(HydroNode::Source { .. }) => true,
        OpKind::Node(HydroNode::Other { .. }) => true,
        _ => false,
    }
}

/// A number by which the names of the variants differ.
spec fn fingerprint(name: Seq<char>) -> int {
    name.len() + name[0] as int + 7 * (name[1] as int) + 10 * (name.last() as int)
}

/// The fingerprint of the name of each variant.
spec fn tag_print(kind: OpKind) -> int {
    match kind {
        OpKind::Root(HydroRoot::ForEach) => 1894,
        OpKind::Root(HydroRoot::SendExternal) => 1882,
        OpKind::Root(HydroRoot::DestSink) => 1853,
        OpKind::Root(HydroRoot::EmbeddedOutput) => 2006,
        OpKind::Root(HydroRoot::Null) => 1981,
        OpKind::Node(HydroNode::Placeholder) => 1987,
        OpKind::Node(HydroNode::Cast) => 1910,
        OpKind::Node(HydroNode::ObserveNonDet) => 1938,
        OpKind::Node(HydroNode::SingletonSource) => 1843,
        OpKind::Node(HydroNode::Tee) => 1804,
        OpKind::Node(HydroNode::Partition) => 1868,
        OpKind::Node(HydroNode::Network) => 1862,
        OpKind::Node(HydroNode::MapOp) => 1879,
        OpKind::Node(HydroNode::Filter) => 1951,
        OpKind::Node(HydroNode::FilterMap) => 1934,
        OpKind::Node(HydroNode::FlatMap) => 1953,
        OpKind::Node(HydroNode::Fold) => 1851,
        OpKind::Node(HydroNode::FoldKeyed) => 1856,
        OpKind::Node(HydroNode::Reduce) => 1805,
        OpKind::Node(HydroNode::ReduceKeyed) => 1800,
        OpKind::Node(HydroNode::Unique) => 1871,
        OpKind::Node(HydroNode::Sort) => 2024,
        OpKind::Node(HydroNode::Counter) => 1991,
        OpKind::Node(HydroNode::Chain) => 1900,
        OpKind::Node(HydroNode::MergeOrdered) => 1796,
        OpKind::Node(HydroNode::Inspect) => 2010,
        OpKind::Node(HydroNode::Enumerate) => 1858,
        OpKind::Node(HydroNode::CrossProduct) => 2037,
        OpKind::Node(HydroNode::CrossSingleton) => 1979,
        OpKind::Node(HydroNode::Join) => 1955,
        OpKind::Node(HydroNode::Difference) => 1823,
        OpKind::Node(HydroNode::AntiJoin) => 1943,
        OpKind::Node(HydroNode::DeferTick) => 1854,
        OpKind::Node(HydroNode::BeginAtomic) => 1774,
        OpKind::Node(HydroNode::EndAtomic) => 1838,
        OpKind::Node(HydroNode::Batch) => 1790,
        OpKind::Node(HydroNode::YieldConcat) => 1995,
        _ => 0,
    }
}

proof fn lemma_tag_print(kind: OpKind)
    requires
        is_tagged(kind),
    ensures
        fingerprint(kind_name(kind)) == tag_print(kind),
        kind_name(kind).last() != ')',
{
    match kind {
        OpKind::Root(HydroRoot::ForEach) => reveal_strlit("ForEach"),
        OpKind::Root(HydroRoot::SendExternal) => reveal_strlit("SendExternal"),
        OpKind::Root(HydroRoot::DestSink) => reveal_strlit("DestSink"),
        OpKind::Root(HydroRoot::EmbeddedOutput) => reveal_strlit("EmbeddedOutput"),
        OpKind::Root(HydroRoot::Null) => reveal_strlit("Null"),
        OpKind::Node(HydroNode::Placeholder) => reveal_strlit("Placeholder"),
        OpKind::Node(HydroNode::Cast) => reveal_strlit("Cast"),
        OpKind::Node(HydroNode::ObserveNonDet) => reveal_strlit("ObserveNonDet"),
        OpKind::Node(HydroNode::SingletonSource) => reveal_strlit("SingletonSource"),
        OpKind::Node(HydroNode::Tee) => reveal_strlit("Tee"),
        OpKind::Node(HydroNode::Partition) => reveal_strlit("Partition"),
        OpKind::Node(HydroNode::Network) => reveal_strlit("Network"),
        OpKind::Node(HydroNode::MapOp) => reveal_strlit("Map"),
        OpKind::Node(HydroNode::Filter) => reveal_strlit("Filter"),
        OpKind::Node(HydroNode::FilterMap) => reveal_strlit("FilterMap"),
        OpKind::Node(HydroNode::FlatMap) => reveal_strlit("FlatMap"),
        OpKind::Node(HydroNode::Fold) => reveal_strlit("Fold"),
        OpKind::Node(HydroNode::FoldKeyed) => reveal_strlit("FoldKeyed"),
        OpKind::Node(HydroNode::Reduce) => reveal_strlit("Reduce"),
        OpKind::Node(HydroNode::ReduceKeyed) => reveal_strlit("ReduceKeyed"),
        OpKind::Node(HydroNode::Unique) => reveal_strlit("Unique"),
        OpKind::Node(HydroNode::Sort) => reveal_strlit("Sort"),
        OpKind::Node(HydroNode::Counter) => reveal_strlit("Counter"),
        OpKind::Node(HydroNode::Chain) => reveal_strlit("Chain"),
        OpKind::Node(HydroNode::MergeOrdered) => reveal_strlit("MergeOrdered"),
        OpKind::Node(HydroNode::Inspect) => reveal_strlit("Inspect"),
        OpKind::Node(HydroNode::Enumerate) => reveal_strlit("Enumerate"),
        OpKind::Node(HydroNode::CrossProduct) => reveal_strlit("CrossProduct"),
        OpKind::Node(HydroNode::CrossSingleton) => reveal_strlit("CrossSingleton"),
        OpKind::Node(HydroNode::Join) => reveal_strlit("Join"),
        OpKind::Node(HydroNode::Difference) => reveal_strlit("Difference"),
        OpKind::Node(HydroNode::AntiJoin) => reveal_strlit("AntiJoin"),
        OpKind::Node(HydroNode::DeferTick) => reveal_strlit("DeferTick"),
        OpKind::Node(HydroNode::BeginAtomic) => reveal_strlit("BeginAtomic"),
        OpKind::Node(HydroNode::EndAtomic) => reveal_strlit("EndAtomic"),
        OpKind::Node(HydroNode::Batch) => reveal_strlit("Batch"),
        OpKind::Node(HydroNode::YieldConcat) => reveal_strlit("YieldConcat"),
        _ => {},
    }
}

/// Operators that are not called by a printed form have different names unless
/// they are the same.
pub proof fn names_tell_operators_apart(a: OpKind, b: OpKind)
    requires
        !is_printed(a),
        !is_printed(b),
        (match a {
            OpKind::Root(root) => naming::root_name(root),
            OpKind::Node(node) => naming::node_name(node),
        }) == (match b {
            OpKind::Root(root) => naming::root_name(root),
            OpKind::Node(node) => naming::node_name(node),
        }),
    ensures
        a == b,
{
    if is_tagged(a) {
        lemma_tag_print(a);
    } else {
        lemma_cycle_end(a);
    }
    if is_tagged(b) {
        lemma_tag_print(b);
    } else {
        lemma_cycle_end(b);
    }
    if is_tagged(a) {
        assert(is_tagged(b));
        assert(tag_print(a) == tag_print(b));
    } else {
        reveal_strlit("CycleSource(");
        reveal_strlit("CycleSink(");
        let name = kind_name(a);
        assert("CycleSource("@[6] != "CycleSink("@[6]);
        assert(name[6] == kind_name(b)[6]);
    }
}

proof fn lemma_cycle_end(kind: OpKind)
    requires
        !is_tagged(kind),
        !is_printed(kind),
    ensures
        kind_name(kind).last() == ')',
        kind matches OpKind::Node(HydroNode::CycleSource { cycle_id }) ==> {
            &&& kind_name(kind)[6] == "CycleSource("@[6]
            &&& digits_value(kind_name(kind).subrange(12, kind_name(kind).len() - 1)) == cycle_id
        },
        kind matches OpKind::Root(HydroRoot::CycleSink { cycle_id }) ==> {
            &&& kind_name(kind)[6] == "CycleSink("@[6]
            &&& digits_value(kind_name(kind).subrange(10, kind_name(kind).len() - 1)) == cycle_id
        },
{
    match kind {
        OpKind::Node(HydroNode::CycleSource { cycle_id }) => {
            cycle_ends_are_numbered(cycle_id);
            assert(kind_name(kind).take(12)[6] == kind_name(kind)[6]);
        },
        OpKind::Root(HydroRoot::CycleSink { cycle_id }) => {
            cycle_ends_are_numbered(cycle_id);
            assert(kind_name(kind).take(10)[6] == kind_name(kind)[6]);
        },
        _ => {},
    }
}

/// Without a limit a name stays as it is; under a limit it stays so exactly if
/// it fits; otherwise it fills the limit, keeps all but its last place, and ends
/// in an ellipsis.
pub proof fn names_keep_to_their_limit(name: Seq<char>, n: usize)
    ensures
        naming::shortened(name, None) == name,
        name.len() <= n ==> naming::shortened(name, Some(n)) == name,
        name.len() > n ==> naming::shortened(name, Some(n)).len() == n,
        forall|i: int|
            name.len() > n && 0 <= i < n - 1 ==> #[trigger] naming::shortened(name, Some(n))[i]
                == name[i],
        name.len() > n && n > 0 ==> naming::shortened(name, Some(n))[n - 1] == '\u{2026}',
{
}

} // verus!
