//! Behaviour of the converter's parts on given values.

use std::collections::{HashMap, HashSet};

use hydro_to_capsys::converter::{
    determine_outbound_type, network_queries, retained_ops, NetworkQuery,
};
use hydro_to_capsys::costs::{cost_for_op, network_query, Figure, ILPAnalysisInputs, SarStats};
use hydro_to_capsys::graph::invert_parents;
use hydro_to_capsys::ids::{assign_ids, lookup_ids, ID_BUDGET, ID_CHARS};
use hydro_to_capsys::ir::{
    collect_raw_ops, HydroIr, HydroNode, HydroRoot, IrOp, OpKind, RawOp,
};
use hydro_to_capsys::location::LocationId;
use hydro_to_capsys::naming::{pretty_node_name, pretty_root_name, truncate_name};
use hydro_to_capsys::{convert, CapsysOperator, ConvertOptions, LocationInfo};

#[test]
fn printable_ids_are_unique_and_json_safe() {
    let set: HashSet<&u8> = ID_CHARS.as_bytes().iter().collect();
    assert_eq!(set.len(), ID_CHARS.len());
    // Disallow characters that would need JSON escaping.
    assert!(!ID_CHARS.as_bytes().contains(&b'"'));
    assert!(!ID_CHARS.as_bytes().contains(&b'\\'));
}

#[test]
fn ids_are_the_printable_ascii_characters_but_two() {
    assert_eq!(ID_CHARS.len(), 93);
    assert_eq!(ID_BUDGET, 93);
    for c in ' '..='~' {
        assert_eq!(ID_CHARS.contains(c), c != '"' && c != '\\', "{c}");
    }
    assert!(ID_CHARS.starts_with("abcdefghijklmnopqrstuvwxyzABC"));
}

fn figure(value: f64) -> Figure {
    Figure { bits: value.to_bits() }
}

fn load(cpu: f64, memory: f64, network: f64) -> SarStats {
    SarStats {
        cpu: figure(cpu),
        cpu_user: figure(3.0),
        network: figure(network),
        memory: figure(memory),
        io: figure(4.0),
    }
}

fn nothing_known() -> ILPAnalysisInputs {
    ILPAnalysisInputs {
        op_counts: HashMap::new(),
        op_output_sizes: HashMap::new(),
        network_costs: HashMap::new(),
        per_op_load: HashMap::new(),
    }
}

fn raw(location: LocationId, is_network: bool) -> RawOp {
    RawOp { name: "op".to_string(), location, is_network }
}

fn map_op(op_id: usize, location: LocationId) -> IrOp {
    IrOp { op_id, kind: OpKind::Node(HydroNode::MapOp), location }
}

/// A chain of `n` operators with the given ids, each reading from the one before.
fn chain(op_ids: &[usize]) -> HydroIr {
    let ops = op_ids.iter().map(|id| map_op(*id, LocationId::Process(1))).collect();
    let mut parents = HashMap::new();
    for pair in op_ids.windows(2) {
        parents.insert(pair[1], vec![pair[0]]);
    }
    HydroIr { ops, parents }
}

fn ids(ops: &[CapsysOperator]) -> Vec<&str> {
    ops.iter().map(|op| op.id.as_str()).collect()
}

#[test]
fn parents_are_inverted_in_order_and_without_repetition() {
    let parents = HashMap::from([
        (9, vec![1, 2]),
        (3, vec![2, 2, 1]),
        (5, vec![1]),
        (4, vec![]),
    ]);
    let children = invert_parents(&parents);
    assert_eq!(children, HashMap::from([(1, vec![3, 5, 9]), (2, vec![3, 9])]));
    assert_eq!(
        invert_parents(&children),
        HashMap::from([(3, vec![1, 2]), (5, vec![1]), (9, vec![1, 2])])
    );
    assert!(invert_parents(&HashMap::new()).is_empty());
}

#[test]
fn a_cycle_and_a_self_loop_are_inverted() {
    let children = invert_parents(&HashMap::from([(1, vec![2]), (2, vec![1, 2])]));
    assert_eq!(children, HashMap::from([(1, vec![2]), (2, vec![1, 2])]));
}

#[test]
fn names_are_cut_after_the_limit() {
    assert_eq!(truncate_name("Network", None), "Network");
    assert_eq!(truncate_name("Network", Some(7)), "Network");
    assert_eq!(truncate_name("Network", Some(8)), "Network");
    assert_eq!(truncate_name("Network", Some(3)), "Ne\u{2026}");
    assert_eq!(truncate_name("Network", Some(1)), "\u{2026}");
    assert_eq!(truncate_name("Network", Some(0)), "");
    assert_eq!(truncate_name("", Some(0)), "");
    assert_eq!(truncate_name("", Some(3)), "");
    // Characters count, not bytes.
    assert_eq!(truncate_name("\u{e4}\u{f6}\u{fc}", Some(3)), "\u{e4}\u{f6}\u{fc}");
    assert_eq!(truncate_name("\u{e4}\u{f6}\u{fc}", Some(2)), "\u{e4}\u{2026}");
}

#[test]
fn cutting_a_name_twice_is_cutting_it_once() {
    let once = truncate_name("CrossSingleton", Some(5));
    assert_eq!(once, "Cros\u{2026}");
    assert_eq!(truncate_name(&once, Some(5)), once);
}

#[test]
fn nodes_are_named_by_their_tags() {
    assert_eq!(pretty_node_name(&HydroNode::Placeholder), "Placeholder");
    assert_eq!(pretty_node_name(&HydroNode::MapOp), "Map");
    assert_eq!(pretty_node_name(&HydroNode::FilterMap), "FilterMap");
    assert_eq!(pretty_node_name(&HydroNode::AntiJoin), "AntiJoin");
    assert_eq!(pretty_node_name(&HydroNode::YieldConcat), "YieldConcat");
    assert_eq!(pretty_node_name(&HydroNode::MergeOrdered), "MergeOrdered");
    assert_eq!(pretty_node_name(&HydroNode::CycleSource { cycle_id: 0 }), "CycleSource(0)");
    assert_eq!(pretty_node_name(&HydroNode::CycleSource { cycle_id: 10 }), "CycleSource(10)");
    let source = HydroNode::Source { printed: "Source(Spin)".to_string() };
    assert_eq!(pretty_node_name(&source), "Source(Spin)");
    let other = HydroNode::Other { printed: "Scan(a, b)".to_string() };
    assert_eq!(pretty_node_name(&other), "Scan(a, b)");
}

#[test]
fn roots_are_named_by_their_tags() {
    assert_eq!(pretty_root_name(&HydroRoot::ForEach), "ForEach");
    assert_eq!(pretty_root_name(&HydroRoot::SendExternal), "SendExternal");
    assert_eq!(pretty_root_name(&HydroRoot::DestSink), "DestSink");
    assert_eq!(pretty_root_name(&HydroRoot::EmbeddedOutput), "EmbeddedOutput");
    assert_eq!(pretty_root_name(&HydroRoot::Null), "Null");
    assert_eq!(
        pretty_root_name(&HydroRoot::CycleSink { cycle_id: 1234567890 }),
        "CycleSink(1234567890)"
    );
}

#[test]
fn the_later_of_two_visits_counts() {
    let place = LocationId::Cluster(4);
    let ops = vec![
        map_op(2, place.clone()),
        IrOp {
            op_id: 2,
            kind: OpKind::Node(HydroNode::Network),
            location: LocationId::Process(5),
        },
        IrOp { op_id: 1, kind: OpKind::Root(HydroRoot::Null), location: place.clone() },
    ];
    let raw_ops = collect_raw_ops(&ops);
    assert_eq!(raw_ops.len(), 2);
    assert_eq!(raw_ops[&2].name, "Network");
    assert_eq!(raw_ops[&2].location, LocationId::Process(5));
    assert!(raw_ops[&2].is_network);
    assert_eq!(raw_ops[&1].name, "Null");
    assert!(!raw_ops[&1].is_network);
}

#[test]
fn measured_load_comes_before_the_network_table() {
    let place = LocationId::Process(1);
    let mut inputs = nothing_known();
    inputs.op_counts.insert(7, 100);
    inputs.op_output_sizes.insert(7, 8);
    inputs.network_costs.insert(7, load(5.0, 6.0, 7.0));
    let net = raw(place.clone(), true);

    assert_eq!(network_query(7, &net, &inputs), Some((100, 8)));
    assert_eq!(cost_for_op(7, &net, &inputs), Some(load(5.0, 6.0, 7.0)));
    // Only a network operator is priced by the table.
    assert_eq!(network_query(7, &raw(place.clone(), false), &inputs), None);
    assert_eq!(cost_for_op(7, &raw(place, false), &inputs), None);

    inputs.per_op_load.insert(7, load(1.0, 2.0, 3.0));
    assert_eq!(network_query(7, &net, &inputs), None);
    assert_eq!(cost_for_op(7, &net, &inputs), Some(load(1.0, 2.0, 3.0)));
}

#[test]
fn the_network_table_needs_a_positive_count_and_size() {
    let net = raw(LocationId::Process(1), true);
    let mut inputs = nothing_known();
    inputs.network_costs.insert(7, load(5.0, 6.0, 7.0));
    assert_eq!(cost_for_op(7, &net, &inputs), None);
    inputs.op_counts.insert(7, 1);
    assert_eq!(cost_for_op(7, &net, &inputs), None);
    inputs.op_output_sizes.insert(7, 0);
    assert_eq!(cost_for_op(7, &net, &inputs), None);
    inputs.op_output_sizes.insert(7, 1);
    assert_eq!(network_query(7, &net, &inputs), Some((1, 1)));
    assert_eq!(cost_for_op(7, &net, &inputs), Some(load(5.0, 6.0, 7.0)));
    inputs.op_counts.insert(7, 0);
    assert_eq!(cost_for_op(7, &net, &inputs), None);
}

#[test]
fn network_questions_are_put_once_per_operator() {
    let net = |op_id: usize| IrOp {
        op_id,
        kind: OpKind::Node(HydroNode::Network),
        location: LocationId::Process(1),
    };
    let program = HydroIr {
        ops: vec![net(6), net(2), map_op(3, LocationId::Process(1)), net(6), net(4), net(5)],
        parents: HashMap::new(),
    };
    let mut inputs = nothing_known();
    for op_id in [2, 3, 4, 6] {
        inputs.op_counts.insert(op_id, op_id * 10);
        inputs.op_output_sizes.insert(op_id, op_id);
    }
    inputs.per_op_load.insert(4, load(1.0, 1.0, 1.0));
    let asked = network_queries(&program, &inputs);
    assert_eq!(
        asked,
        [
            NetworkQuery { op_id: 2, count: 20, size: 2 },
            NetworkQuery { op_id: 6, count: 60, size: 6 },
        ]
    );
    // Answered, each of them has its cost.
    for query in &asked {
        inputs.network_costs.insert(query.op_id, load(query.count as f64, 0.5, 0.25));
    }
    let ops = convert(&program, &inputs, &LocationInfo::new(), &ConvertOptions::default());
    let compute: Vec<f64> = ops.iter().map(|op| f64::from_bits(op.compute.bits)).collect();
    assert_eq!(compute, [20.0, 0.0, 1.0, 0.0, 60.0]);
}

#[test]
fn zero_has_two_signs() {
    assert!(figure(0.0).is_zero());
    assert!(figure(-0.0).is_zero());
    assert!(!figure(f64::MIN_POSITIVE).is_zero());
    assert!(!figure(f64::NAN).is_zero());
    assert!(SarStats::default().demands_nothing());
    // User time and disk traffic are not emitted.
    assert!(load(0.0, 0.0, 0.0).demands_nothing());
    assert!(!load(0.0, 0.0, 1e-300).demands_nothing());
    assert!(!load(0.0, 1.0, 0.0).demands_nothing());
    assert!(!load(1.0, 0.0, 0.0).demands_nothing());
}

#[test]
fn figures_compare_as_doubles() {
    let values = [
        0.0,
        -0.0,
        1.0,
        -1.0,
        f64::MIN_POSITIVE,
        5e-324,
        -5e-324,
        f64::MAX,
        f64::INFINITY,
        f64::NEG_INFINITY,
        f64::NAN,
        -f64::NAN,
        f64::from_bits(0x7ff0_0000_0000_0001),
        f64::from_bits(0xfff0_0000_0000_0001),
    ];
    for a in values {
        assert_eq!(figure(a).is_nan(), a.is_nan());
        assert_eq!(figure(a).is_zero(), a == 0.0);
        for b in values {
            assert_eq!(figure(a) == figure(b), a == b, "{a} {b}");
            assert_eq!(load(a, 1.0, 2.0) == load(b, 1.0, 2.0), a == b, "{a} {b}");
        }
    }
}

#[test]
fn records_compare_their_figures_as_doubles() {
    let record = |compute: f64| CapsysOperator {
        id: "a".to_string(),
        name: "Map".to_string(),
        parallelism: 1,
        state: figure(1.0),
        compute: figure(compute),
        network: figure(2.0),
        outboundtype: String::new(),
        down_node: vec![],
        up_node: vec!["b".to_string()],
    };
    assert_eq!(record(0.0), record(-0.0));
    assert_ne!(record(0.0), record(1.0));
    assert_ne!(record(f64::NAN), record(f64::NAN));
}

#[test]
fn outbound_type_compares_root_locations() {
    let here = LocationId::Cluster(1);
    let tick_here = LocationId::Tick(3, Box::new(here.clone()));
    let atomic_here = LocationId::Atomic(Box::new(tick_here.clone()));
    let process_here = LocationId::Process(1);
    let raw_ops = HashMap::from([
        (1, raw(here.clone(), false)),
        (2, raw(atomic_here.clone(), false)),
        (3, raw(process_here, true)),
    ]);
    assert_eq!(determine_outbound_type(&here, &vec![], &raw_ops), "");
    assert_eq!(determine_outbound_type(&tick_here, &vec![1, 2], &raw_ops), "FORWARD");
    assert_eq!(determine_outbound_type(&atomic_here, &vec![1, 2, 3], &raw_ops), "REBALANCE");
    // A child that was not visited does not count.
    assert_eq!(determine_outbound_type(&here, &vec![8], &raw_ops), "FORWARD");
    assert_eq!(determine_outbound_type(&here, &vec![8, 3], &raw_ops), "REBALANCE");
}

#[test]
fn locations_are_known_by_their_roots() {
    let cluster = LocationId::Cluster(7);
    let tick = LocationId::Tick(1, Box::new(cluster.clone()));
    let atomic = LocationId::Atomic(Box::new(LocationId::Tick(2, Box::new(cluster.clone()))));
    assert_eq!(*atomic.root(), cluster);
    assert_ne!(*atomic.root(), LocationId::Process(7));

    let mut info = LocationInfo::new();
    assert_eq!(info.lookup(&cluster), None);
    info.insert(tick.clone(), "workers", 3);
    assert_eq!(info.lookup(&cluster), Some(&("workers".to_string(), 3)));
    assert_eq!(info.lookup(&atomic), Some(&("workers".to_string(), 3)));
    assert_eq!(info.lookup(&LocationId::Process(7)), None);

    info.insert(LocationId::Process(7), "leader", 1);
    info.insert(atomic, "more workers", 5);
    assert_eq!(info.lookup(&tick), Some(&("more workers".to_string(), 5)));
    assert_eq!(info.lookup(&LocationId::Process(7)), Some(&("leader".to_string(), 1)));

    let listed = info.entries();
    assert_eq!(listed.len(), 2);
    assert!(listed.contains(&(cluster.clone(), ("more workers".to_string(), 5))));
    assert!(listed.contains(&(LocationId::Process(7), ("leader".to_string(), 1))));

    let copy = info.clone().with(LocationId::Cluster(8), "others", 2);
    assert_eq!(copy.lookup(&cluster), Some(&("more workers".to_string(), 5)));
    assert_eq!(copy.lookup(&LocationId::Cluster(8)), Some(&("others".to_string(), 2)));
    assert_eq!(info.lookup(&LocationId::Cluster(8)), None);
}

#[test]
fn known_clusters_are_entered_and_others_left_out() {
    let info = LocationInfo::from_clusters(&vec![
        (LocationId::Cluster(1), Some(("one".to_string(), 1))),
        (LocationId::Cluster(2), None),
        (LocationId::Tick(0, Box::new(LocationId::Cluster(3))), Some(("three".to_string(), 3))),
        (LocationId::Cluster(1), Some(("uno".to_string(), 11))),
    ]);
    assert_eq!(info.lookup(&LocationId::Cluster(1)), Some(&("uno".to_string(), 11)));
    assert_eq!(info.lookup(&LocationId::Cluster(2)), None);
    assert_eq!(info.lookup(&LocationId::Cluster(3)), Some(&("three".to_string(), 3)));
}

#[test]
fn default_options() {
    let options = ConvertOptions::default();
    assert_eq!(options.default_parallelism, 1);
    assert!(!options.drop_zero_cost_leaves);
    assert_eq!(options.name_max_len, Some(64));
}

#[test]
fn ids_are_assigned_by_position() {
    let assigned = assign_ids(&vec![3, 8, 20]);
    assert_eq!(
        assigned,
        HashMap::from([(3, "a".to_string()), (8, "b".to_string()), (20, "c".to_string())])
    );
    assert_eq!(lookup_ids(&assigned, &vec![20, 4, 3, 20]), ["c", "a", "c"]);
}

#[test]
fn idle_leaves_are_dropped_on_request() {
    // 1 -> 2 -> 3, with 4 on its own.
    let mut program = chain(&[1, 2, 3]);
    program.ops.push(map_op(4, LocationId::Process(1)));
    let mut inputs = nothing_known();
    let all = ConvertOptions::default();
    let some = ConvertOptions { drop_zero_cost_leaves: true, ..ConvertOptions::default() };

    assert_eq!(retained_ops(&program, &inputs, &all), [1, 2, 3, 4]);
    // An operator with a child stays, a leaf without demand does not.
    assert_eq!(retained_ops(&program, &inputs, &some), [1, 2]);
    let ops = convert(&program, &inputs, &LocationInfo::new(), &some);
    assert_eq!(ids(&ops), ["a", "b"]);
    assert_eq!(ops[0].down_node, ["b"]);
    assert_eq!(ops[1].up_node, ["a"]);
    // What it handed on to is gone, how it handed on is not.
    assert_eq!(ops[1].down_node, Vec::<String>::new());
    assert_eq!(ops[1].outboundtype, "FORWARD");

    // But for the identifiers, what stays is emitted as without dropping.
    let full = convert(&program, &inputs, &LocationInfo::new(), &all);
    for (a, b) in full.iter().zip(&ops) {
        assert_eq!(
            (&a.name, a.parallelism, a.state, a.compute, a.network, &a.outboundtype),
            (&b.name, b.parallelism, b.state, b.compute, b.network, &b.outboundtype)
        );
    }

    // A measured demand of zero is no demand.
    inputs.per_op_load.insert(3, load(0.0, 0.0, 0.0));
    inputs.per_op_load.insert(4, load(0.0, 0.5, 0.0));
    assert_eq!(retained_ops(&program, &inputs, &some), [1, 2, 4]);
    inputs.per_op_load.insert(3, load(0.0, 0.0, 2.0));
    assert_eq!(retained_ops(&program, &inputs, &some), [1, 2, 3, 4]);
}

#[test]
fn operators_come_in_the_order_of_their_ids() {
    let forwards = chain(&[4, 9, 100]);
    let backwards = HydroIr {
        ops: chain(&[100, 9, 4]).ops,
        parents: chain(&[4, 9, 100]).parents,
    };
    let inputs = nothing_known();
    let first =
        convert(&forwards, &inputs, &LocationInfo::new(), &ConvertOptions::default());
    let second =
        convert(&backwards, &inputs, &LocationInfo::new(), &ConvertOptions::default());
    assert_eq!(first, second);
    assert_eq!(ids(&first), ["a", "b", "c"]);
    assert_eq!(first[0].down_node, ["b"]);
    assert_eq!(first[1].down_node, ["c"]);
    assert_eq!(first[2].up_node, ["b"]);
}

#[test]
fn upstream_keeps_repetitions_and_downstream_does_not() {
    let mut program = chain(&[1, 2]);
    program.parents.insert(2, vec![1, 1, 77]);
    program.parents.insert(50, vec![1]);
    let ops = convert(
        &program,
        &nothing_known(),
        &LocationInfo::new(),
        &ConvertOptions::default(),
    );
    assert_eq!(ids(&ops), ["a", "b"]);
    assert_eq!(ops[1].up_node, ["a", "a"]);
    assert_eq!(ops[0].down_node, ["b"]);
}

#[test]
fn names_are_cut_as_the_options_say() {
    let long = "Source(Iter(".to_string() + &"x".repeat(100) + "))";
    let program = HydroIr {
        ops: vec![IrOp {
            op_id: 0,
            kind: OpKind::Node(HydroNode::Source { printed: long.clone() }),
            location: LocationId::Process(1),
        }],
        parents: HashMap::new(),
    };
    let named = |name_max_len: Option<usize>| {
        let options = ConvertOptions { name_max_len, ..ConvertOptions::default() };
        convert(&program, &nothing_known(), &LocationInfo::new(), &options)[0].name.clone()
    };
    assert_eq!(named(None), long);
    assert_eq!(named(Some(6)), "Sourc\u{2026}");
    assert_eq!(named(Some(64)).chars().count(), 64);
    assert!(named(Some(64)).ends_with("xx\u{2026}"));
}

#[test]
fn the_whole_budget_can_be_used() {
    let op_ids: Vec<usize> = (0..ID_BUDGET).collect();
    let ops = convert(
        &chain(&op_ids),
        &nothing_known(),
        &LocationInfo::new(),
        &ConvertOptions::default(),
    );
    assert_eq!(ops.len(), 93);
    let distinct: HashSet<&str> = ids(&ops).into_iter().collect();
    assert_eq!(distinct.len(), 93);
    assert!(ops.iter().all(|op| op.id.len() == 1));
    for pair in ops.windows(2) {
        assert_eq!(pair[0].down_node, [pair[1].id.clone()]);
        assert_eq!(pair[1].up_node, [pair[0].id.clone()]);
    }
}

#[test]
fn an_empty_program_has_no_operators() {
    let program = HydroIr { ops: vec![], parents: HashMap::from([(1, vec![2])]) };
    assert!(convert(
        &program,
        &nothing_known(),
        &LocationInfo::new(),
        &ConvertOptions::default()
    )
    .is_empty());
}
