//! A small pipeline that spans two clusters, fed through `convert`.

use std::collections::{HashMap, HashSet};

use hydro_to_capsys::costs::{Figure, ILPAnalysisInputs, SarStats};
use hydro_to_capsys::ir::{HydroIr, HydroNode, HydroRoot, IrOp, OpKind};
use hydro_to_capsys::location::LocationId;
use hydro_to_capsys::{convert, ConvertOptions, LocationInfo};

fn figure(value: f64) -> Figure {
    Figure { bits: value.to_bits() }
}

fn node(op_id: usize, node: HydroNode, location: &LocationId) -> IrOp {
    IrOp { op_id, kind: OpKind::Node(node), location: location.clone() }
}

/// The shape is:
///
/// ```text
/// source_cluster: source_iter -> map -> broadcast (network) -> sink_cluster: values -> for_each
/// ```
///
/// where a broadcast pairs every element with every member of the sink cluster
/// within a tick of the source cluster.
fn pipeline(source: &LocationId, sink: &LocationId) -> HydroIr {
    let tick = LocationId::Tick(0, Box::new(source.clone()));
    let ops = vec![
        node(0, HydroNode::Source { printed: "Source(ClusterMembers)".to_string() }, source),
        node(1, HydroNode::FoldKeyed, source),
        node(2, HydroNode::Batch, &tick),
        node(3, HydroNode::Filter, &tick),
        node(4, HydroNode::Source { printed: "Source(Iter(0 .. 100))".to_string() }, source),
        node(5, HydroNode::MapOp, source),
        node(6, HydroNode::Batch, &tick),
        node(7, HydroNode::CrossProduct, &tick),
        node(8, HydroNode::MapOp, &tick),
        node(9, HydroNode::YieldConcat, source),
        node(10, HydroNode::Network, sink),
        node(11, HydroNode::MapOp, sink),
        node(12, HydroNode::ObserveNonDet, sink),
        node(13, HydroNode::ObserveNonDet, sink),
        IrOp { op_id: 14, kind: OpKind::Root(HydroRoot::ForEach), location: sink.clone() },
    ];
    let mut parents: HashMap<usize, Vec<usize>> = HashMap::new();
    for (child, of) in [
        (1, vec![0]),
        (2, vec![1]),
        (3, vec![2]),
        (5, vec![4]),
        (6, vec![5]),
        (7, vec![6, 3]),
        (8, vec![7]),
        (9, vec![8]),
        (10, vec![9]),
        (11, vec![10]),
        (12, vec![11]),
        (13, vec![12]),
        (14, vec![13]),
    ] {
        parents.insert(child, of);
    }
    HydroIr { ops, parents }
}

#[test]
fn convert_simple_two_cluster_pipeline() {
    let source_loc = LocationId::Cluster(1);
    let sink_loc = LocationId::Cluster(2);
    let ir = pipeline(&source_loc, &sink_loc);

    // Pretend every op has a small measured load.
    let mut per_op_load: HashMap<usize, SarStats> = HashMap::new();
    for i in 0..64 {
        per_op_load.insert(
            i,
            SarStats {
                cpu: figure(10.0),
                cpu_user: figure(8.0),
                network: figure(0.0),
                memory: figure(1.0),
                io: figure(0.0),
            },
        );
    }

    let inputs = ILPAnalysisInputs {
        op_counts: HashMap::new(),
        op_output_sizes: HashMap::new(),
        network_costs: HashMap::new(),
        per_op_load,
    };

    let location_info = LocationInfo::default()
        .with(source_loc, "source_cluster", 2)
        .with(sink_loc, "sink_cluster", 4);

    let ops = convert(&ir, &inputs, &location_info, &ConvertOptions::default());

    assert!(!ops.is_empty(), "expected at least one CAPSys operator");

    // Structural checks:
    //  - every id is exactly one character
    //  - every id in up_node / down_node refers to a known op
    let known: HashSet<&str> = ops.iter().map(|op| op.id.as_str()).collect();
    for op in &ops {
        assert_eq!(op.id.chars().count(), 1, "id must be 1 char: {:?}", op.id);
        for u in &op.up_node {
            assert!(known.contains(u.as_str()), "unknown upstream {u}");
        }
        for d in &op.down_node {
            assert!(known.contains(d.as_str()), "unknown downstream {d}");
        }
    }

    // At least one op should live on each cluster.
    let parallelisms: HashSet<usize> = ops.iter().map(|o| o.parallelism).collect();
    assert!(
        parallelisms.contains(&2) && parallelisms.contains(&4),
        "expected both cluster parallelisms to appear, got {:?}",
        parallelisms
    );

    // At least one cross-cluster edge should be REBALANCE (since the network
    // spans two clusters) and at least one op should be a sink.
    let has_rebalance = ops.iter().any(|o| o.outboundtype == "REBALANCE");
    let has_sink = ops.iter().any(|o| o.outboundtype.is_empty());
    assert!(has_rebalance, "expected at least one REBALANCE op");
    assert!(has_sink, "expected at least one sink op (empty outbound)");
}

#[test]
fn pipeline_is_emitted_in_full() {
    let source_loc = LocationId::Cluster(1);
    let sink_loc = LocationId::Cluster(2);
    let ir = pipeline(&source_loc, &sink_loc);
    let inputs = ILPAnalysisInputs {
        op_counts: HashMap::new(),
        op_output_sizes: HashMap::new(),
        network_costs: HashMap::new(),
        per_op_load: HashMap::from([(
            5,
            SarStats {
                cpu: figure(10.0),
                cpu_user: figure(8.0),
                network: figure(2.5),
                memory: figure(1.0),
                io: figure(7.0),
            },
        )]),
    };
    let location_info = LocationInfo::new().with(source_loc, "source_cluster", 2);
    let options = ConvertOptions { default_parallelism: 9, ..ConvertOptions::default() };
    let ops = convert(&ir, &inputs, &location_info, &options);

    let ids: Vec<&str> = ops.iter().map(|o| o.id.as_str()).collect();
    assert_eq!(
        ids,
        ["a", "b", "c", "d", "e", "f", "g", "h", "i", "j", "k", "l", "m", "n", "o"]
    );
    let names: Vec<&str> = ops.iter().map(|o| o.name.as_str()).collect();
    assert_eq!(
        names,
        [
            "Source(ClusterMembers)",
            "FoldKeyed",
            "Batch",
            "Filter",
            "Source(Iter(0 .. 100))",
            "Map",
            "Batch",
            "CrossProduct",
            "Map",
            "YieldConcat",
            "Network",
            "Map",
            "ObserveNonDet",
            "ObserveNonDet",
            "ForEach"
        ]
    );
    let parallelisms: Vec<usize> = ops.iter().map(|o| o.parallelism).collect();
    assert_eq!(parallelisms, [2, 2, 2, 2, 2, 2, 2, 2, 2, 2, 9, 9, 9, 9, 9]);
    let outbound: Vec<&str> = ops.iter().map(|o| o.outboundtype.as_str()).collect();
    assert_eq!(outbound[..9], ["FORWARD"; 9]);
    assert_eq!(outbound[9..], ["REBALANCE", "FORWARD", "FORWARD", "FORWARD", "FORWARD", ""]);

    for op in &ops {
        assert_eq!(op.outboundtype.is_empty(), op.down_node.is_empty());
    }
    assert_eq!(ops[7].up_node, ["g", "d"]);
    assert_eq!(ops[7].down_node, ["i"]);
    assert_eq!(ops[0].up_node, Vec::<String>::new());
    assert_eq!(ops[14].up_node, ["n"]);
    assert_eq!(ops[14].down_node, Vec::<String>::new());

    assert_eq!(f64::from_bits(ops[5].compute.bits), 10.0);
    assert_eq!(f64::from_bits(ops[5].state.bits), 1.0);
    assert_eq!(f64::from_bits(ops[5].network.bits), 2.5);
    assert_eq!(f64::from_bits(ops[6].compute.bits), 0.0);
}
