use node_graph::compiler::{compile, compile_output, compile_single, node_id, value_id};
use node_graph::document::{DocumentNode, NodeInput, NodeNetwork, NodeOutput};
use node_graph::flatten::{flatten, CompileError, FlatInput};
use node_graph::plan::PlanBuilder;
use node_graph::proto::{
    ConstructionArgs, InlineRust, NodeIdentifier, ProtoNetwork, ProtoNode, ProtoNodeInput,
};
use node_graph::schedule::{link, schedule};
use node_graph::stable_id::{key_bytes, stable_id};
use node_graph::types::{Primitive, Type};
use node_graph::value::TaggedValue;

fn number(v: u32) -> NodeInput {
    NodeInput::value(TaggedValue::U32(v), false)
}

fn op(name: &str, inputs: Vec<NodeInput>) -> DocumentNode {
    DocumentNode::unresolved(name, inputs, name)
}

fn network(nodes: Vec<(u64, DocumentNode)>, inputs: Vec<u64>, output: u64) -> NodeNetwork {
    NodeNetwork { inputs, outputs: vec![NodeOutput::new(output, 0)], nodes, disabled: vec![], previous_outputs: None }
}

fn position(plan: &ProtoNetwork, id: u64) -> usize {
    plan.nodes.iter().position(|(i, _)| *i == id).unwrap()
}

fn dependencies(node: &ProtoNode) -> Vec<u64> {
    match &node.construction_args {
        ConstructionArgs::Nodes(ids) => ids.iter().map(|(id, _)| *id).collect(),
        _ => vec![],
    }
}

fn assert_well_formed(plan: &ProtoNetwork) {
    for (k, (id, node)) in plan.nodes.iter().enumerate() {
        assert_eq!(plan.nodes.iter().filter(|(other, _)| other == id).count(), 1);
        for dep in dependencies(node) {
            assert!(position(plan, dep) < k, "dependency {} of {} does not precede it", dep, id);
        }
    }
    assert!(plan.nodes.iter().any(|(id, _)| *id == plan.output));
}

#[test]
fn a_flat_network_compiles_in_dependency_order() {
    // The consumer is listed before its producers.
    let net = network(
        vec![
            (5, op("add", vec![NodeInput::node(7, 0), NodeInput::node(9, 0)])),
            (7, op("cache", vec![number(3)])),
            (9, op("cache", vec![number(4)])),
        ],
        vec![],
        5,
    );
    let plan = compile_single(&net).unwrap();
    assert_well_formed(&plan);
    assert_eq!(plan.nodes.len(), 5);
    let names: Vec<&str> = plan.nodes.iter().map(|(_, n)| n.identifier.name.as_str()).collect();
    assert_eq!(
        names,
        vec!["graphene_core::value::ValueNode", "cache", "graphene_core::value::ValueNode", "cache", "add"]
    );
    let paths: Vec<Vec<u64>> = plan.nodes.iter().map(|(_, n)| n.document_node_path.clone()).collect();
    assert_eq!(paths, vec![vec![7], vec![7], vec![9], vec![9], vec![5]]);
    assert_eq!(plan.output, plan.nodes[4].0);
    assert_eq!(dependencies(&plan.nodes[4].1), vec![plan.nodes[1].0, plan.nodes[3].0]);
    assert!(plan.inputs.is_empty());
}

#[test]
fn nested_networks_are_inlined() {
    // The inner network adds its input to 10; the outer one feeds it the literal 1.
    let inner = network(
        vec![(0, op("add", vec![NodeInput::Network(Type::Concrete(Primitive::U32)), number(10)]))],
        vec![0],
        0,
    );
    let outer = network(
        vec![(1, op("cache", vec![number(1)])), (2, DocumentNode::nested("Inc", vec![NodeInput::node(1, 0)], inner)), (3, op("cache", vec![NodeInput::node(2, 0)]))],
        vec![],
        3,
    );
    let flat = flatten(&outer).unwrap();
    let paths: Vec<Vec<u64>> = flat.iter().map(|n| n.path.clone()).collect();
    assert_eq!(paths, vec![vec![1], vec![2, 0], vec![3]]);
    // The input slot of the inner node is bound to the producer outside.
    assert!(matches!(&flat[1].inputs[0], FlatInput::Producer(p) if p == &vec![1u64]));
    // The reference to the nested node goes to the node that produces its output.
    assert!(matches!(&flat[2].inputs[0], FlatInput::Producer(p) if p == &vec![2u64, 0]));
    let plan = compile_single(&outer).unwrap();
    assert_well_formed(&plan);
    let paths: Vec<Vec<u64>> = plan.nodes.iter().map(|(_, n)| n.document_node_path.clone()).collect();
    assert_eq!(paths, vec![vec![1], vec![1], vec![2, 0], vec![2, 0], vec![3]]);
}

#[test]
fn a_literal_bound_to_a_nested_input_becomes_a_constant() {
    let inner = network(vec![(0, op("cache", vec![NodeInput::Network(Type::Concrete(Primitive::U32))]))], vec![0], 0);
    let outer = network(vec![(4, DocumentNode::nested("Wrap", vec![number(6)], inner))], vec![], 4);
    let plan = compile_single(&outer).unwrap();
    assert_eq!(plan.nodes.len(), 2);
    assert!(matches!(plan.nodes[0].1.construction_args, ConstructionArgs::Value(TaggedValue::U32(6))));
    assert_eq!(plan.nodes[1].1.document_node_path, vec![4, 0]);
    assert_eq!(plan.output, plan.nodes[1].0);
}

#[test]
fn an_input_of_the_outermost_network_stays() {
    let net = network(vec![(0, op("identity", vec![NodeInput::Network(Type::Concrete(Primitive::Color))]))], vec![0], 0);
    let plan = compile_single(&net).unwrap();
    assert_eq!(plan.nodes.len(), 1);
    assert!(matches!(&plan.nodes[0].1.input, ProtoNodeInput::Network(t) if *t == Type::Concrete(Primitive::Color)));
    assert_eq!(plan.inputs, vec![plan.nodes[0].0]);
    assert_eq!(dependencies(&plan.nodes[0].1), Vec::<u64>::new());
}

#[test]
fn a_source_fragment_is_passed_through() {
    let fragment = InlineRust::new("a + b".to_string(), Type::Concrete(Primitive::U32));
    let net = network(vec![(0, op("kernel", vec![NodeInput::Inline(fragment)]))], vec![], 0);
    let plan = compile_single(&net).unwrap();
    match &plan.nodes[0].1.construction_args {
        ConstructionArgs::Inline(inline) => {
            assert_eq!(inline.expr, "a + b");
            assert_eq!(inline.ty, Type::Concrete(Primitive::U32));
        },
        _ => panic!("the fragment is gone"),
    }
}

#[test]
fn identifiers_are_stable_and_follow_the_content() {
    let make = |b: u32| {
        network(
            vec![
                (0, op("add", vec![number(3), number(b)])),
                (1, op("cache", vec![NodeInput::node(0, 0)])),
                (2, op("cache", vec![number(100)])),
            ],
            vec![],
            1,
        )
    };
    let first = compile_single(&make(4)).unwrap();
    let again = compile_single(&make(4)).unwrap();
    let edited = compile_single(&make(5)).unwrap();
    let ids = |plan: &ProtoNetwork| plan.nodes.iter().map(|(id, _)| *id).collect::<Vec<u64>>();
    assert_eq!(ids(&first), ids(&again));
    let (a, b) = (ids(&first), ids(&edited));
    // The literal 3 and the untouched sibling with its literal keep their identifiers.
    assert_eq!(a[0], b[0]);
    assert_eq!(a[4], b[4]);
    assert_eq!(a[5], b[5]);
    // The changed literal, the addition and the cache over it get new ones.
    assert_ne!(a[1], b[1]);
    assert_ne!(a[2], b[2]);
    assert_ne!(a[3], b[3]);
}

#[test]
fn identifiers_are_hashes_of_keys() {
    // The key of a constant: tag 2, the path with its length, the position, the value with its tag.
    let key: Vec<u64> = vec![2, 2, 7, 9, 1, 2, 42];
    let mut bytes = Vec::new();
    for word in &key {
        bytes.extend_from_slice(&word.to_le_bytes());
    }
    assert_eq!(key_bytes(&key), bytes);
    let expected = xxhash_rust::xxh3::xxh3_64(&bytes);
    assert_eq!(stable_id(&key), expected);
    assert_eq!(value_id(&vec![7, 9], 1, TaggedValue::U32(42)), expected);
    assert_ne!(stable_id(&key), key[0]);
    // The key of an instruction: tag 1, path, identifier, arguments, input flag.
    let mut key: Vec<u64> = vec![1, 1, 5, 2, 'o' as u64, 'p' as u64, 0, 2, 11, 12, 1];
    let mut bytes = Vec::new();
    for word in &key {
        bytes.extend_from_slice(&word.to_le_bytes());
    }
    let args = ConstructionArgs::Nodes(vec![(11, false), (12, true)]);
    assert_eq!(node_id(&vec![5], &NodeIdentifier::new("op"), &args, true), xxhash_rust::xxh3::xxh3_64(&bytes));
    key[10] = 0;
    assert_ne!(node_id(&vec![5], &NodeIdentifier::new("op"), &args, true), stable_id(&key));
}

#[test]
fn compile_errors() {
    let dangling = network(vec![(0, op("cache", vec![NodeInput::node(3, 0)]))], vec![], 0);
    assert_eq!(compile_single(&dangling).err(), Some(CompileError::DanglingReference { node: 0, reference: 3 }));

    let no_output = NodeNetwork { inputs: vec![], outputs: vec![], nodes: vec![], disabled: vec![], previous_outputs: None };
    let nested = network(
        vec![(0, op("cache", vec![NodeInput::node(1, 0)])), (1, DocumentNode::nested("Empty", vec![], no_output))],
        vec![],
        0,
    );
    assert_eq!(compile_single(&nested).err(), Some(CompileError::NoOutput { node: 1 }));

    let inner = network(vec![(0, op("cache", vec![NodeInput::Network(Type::Concrete(Primitive::U32))]))], vec![0], 0);
    let unbound = network(vec![(4, DocumentNode::nested("Wrap", vec![], inner))], vec![], 4);
    assert_eq!(compile_single(&unbound).err(), Some(CompileError::UnboundInput { node: 0 }));

    let fragment = || NodeInput::Inline(InlineRust::new("x".to_string(), Type::Concrete(Primitive::U32)));
    let misplaced = network(vec![(0, op("kernel", vec![fragment(), number(1)]))], vec![], 0);
    assert_eq!(compile_single(&misplaced).err(), Some(CompileError::InlineMisplaced { node: 0 }));

    let two_inputs = network(
        vec![(0, op("both", vec![NodeInput::Network(Type::Concrete(Primitive::U32)), NodeInput::Network(Type::Concrete(Primitive::U32))]))],
        vec![0, 0],
        0,
    );
    assert_eq!(compile_single(&two_inputs).err(), Some(CompileError::TooManyInputs { node: 0 }));

    let cycle = network(
        vec![(0, op("cache", vec![number(1)])), (1, op("cache", vec![NodeInput::node(2, 0)])), (2, op("cache", vec![NodeInput::node(1, 0)]))],
        vec![],
        0,
    );
    assert_eq!(compile_single(&cycle).err(), Some(CompileError::Cycle { node: 1 }));

    // Two nodes with one identifier and one content get one stable identifier.
    let twice = network(vec![(0, op("cache", vec![number(1)])), (0, op("cache", vec![number(1)]))], vec![], 0);
    assert_eq!(compile_single(&twice).err(), Some(CompileError::IdCollision { node: 0 }));

    let missing_output = network(vec![(0, op("cache", vec![number(1)]))], vec![], 9);
    assert_eq!(compile_single(&missing_output).err(), Some(CompileError::DanglingReference { node: 9, reference: 9 }));

    let mut two = network(vec![(0, op("cache", vec![number(1)]))], vec![], 0);
    two.outputs.push(NodeOutput::new(0, 0));
    assert_eq!(compile_single(&two).err(), Some(CompileError::OutputCount { found: 2 }));
    two.outputs.clear();
    assert_eq!(compile_single(&two).err(), Some(CompileError::OutputCount { found: 0 }));
}

#[test]
fn one_plan_for_each_output() {
    let mut net = network(vec![(0, op("cache", vec![number(1)])), (1, op("cache", vec![NodeInput::node(0, 0)]))], vec![], 0);
    net.outputs.push(NodeOutput::new(1, 0));
    let plans = compile(&net).unwrap();
    assert_eq!(plans.len(), 2);
    assert_eq!(plans[0].nodes.len(), 3);
    assert_eq!(plans[0].output, plans[0].nodes[1].0);
    assert_eq!(plans[1].output, plans[1].nodes[2].0);
    let single = compile_output(&net, NodeOutput::new(1, 0)).unwrap();
    assert_eq!(single.output, plans[1].output);
    net.outputs.clear();
    assert_eq!(compile(&net).unwrap().len(), 0);
}

#[test]
fn scheduling_places_producers_first() {
    let net = network(
        vec![
            (0, op("c", vec![NodeInput::node(1, 0), NodeInput::node(2, 0)])),
            (1, op("b", vec![NodeInput::node(2, 0)])),
            (2, op("a", vec![])),
            (3, op("d", vec![])),
        ],
        vec![],
        0,
    );
    let flat = flatten(&net).unwrap();
    let links = link(&flat).unwrap();
    assert_eq!(links, vec![vec![Some(1), Some(2)], vec![Some(2)], vec![], vec![]]);
    assert_eq!(schedule(&links), Ok(vec![2, 1, 0, 3]));
    assert_eq!(schedule(&vec![vec![Some(1)], vec![Some(0)], vec![]]), Err(0));
    assert_eq!(schedule(&vec![]), Ok(vec![]));
}

#[test]
fn the_plan_builder_keeps_the_invariant() {
    let constant = |v: u32| ProtoNode::value(ConstructionArgs::Value(TaggedValue::U32(v)), vec![]);
    let consumer = |deps: Vec<u64>| ProtoNode {
        construction_args: ConstructionArgs::Nodes(deps.into_iter().map(|d| (d, false)).collect()),
        input: ProtoNodeInput::Network(Type::Concrete(Primitive::U32)),
        identifier: NodeIdentifier::new("op"),
        document_node_path: vec![],
        skip_deduplication: false,
    };
    let mut builder = PlanBuilder::new();
    assert_eq!(builder.push(1, constant(1), 77), Ok(()));
    assert_eq!(builder.push(1, constant(2), 77), Err(CompileError::IdCollision { node: 77 }));
    assert_eq!(builder.push(2, consumer(vec![1, 3]), 78), Err(CompileError::DanglingReference { node: 78, reference: 3 }));
    assert_eq!(builder.push(2, consumer(vec![1]), 78), Ok(()));
    assert!(builder.contains(2) && !builder.contains(3));
    let plan = builder.finish(2, 79).unwrap();
    assert_eq!(plan.inputs, vec![2]);
    assert_eq!(plan.output, 2);
    assert_eq!(plan.nodes.len(), 2);
    assert_eq!(PlanBuilder::new().finish(1, 79).err(), Some(CompileError::DanglingReference { node: 79, reference: 1 }));
}
