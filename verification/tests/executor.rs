use node_graph::arena::Fault;
use node_graph::borrow_tree::ConstructionError;
use node_graph::compiler::compile_single;
use node_graph::document::{DocumentNode, NodeInput, NodeNetwork};
use node_graph::dynamic_executor::{DynamicExecutor, ExecutorError};
use node_graph::proto::{
    ConstructionArgs, NodeConstructor, NodeIdentifier, ProtoNetwork, ProtoNode, ProtoNodeInput,
};
use node_graph::registry::{NodeIOTypes, NodeRegistry, RegistryEntry};
use node_graph::types::{Primitive, Type};
use node_graph::typing::TypeError;
use node_graph::value::TaggedValue;

fn unit() -> Type {
    Type::Concrete(Primitive::Unit)
}

fn number() -> Type {
    Type::Concrete(Primitive::U32)
}

fn node_of(input: Type, output: Type) -> Type {
    Type::Fn(Box::new(input), Box::new(output))
}

fn registry() -> NodeRegistry {
    let mut registry = NodeRegistry::new();
    registry.register(RegistryEntry {
        identifier: NodeIdentifier::new("add"),
        types: NodeIOTypes::new(unit(), number(), vec![node_of(unit(), number()), node_of(unit(), number())]),
        constructor: NodeConstructor::Add,
    });
    registry.register(RegistryEntry {
        identifier: NodeIdentifier::new("cache"),
        types: NodeIOTypes::new(unit(), Type::Generic(0), vec![node_of(unit(), Type::Generic(0))]),
        constructor: NodeConstructor::Cache,
    });
    registry.register(RegistryEntry {
        identifier: NodeIdentifier::new("monitor"),
        types: NodeIOTypes::new(Type::Generic(0), Type::Generic(0), vec![]),
        constructor: NodeConstructor::Monitor,
    });
    registry.register(RegistryEntry {
        identifier: NodeIdentifier::new("compose"),
        types: NodeIOTypes::new(
            unit(),
            Type::Generic(2),
            vec![node_of(unit(), Type::Generic(0)), node_of(Type::Generic(1), Type::Generic(2))],
        ),
        constructor: NodeConstructor::Compose,
    });
    registry
}

fn value(v: u32, path: Vec<u64>) -> ProtoNode {
    ProtoNode::value(ConstructionArgs::Value(TaggedValue::U32(v)), path)
}

fn composite(name: &str, deps: Vec<u64>, path: Vec<u64>) -> ProtoNode {
    ProtoNode {
        construction_args: ConstructionArgs::Nodes(deps.into_iter().map(|d| (d, false)).collect()),
        input: ProtoNodeInput::Nothing,
        identifier: NodeIdentifier::new(name),
        document_node_path: path,
        skip_deduplication: false,
    }
}

fn plan(output: u64, nodes: Vec<(u64, ProtoNode)>) -> ProtoNetwork {
    ProtoNetwork { inputs: vec![], output, nodes }
}

fn executor(network: ProtoNetwork) -> DynamicExecutor {
    match DynamicExecutor::new(network, registry()) {
        Ok(executor) => executor,
        Err(e) => panic!("no executor: {:?}", e),
    }
}

#[test]
fn a_single_literal_evaluates_to_itself() {
    let mut executor = executor(plan(0, vec![(0, ProtoNode::value(ConstructionArgs::Value(TaggedValue::U32(2)), vec![]))]));
    assert_eq!(executor.execute(()), Ok(TaggedValue::U32(2)));
    assert_eq!(executor.input_type(), Some(unit()));
    assert_eq!(executor.output_type(), Some(number()));
}

#[test]
fn addition_follows_a_changed_literal() {
    // add(3, 4), beside a cache over a literal that the edit does not touch.
    let mut executor = executor(plan(
        3,
        vec![
            (1, value(3, vec![1])),
            (2, value(4, vec![2])),
            (3, composite("add", vec![1, 2], vec![3])),
            (8, value(9, vec![8])),
            (9, composite("cache", vec![8], vec![9])),
        ],
    ));
    assert_eq!(executor.execute(()), Ok(TaggedValue::U32(7)));
    assert_eq!(executor.execute(()), Ok(TaggedValue::U32(7)));
    // The literal 4 becomes 5: the literal and the addition are new nodes.
    let edited = plan(
        13,
        vec![
            (1, value(3, vec![1])),
            (12, value(5, vec![2])),
            (13, composite("add", vec![1, 12], vec![3])),
            (8, value(9, vec![8])),
            (9, composite("cache", vec![8], vec![9])),
        ],
    );
    assert!(executor.update(edited).is_ok());
    assert_eq!(executor.execute(()), Ok(TaggedValue::U32(8)));
    assert!(executor.contains(9) && executor.contains(8) && executor.contains(1));
    let mut orphans = executor.orphaned_nodes().clone();
    orphans.sort();
    assert_eq!(orphans, vec![2, 3]);
}

#[test]
fn the_sibling_of_an_edit_yields_its_value_again() {
    let first = plan(
        9,
        vec![(1, value(3, vec![1])), (8, value(9, vec![8])), (9, composite("cache", vec![8], vec![9]))],
    );
    let mut executor = executor(first);
    assert_eq!(executor.execute(()), Ok(TaggedValue::U32(9)));
    let edited = plan(
        9,
        vec![(11, value(4, vec![1])), (8, value(9, vec![8])), (9, composite("cache", vec![8], vec![9]))],
    );
    assert!(executor.update(edited).is_ok());
    assert_eq!(executor.execute(()), Ok(TaggedValue::U32(9)));
}

#[test]
fn orphans_live_for_one_more_update() {
    let with = || plan(1, vec![(1, value(3, vec![1])), (2, value(4, vec![2]))]);
    let without = || plan(1, vec![(1, value(3, vec![1]))]);
    let mut executor = executor(with());
    assert!(executor.contains(2));
    // The update that removes the node: it is an orphan and still there.
    assert!(executor.update(without()).is_ok());
    assert_eq!(executor.orphaned_nodes(), &vec![2]);
    assert!(executor.contains(2));
    // The following update: it is freed.
    assert!(executor.update(without()).is_ok());
    assert!(!executor.contains(2));
    assert!(executor.contains(1));
    // One more: it is no orphan any more, and nothing else changes.
    assert!(executor.update(without()).is_ok());
    assert!(executor.orphaned_nodes().is_empty());
    assert!(executor.contains(1));
}

#[test]
fn an_orphan_that_returns_in_time_is_kept() {
    let with = || plan(1, vec![(1, value(3, vec![1])), (2, value(4, vec![2]))]);
    let without = || plan(1, vec![(1, value(3, vec![1]))]);
    let mut executor = executor(with());
    assert!(executor.update(without()).is_ok());
    assert!(executor.update(with()).is_ok());
    assert!(executor.contains(2));
    assert!(executor.orphaned_nodes().is_empty());
    assert!(executor.update(with()).is_ok());
    assert!(executor.contains(2));
}

#[test]
fn a_plan_that_does_not_type_check_is_not_constructed() {
    let mut executor = executor(plan(1, vec![(1, value(3, vec![1]))]));
    let ill_typed = plan(
        5,
        vec![
            (4, ProtoNode::value(ConstructionArgs::Value(TaggedValue::Bool(true)), vec![4])),
            (5, composite("add", vec![1, 4], vec![5])),
        ],
    );
    match executor.update(ill_typed) {
        Err(ExecutorError::Type(TypeError::NoMatchingOverload { node, input })) => {
            assert_eq!(node, 5);
            assert_eq!(input, unit());
        },
        other => panic!("expected a type error, got {:?}", other.err()),
    }
    // Nothing of the plan has been constructed, and the output is the old one.
    assert!(!executor.contains(4));
    assert!(!executor.contains(5));
    assert_eq!(executor.execute(()), Ok(TaggedValue::U32(3)));
    assert_eq!(executor.output_type(), Some(number()));
}

#[test]
fn no_executor_for_an_ill_typed_plan() {
    let ill_typed = plan(2, vec![(2, composite("add", vec![1, 1], vec![]))]);
    match DynamicExecutor::new(ill_typed, registry()) {
        Err(ExecutorError::Type(TypeError::MissingDependency { node, dependency })) => {
            assert_eq!((node, dependency), (2, 1));
        },
        _ => panic!("expected a type error"),
    }
}

#[test]
fn a_construction_error_leaves_the_executor_as_it_was() {
    let mut registry = registry();
    registry.register(RegistryEntry {
        identifier: NodeIdentifier::new("broken"),
        types: NodeIOTypes::new(unit(), number(), vec![node_of(unit(), number())]),
        constructor: NodeConstructor::Add,
    });
    let mut executor = DynamicExecutor::new(plan(1, vec![(1, value(3, vec![1]))]), registry).ok().unwrap();
    let failing = plan(3, vec![(2, value(4, vec![2])), (3, composite("broken", vec![2], vec![3]))]);
    match executor.update(failing) {
        Err(ExecutorError::Construction(e)) => assert_eq!(e, ConstructionError::ArityMismatch { node: 3, expected: 2, found: 1 }),
        _ => panic!("expected a construction error"),
    }
    assert!(!executor.contains(2));
    assert_eq!(executor.execute(()), Ok(TaggedValue::U32(3)));
    // The types of the failed plan were taken back as well.
    let retry = plan(2, vec![(2, ProtoNode::value(ConstructionArgs::Value(TaggedValue::Bool(true)), vec![2]))]);
    assert!(executor.update(retry).is_ok());
    assert_eq!(executor.output_type(), Some(Type::Concrete(Primitive::Bool)));
}

#[test]
fn the_default_executor_has_no_output() {
    let mut executor = DynamicExecutor::default();
    assert_eq!(executor.execute(()), Err(Fault::NodeNotFound { node: 0 }));
    assert_eq!(executor.input_type(), None);
    assert_eq!(executor.output_type(), None);
    assert_eq!(executor.introspect(&[1]), None);
}

#[test]
fn introspection_through_the_executor() {
    let mut executor = executor(plan(
        3,
        vec![(1, value(8, vec![10])), (2, composite("monitor", vec![], vec![20, 1])), (3, composite("compose", vec![1, 2], vec![30]))],
    ));
    assert_eq!(executor.introspect(&[20, 1]), Some(None));
    assert_eq!(executor.execute(()), Ok(TaggedValue::U32(8)));
    assert_eq!(executor.introspect(&[20, 1]), Some(Some(TaggedValue::U32(8))));
    assert_eq!(executor.introspect(&[20]), None);
}

fn sum_network(a: u32, b: u32) -> NodeNetwork {
    let add = DocumentNode::unresolved(
        "Add",
        vec![NodeInput::value(TaggedValue::U32(a), false), NodeInput::value(TaggedValue::U32(b), false)],
        "add",
    );
    let cached = DocumentNode::unresolved("Cached", vec![NodeInput::node(0, 0)], "cache");
    let other = DocumentNode::unresolved("Other", vec![NodeInput::value(TaggedValue::U32(100), false)], "cache");
    NodeNetwork::enumerated(vec![add, cached, other], 1)
}

#[test]
fn compiled_networks_run_and_follow_edits() {
    let first = compile_single(&sum_network(3, 4)).unwrap();
    let other = first.nodes.iter().find(|(_, n)| n.document_node_path == vec![2]).unwrap().0;
    let three = first
        .nodes
        .iter()
        .find(|(_, n)| matches!(n.construction_args, ConstructionArgs::Value(TaggedValue::U32(3))))
        .map(|(id, _)| *id);
    let mut executor = executor(first);
    assert_eq!(executor.execute(()), Ok(TaggedValue::U32(7)));
    let second = compile_single(&sum_network(3, 5)).unwrap();
    assert!(second.nodes.iter().any(|(id, _)| *id == other));
    assert!(executor.update(second).is_ok());
    assert_eq!(executor.execute(()), Ok(TaggedValue::U32(8)));
    // The untouched sibling and the unchanged literal are the nodes they were.
    assert!(executor.contains(other));
    assert!(executor.contains(three.unwrap()));
    assert_eq!(executor.orphaned_nodes().len(), 3);
}
