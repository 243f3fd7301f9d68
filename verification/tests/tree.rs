use node_graph::arena::{Fault, TypeErasedNode};
use node_graph::borrow_tree::{reset, serialize, BorrowTree, ConstructionError, NodeContainer};
use node_graph::cache::CacheSlot;
use node_graph::proto::{
    ConstructionArgs, InlineRust, NodeConstructor, NodeIdentifier, ProtoNetwork, ProtoNode,
    ProtoNodeInput,
};
use node_graph::registry::{NodeIOTypes, NodeRegistry, RegistryEntry};
use node_graph::types::{Primitive, Type};
use node_graph::typing::TypingContext;
use node_graph::value::{DowncastError, TaggedValue};

fn unit() -> Type {
    Type::Concrete(Primitive::Unit)
}

fn number() -> Type {
    Type::Concrete(Primitive::U32)
}

fn node_of(input: Type, output: Type) -> Type {
    Type::Fn(Box::new(input), Box::new(output))
}

fn entry(name: &str, input: Type, parameters: Vec<Type>, output: Type, constructor: NodeConstructor) -> RegistryEntry {
    RegistryEntry { identifier: NodeIdentifier::new(name), types: NodeIOTypes::new(input, output, parameters), constructor }
}

fn registry() -> NodeRegistry {
    let mut registry = NodeRegistry::new();
    registry.register(entry("add", unit(), vec![node_of(unit(), number()), node_of(unit(), number())], number(), NodeConstructor::Add));
    registry.register(entry("cache", unit(), vec![node_of(unit(), Type::Generic(0))], Type::Generic(0), NodeConstructor::Cache));
    registry.register(entry("monitor", Type::Generic(0), vec![], Type::Generic(0), NodeConstructor::Monitor));
    registry.register(entry("identity", Type::Generic(0), vec![], Type::Generic(0), NodeConstructor::Identity));
    registry.register(entry(
        "compose",
        unit(),
        vec![node_of(unit(), Type::Generic(0)), node_of(Type::Generic(1), Type::Generic(2))],
        Type::Generic(2),
        NodeConstructor::Compose,
    ));
    registry.register(entry("placeholder", unit(), vec![], unit(), NodeConstructor::Placeholder));
    // Registered for a constructor of another arity than the instruction will name.
    registry.register(entry("broken", unit(), vec![node_of(unit(), number())], number(), NodeConstructor::Add));
    registry
}

fn value(v: u32, path: Vec<u64>) -> ProtoNode {
    ProtoNode::value(ConstructionArgs::Value(TaggedValue::U32(v)), path)
}

fn composite(name: &str, deps: Vec<u64>, path: Vec<u64>) -> ProtoNode {
    ProtoNode {
        construction_args: ConstructionArgs::Nodes(deps.into_iter().map(|d| (d, false)).collect()),
        input: ProtoNodeInput::Nothing,
        identifier: NodeIdentifier::new(name),
        document_node_path: path,
        skip_deduplication: false,
    }
}

fn plan(output: u64, nodes: Vec<(u64, ProtoNode)>) -> ProtoNetwork {
    ProtoNetwork { inputs: vec![], output, nodes }
}

fn typed(network: &ProtoNetwork) -> TypingContext {
    let mut context = TypingContext::new(registry());
    context.update(network).unwrap();
    context
}

fn built(network: ProtoNetwork) -> (BorrowTree, TypingContext) {
    let context = typed(&network);
    match BorrowTree::new(network, &context) {
        Ok(tree) => (tree, context),
        Err(e) => panic!("construction failed: {:?}", e),
    }
}

#[test]
fn push_node_sync() {
    let mut tree = BorrowTree::default();
    let val_1_protonode = ProtoNode::value(ConstructionArgs::Value(TaggedValue::U32(2u32)), vec![]);
    let context = TypingContext::default();
    tree.push_node(0, val_1_protonode, &context).unwrap();
    let _node = tree.get(0).unwrap();
    let result = tree.eval::<(), u32>(0, ());
    assert_eq!(result, Some(2u32));
}

#[test]
fn push_node() {
    let mut tree = BorrowTree::default();
    let val_1_protonode = ProtoNode::value(ConstructionArgs::Value(TaggedValue::U32(2u32)), vec![]);
    tree.push_node(0, val_1_protonode, &TypingContext::default()).unwrap();
    let _node = tree.get(0).unwrap();
    assert_eq!(tree.eval::<(), u32>(0, ()), Some(2u32));
}

#[test]
fn addition_of_two_literals() {
    let (mut tree, _) = built(plan(3, vec![(1, value(3, vec![1])), (2, value(4, vec![2])), (3, composite("add", vec![1, 2], vec![3]))]));
    assert_eq!(tree.eval::<(), u32>(3, ()), Some(7));
    assert_eq!(tree.eval_tagged_value(3, ()), Ok(TaggedValue::U32(7)));
    assert_eq!(tree.get(3), Some(NodeContainer::new(TypeErasedNode::Add)));
    assert_eq!(tree.get(1), Some(NodeContainer::new(TypeErasedNode::Value(TaggedValue::U32(3)))));
    assert_eq!(tree.get(9), None);
}

#[test]
fn evaluating_twice_gives_the_same() {
    let (mut tree, _) = built(plan(
        4,
        vec![
            (1, value(3, vec![1])),
            (2, value(4, vec![2])),
            (3, composite("add", vec![1, 2], vec![3])),
            (4, composite("cache", vec![3], vec![4])),
        ],
    ));
    let first = tree.eval_tagged_value(4, ());
    let second = tree.eval_tagged_value(4, ());
    assert_eq!(first, Ok(TaggedValue::U32(7)));
    assert_eq!(second, first);
    assert_eq!(tree.get(4), Some(NodeContainer::new(TypeErasedNode::Cache(CacheSlot::Populated(TaggedValue::U32(7))))));
}

#[test]
fn a_wrong_input_type_is_a_fault() {
    let (mut tree, _) = built(plan(3, vec![(1, value(3, vec![])), (2, value(4, vec![])), (3, composite("add", vec![1, 2], vec![]))]));
    assert_eq!(
        tree.eval_tagged_value(3, 5u32),
        Err(Fault::Downcast { node: 3, error: DowncastError { expected: Primitive::Unit, found: Primitive::U32 } })
    );
    assert_eq!(tree.eval::<u32, u32>(3, 5), None);
    // The output is a number, not a truth value.
    assert_eq!(tree.eval::<(), bool>(3, ()), None);
}

#[test]
fn a_wrong_dependency_type_is_a_fault() {
    let nodes = vec![
        (1, ProtoNode::value(ConstructionArgs::Value(TaggedValue::Bool(true)), vec![])),
        (2, value(4, vec![])),
        (3, composite("add", vec![2, 1], vec![])),
    ];
    let network = plan(3, nodes);
    // The typing context would refuse the plan; the tree is built with the constructor recorded by hand.
    let mut context = TypingContext::new(registry());
    context.update(&plan(3, vec![(2, value(4, vec![])), (1, value(1, vec![])), (3, composite("add", vec![2, 1], vec![]))])).unwrap();
    let mut tree = BorrowTree::new(network, &context).ok().unwrap();
    assert_eq!(
        tree.eval_tagged_value(3, ()),
        Err(Fault::Downcast { node: 3, error: DowncastError { expected: Primitive::U32, found: Primitive::Bool } })
    );
}

#[test]
fn overflow_is_a_fault() {
    let (mut tree, _) = built(plan(3, vec![(1, value(u32::MAX, vec![])), (2, value(1, vec![])), (3, composite("add", vec![1, 2], vec![]))]));
    assert_eq!(tree.eval_tagged_value(3, ()), Err(Fault::Overflow { node: 3 }));
}

#[test]
fn a_placeholder_must_not_be_evaluated() {
    let (mut tree, _) = built(plan(1, vec![(1, composite("placeholder", vec![], vec![]))]));
    assert_eq!(tree.eval_tagged_value(1, ()), Err(Fault::Placeholder { node: 1 }));
}

#[test]
fn an_unlisted_node_is_not_found() {
    let mut tree = BorrowTree::default();
    assert_eq!(tree.eval_tagged_value(5, ()), Err(Fault::NodeNotFound { node: 5 }));
    assert_eq!(tree.eval::<(), u32>(5, ()), None);
}

#[test]
fn evaluation_on_an_erased_input() {
    let (mut tree, _) = built(plan(2, vec![(1, value(8, vec![])), (2, composite("identity", vec![], vec![]))]));
    assert_eq!(tree.eval_any(2, TaggedValue::Pair(1, 2)), Some(TaggedValue::Pair(1, 2)));
    assert_eq!(tree.eval_any(1, TaggedValue::Unit), Some(TaggedValue::U32(8)));
    assert_eq!(tree.eval_any(3, TaggedValue::Unit), None);
}

#[test]
fn identity_and_compose() {
    let (mut tree, _) = built(plan(
        3,
        vec![(1, value(8, vec![])), (2, composite("identity", vec![], vec![])), (3, composite("compose", vec![1, 2], vec![]))],
    ));
    assert_eq!(tree.eval::<(), u32>(3, ()), Some(8));
    assert_eq!(tree.eval::<u64, u64>(2, 99), Some(99));
}

#[test]
fn introspection_shows_the_last_observed_value() {
    let (mut tree, _) = built(plan(
        3,
        vec![(1, value(8, vec![10])), (2, composite("monitor", vec![], vec![20])), (3, composite("compose", vec![1, 2], vec![30]))],
    ));
    assert_eq!(tree.introspect(&[20]), Some(None));
    assert_eq!(tree.introspect(&[10]), Some(None));
    assert_eq!(tree.introspect(&[99]), None);
    assert_eq!(tree.eval::<(), u32>(3, ()), Some(8));
    assert_eq!(tree.introspect(&[20]), Some(Some(TaggedValue::U32(8))));
    assert_eq!(tree.introspect(&[30]), Some(None));
}

#[test]
fn construction_errors() {
    let context = TypingContext::new(registry());
    let mut tree = BorrowTree::default();
    assert_eq!(tree.push_node(1, composite("add", vec![7, 8], vec![]), &context), Err(ConstructionError::MissingDependency { node: 1, dependency: 7 }));
    tree.push_node(7, value(1, vec![]), &context).unwrap();
    assert_eq!(tree.push_node(1, composite("add", vec![7, 8], vec![]), &context), Err(ConstructionError::MissingDependency { node: 1, dependency: 8 }));
    tree.push_node(8, value(1, vec![]), &context).unwrap();
    assert_eq!(tree.push_node(1, composite("add", vec![7, 8], vec![]), &context), Err(ConstructionError::MissingConstructor { node: 1 }));
    let inline = ProtoNode {
        construction_args: ConstructionArgs::Inline(InlineRust::new("x".to_string(), number())),
        input: ProtoNodeInput::Nothing,
        identifier: NodeIdentifier::new("kernel"),
        document_node_path: vec![],
        skip_deduplication: false,
    };
    assert_eq!(tree.push_node(2, inline, &context), Err(ConstructionError::InlineNotSupported { node: 2 }));
    assert_eq!(tree.get(1), None);
    assert_eq!(tree.get(2), None);
}

#[test]
fn arity_mismatch_is_found_at_construction() {
    let network = plan(2, vec![(1, value(1, vec![])), (2, composite("broken", vec![1], vec![]))]);
    let context = typed(&network);
    assert_eq!(BorrowTree::new(network, &context).err(), Some(ConstructionError::ArityMismatch { node: 2, expected: 2, found: 1 }));
}

#[test]
fn update_keeps_resets_constructs_and_reports_orphans() {
    let first = plan(
        4,
        vec![
            (1, value(3, vec![1])),
            (2, value(4, vec![2])),
            (3, composite("add", vec![1, 2], vec![3])),
            (4, composite("cache", vec![3], vec![4])),
            (5, composite("cache", vec![1], vec![5])),
        ],
    );
    let (mut tree, mut context) = built(first);
    assert_eq!(tree.eval::<(), u32>(4, ()), Some(7));
    assert_eq!(tree.eval::<(), u32>(5, ()), Some(3));
    // The second literal changes; the nodes that depend on it are new nodes.
    let second = plan(
        14,
        vec![
            (1, value(3, vec![1])),
            (12, value(5, vec![2])),
            (13, composite("add", vec![1, 12], vec![3])),
            (14, composite("cache", vec![13], vec![4])),
            (5, composite("cache", vec![1], vec![5])),
        ],
    );
    context.update(&second).unwrap();
    let mut orphans = tree.update(second, &context).unwrap();
    orphans.sort();
    assert_eq!(orphans, vec![2, 3, 4]);
    // Orphans are still listed.
    assert!(tree.get(2).is_some() && tree.get(3).is_some() && tree.get(4).is_some());
    // The kept cache has been emptied and yields its value again.
    assert_eq!(tree.get(5), Some(NodeContainer::new(TypeErasedNode::Cache(CacheSlot::Empty))));
    assert_eq!(tree.eval::<(), u32>(5, ()), Some(3));
    assert_eq!(tree.eval::<(), u32>(14, ()), Some(8));
    // The orphaned cache was not emptied and still answers with what it held.
    assert_eq!(tree.get(4), Some(NodeContainer::new(TypeErasedNode::Cache(CacheSlot::Populated(TaggedValue::U32(7))))));
    assert_eq!(tree.eval::<(), u32>(4, ()), Some(7));
    // The paths of the orphans are forgotten, those of the new nodes known.
    assert_eq!(tree.introspect(&[4]), Some(None));
    assert_eq!(tree.introspect(&[3]), Some(None));
}

#[test]
fn a_failed_update_changes_nothing() {
    let (mut tree, context) = built(plan(2, vec![(1, value(3, vec![1])), (2, composite("cache", vec![1], vec![2]))]));
    assert_eq!(tree.eval::<(), u32>(2, ()), Some(3));
    let failing = plan(4, vec![(1, value(3, vec![1])), (3, value(9, vec![3])), (4, composite("add", vec![1, 3], vec![4]))]);
    // The context knows no constructor for node 4.
    assert_eq!(tree.update(failing, &context), Err(ConstructionError::MissingConstructor { node: 4 }));
    assert_eq!(tree.get(3), None);
    assert_eq!(tree.get(4), None);
    assert_eq!(tree.introspect(&[3]), None);
    // The cache of the kept node was not emptied either.
    assert_eq!(tree.get(2), Some(NodeContainer::new(TypeErasedNode::Cache(CacheSlot::Populated(TaggedValue::U32(3))))));
}

#[test]
fn a_freed_dependency_stays_alive_for_its_dependents() {
    let (mut tree, _) = built(plan(2, vec![(1, value(3, vec![1])), (2, composite("cache", vec![1], vec![2]))]));
    let slots = tree.slots();
    tree.free_node(1);
    assert_eq!(tree.get(1), None);
    assert_eq!(tree.eval::<(), u32>(1, ()), None);
    assert_eq!(tree.eval::<(), u32>(2, ()), Some(3));
    tree.free_node(2);
    assert_eq!(tree.get(2), None);
    assert_eq!(tree.slots(), slots);
    // Both slots are vacant again and taken by the next nodes.
    let context = TypingContext::default();
    tree.push_node(7, value(1, vec![]), &context).unwrap();
    tree.push_node(8, value(2, vec![]), &context).unwrap();
    assert_eq!(tree.slots(), slots);
    assert_eq!(tree.eval::<(), u32>(8, ()), Some(2));
}

#[test]
fn pushing_a_listed_node_replaces_it() {
    let context = TypingContext::default();
    let mut tree = BorrowTree::empty();
    tree.push_node(1, value(1, vec![5]), &context).unwrap();
    tree.push_node(1, value(2, vec![5]), &context).unwrap();
    assert_eq!(tree.eval::<(), u32>(1, ()), Some(2));
    assert_eq!(tree.slots(), 2);
    tree.push_node(3, value(3, vec![6]), &context).unwrap();
    assert_eq!(tree.slots(), 2);
}

#[test]
fn reset_and_serialize_of_units() {
    let cache = TypeErasedNode::Cache(CacheSlot::Populated(TaggedValue::U32(1)));
    assert_eq!(reset(cache), TypeErasedNode::Cache(CacheSlot::Empty));
    let monitor = TypeErasedNode::Monitor(CacheSlot::Populated(TaggedValue::U32(1)));
    assert_eq!(reset(monitor), monitor);
    assert_eq!(serialize(&monitor), Some(TaggedValue::U32(1)));
    assert_eq!(serialize(&cache), None);
    assert_eq!(serialize(&TypeErasedNode::Monitor(CacheSlot::Empty)), None);
}

#[test]
fn a_cloned_tree_evaluates_alike() {
    let (mut tree, _) = built(plan(3, vec![(1, value(3, vec![])), (2, value(4, vec![])), (3, composite("add", vec![1, 2], vec![]))]));
    let mut copy = tree.clone();
    assert_eq!(copy.eval::<(), u32>(3, ()), tree.eval::<(), u32>(3, ()));
}
