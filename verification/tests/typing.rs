use node_graph::proto::{
    ConstructionArgs, InlineRust, NodeConstructor, NodeIdentifier, ProtoNetwork, ProtoNode,
    ProtoNodeInput,
};
use node_graph::registry::{NodeIOTypes, NodeRegistry, RegistryEntry};
use node_graph::types::{Primitive, Type};
use node_graph::typing::{TypeError, TypingContext};
use node_graph::value::TaggedValue;

fn concrete(p: Primitive) -> Type {
    Type::Concrete(p)
}

fn node_type(input: Type, output: Type) -> Type {
    Type::Fn(Box::new(input), Box::new(output))
}

fn overload(name: &str, input: Type, parameters: Vec<Type>, output: Type, constructor: NodeConstructor) -> RegistryEntry {
    RegistryEntry { identifier: NodeIdentifier::new(name), types: NodeIOTypes::new(input, output, parameters), constructor }
}

fn literal(v: TaggedValue) -> ProtoNode {
    ProtoNode::value(ConstructionArgs::Value(v), vec![])
}

fn consumer(name: &str, deps: Vec<u64>, input: ProtoNodeInput) -> ProtoNode {
    ProtoNode {
        construction_args: ConstructionArgs::Nodes(deps.into_iter().map(|d| (d, false)).collect()),
        input,
        identifier: NodeIdentifier::new(name),
        document_node_path: vec![],
        skip_deduplication: false,
    }
}

fn network(nodes: Vec<(u64, ProtoNode)>) -> ProtoNetwork {
    ProtoNetwork { inputs: vec![], output: 0, nodes }
}

fn overloaded() -> NodeRegistry {
    let unit = concrete(Primitive::Unit);
    let mut registry = NodeRegistry::new();
    // Three overloads of one identifier: on 32-bit numbers, on anything, on 64-bit numbers.
    registry.register(overload(
        "op",
        unit.clone(),
        vec![node_type(unit.clone(), concrete(Primitive::U32))],
        concrete(Primitive::U32),
        NodeConstructor::Cache,
    ));
    registry.register(overload(
        "op",
        unit.clone(),
        vec![node_type(unit.clone(), Type::Generic(0))],
        Type::Generic(0),
        NodeConstructor::Identity,
    ));
    registry.register(overload(
        "op",
        unit.clone(),
        vec![node_type(unit.clone(), concrete(Primitive::U64))],
        concrete(Primitive::Bool),
        NodeConstructor::Monitor,
    ));
    registry.register(overload("through", Type::Generic(0), vec![], Type::Generic(0), NodeConstructor::Identity));
    registry.register(overload("strict", concrete(Primitive::U32), vec![], concrete(Primitive::U32), NodeConstructor::Identity));
    registry
}

#[test]
fn first_matching_overload_wins() {
    let mut context = TypingContext::new(overloaded());
    let plan = network(vec![
        (1, literal(TaggedValue::U32(1))),
        (2, literal(TaggedValue::U64(1))),
        (3, consumer("op", vec![1], ProtoNodeInput::Nothing)),
        (4, consumer("op", vec![2], ProtoNodeInput::Nothing)),
    ]);
    assert_eq!(context.update(&plan), Ok(()));
    // Both the first and the second overload accept a 32-bit producer: the first wins.
    assert_eq!(context.constructor(3), Some(NodeConstructor::Cache));
    assert_eq!(context.type_of(3).unwrap().output, concrete(Primitive::U32));
    // Both the second and the third accept a 64-bit producer: the second wins, and its
    // type parameter is bound to what the producer yields.
    assert_eq!(context.constructor(4), Some(NodeConstructor::Identity));
    assert_eq!(context.type_of(4).unwrap().output, concrete(Primitive::U64));
    assert_eq!(context.type_of(4).unwrap().input, concrete(Primitive::Unit));
    assert_eq!(
        context.type_of(4).unwrap().parameters,
        vec![node_type(concrete(Primitive::Unit), concrete(Primitive::U64))]
    );
}

#[test]
fn literals_are_typed_by_their_value() {
    let mut context = TypingContext::default();
    assert_eq!(context.update(&network(vec![(1, literal(TaggedValue::Bool(true)))])), Ok(()));
    let types = context.type_of(1).unwrap();
    assert_eq!(types.input, concrete(Primitive::Unit));
    assert_eq!(types.output, concrete(Primitive::Bool));
    assert_eq!(types.parameters, vec![concrete(Primitive::Bool)]);
    assert_eq!(types.ty(), node_type(concrete(Primitive::Unit), concrete(Primitive::Bool)));
    assert_eq!(context.constructor(1), None);
    assert!(context.type_of(2).is_none());
}

#[test]
fn type_errors_name_the_node() {
    let unit = concrete(Primitive::Unit);
    let mut registry = overloaded();
    registry.register(overload("only32", unit.clone(), vec![node_type(unit.clone(), concrete(Primitive::U32))], unit.clone(), NodeConstructor::Cache));
    let mut context = TypingContext::new(registry);
    assert_eq!(
        context.update(&network(vec![(3, consumer("op", vec![9], ProtoNodeInput::Nothing))])),
        Err(TypeError::MissingDependency { node: 3, dependency: 9 })
    );
    assert_eq!(
        context.update(&network(vec![(3, consumer("op", vec![], ProtoNodeInput::Node(8, false)))])),
        Err(TypeError::MissingDependency { node: 3, dependency: 8 })
    );
    assert_eq!(
        context.update(&network(vec![(3, consumer("nothing", vec![], ProtoNodeInput::Nothing))])),
        Err(TypeError::UnknownIdentifier { node: 3 })
    );
    assert_eq!(
        context.update(&network(vec![(3, consumer("through", vec![], ProtoNodeInput::Network(Type::Generic(4))))])),
        Err(TypeError::GenericInput { node: 3 })
    );
    assert_eq!(
        context.update(&network(vec![
            (1, literal(TaggedValue::U64(1))),
            (3, consumer("only32", vec![1], ProtoNodeInput::Nothing)),
        ])),
        Err(TypeError::NoMatchingOverload { node: 3, input: unit.clone() })
    );
    let generic_parameter = ProtoNode {
        construction_args: ConstructionArgs::Inline(InlineRust::new("x".to_string(), node_type(unit.clone(), Type::Generic(1)))),
        input: ProtoNodeInput::Nothing,
        identifier: NodeIdentifier::new("op"),
        document_node_path: vec![],
        skip_deduplication: false,
    };
    assert_eq!(context.update(&network(vec![(5, generic_parameter)])), Err(TypeError::GenericParameter { node: 5 }));
}

#[test]
fn a_failed_update_leaves_the_context_as_it_was() {
    let mut context = TypingContext::new(overloaded());
    assert_eq!(context.update(&network(vec![(1, literal(TaggedValue::U32(1)))])), Ok(()));
    let failing = network(vec![
        (2, literal(TaggedValue::U32(2))),
        (3, consumer("op", vec![2], ProtoNodeInput::Nothing)),
        (4, consumer("strict", vec![], ProtoNodeInput::Node(1, false))),
        (5, consumer("strict", vec![7], ProtoNodeInput::Nothing)),
    ]);
    assert_eq!(context.update(&failing), Err(TypeError::MissingDependency { node: 5, dependency: 7 }));
    assert!(context.type_of(1).is_some());
    assert!(context.type_of(2).is_none());
    assert!(context.type_of(3).is_none());
    assert!(context.type_of(4).is_none());
}

#[test]
fn the_input_of_a_node_is_the_output_of_its_input_node() {
    let mut context = TypingContext::new(overloaded());
    let plan = network(vec![
        (1, literal(TaggedValue::U32(1))),
        (2, consumer("strict", vec![], ProtoNodeInput::Node(1, false))),
        (3, consumer("through", vec![], ProtoNodeInput::Network(concrete(Primitive::Color)))),
    ]);
    assert_eq!(context.update(&plan), Ok(()));
    assert_eq!(context.type_of(2).unwrap().input, concrete(Primitive::U32));
    assert_eq!(context.type_of(3).unwrap().input, concrete(Primitive::Color));
    assert_eq!(context.type_of(3).unwrap().output, concrete(Primitive::Color));
}

#[test]
fn a_typed_node_keeps_its_record() {
    let mut context = TypingContext::new(overloaded());
    assert_eq!(context.update(&network(vec![(1, literal(TaggedValue::U32(1)))])), Ok(()));
    // The same identifier with another literal: the record stays.
    assert_eq!(context.update(&network(vec![(1, literal(TaggedValue::Bool(true)))])), Ok(()));
    assert_eq!(context.type_of(1).unwrap().output, concrete(Primitive::U32));
    let known = context.infer(1, &literal(TaggedValue::U64(3))).unwrap();
    assert_eq!(known.output, concrete(Primitive::U32));
}

#[test]
fn acceptance_of_types() {
    let unit = concrete(Primitive::Unit);
    let number = concrete(Primitive::U32);
    assert!(number.covariant(&number));
    assert!(!number.covariant(&unit));
    assert!(number.covariant(&Type::Generic(0)));
    assert!(!Type::Generic(0).covariant(&number));
    assert!(!Type::Generic(0).covariant(&Type::Generic(0)));
    assert!(node_type(unit.clone(), number.clone()).covariant(&node_type(unit.clone(), Type::Generic(1))));
    assert!(!node_type(unit.clone(), number.clone()).covariant(&node_type(number.clone(), number.clone())));
    assert!(!node_type(unit.clone(), number.clone()).covariant(&number));
    assert!(node_type(unit.clone(), number.clone()).covariant(&Type::Generic(3)));
    assert!(Type::Generic(1).is_generic());
    assert!(!number.is_generic());
    assert!(node_type(unit.clone(), Type::Generic(1)).returns_generic());
    assert!(!node_type(Type::Generic(1), unit.clone()).returns_generic());
    assert_eq!(node_type(unit.clone(), number.clone()).clone(), node_type(unit, number));
}

#[test]
fn signatures_resolve_their_output() {
    let unit = concrete(Primitive::Unit);
    let declared = NodeIOTypes::new(Type::Generic(0), Type::Generic(1), vec![node_type(Type::Generic(1), Type::Generic(2))]);
    // The output parameter is bound in the parameter, on its input side.
    assert_eq!(
        declared.resolve(&unit, &vec![node_type(concrete(Primitive::Bool), concrete(Primitive::U64))]),
        Some(concrete(Primitive::Bool))
    );
    // Another number of parameters is not accepted.
    assert_eq!(declared.resolve(&unit, &vec![]), None);
    // A type parameter that is bound nowhere gives no output type.
    let unbound = NodeIOTypes::new(unit.clone(), Type::Generic(5), vec![]);
    assert_eq!(unbound.resolve(&unit, &vec![]), None);
    let plain = NodeIOTypes::new(unit.clone(), concrete(Primitive::Color), vec![]);
    assert_eq!(plain.resolve(&unit, &vec![]), Some(concrete(Primitive::Color)));
    assert_eq!(plain.resolve(&concrete(Primitive::Bool), &vec![]), None);
}

#[test]
fn registry_lookup() {
    let registry = overloaded();
    assert!(registry.contains(&NodeIdentifier::new("op")));
    assert!(!registry.contains(&NodeIdentifier::new("nope")));
    let unit = concrete(Primitive::Unit);
    assert_eq!(
        registry.resolve(&NodeIdentifier::new("op"), &unit, &vec![node_type(unit.clone(), concrete(Primitive::Bool))]),
        Some((NodeConstructor::Identity, concrete(Primitive::Bool)))
    );
    assert_eq!(registry.resolve(&NodeIdentifier::new("op"), &unit, &vec![concrete(Primitive::Bool)]), None);
    assert_eq!(NodeConstructor::Add.dependency_count(), 2);
    assert_eq!(NodeConstructor::Cache.dependency_count(), 1);
    assert_eq!(NodeConstructor::Compose.dependency_count(), 2);
    assert_eq!(NodeConstructor::Identity.dependency_count(), 0);
    assert_eq!(NodeConstructor::Monitor.dependency_count(), 0);
    assert_eq!(NodeConstructor::Placeholder.dependency_count(), 0);
}
