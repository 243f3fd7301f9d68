use node_graph::any::{
    input_node, ComposeTypeErased, DowncastBothNode, DowncastBothRefNode, DynAnyInRefNode,
    DynAnyNode, DynAnyRefNode, FutureWrapperNode, IntoTypeErasedNode, NodeIO, PanicNode,
};
use node_graph::node::{AddNode, IdNode, Node, NodeFault, ValueNode};
use node_graph::types::{Primitive, Type};
use node_graph::value::{Color, DowncastError, DynAny, TaggedValue};

#[test]
#[should_panic]
fn dyn_input_invalid_eval_panic() {
    let mut dyn_any = DynAnyNode::<(u32, u32), u32, _>::new(FutureWrapperNode { node: AddNode::new() });
    // A value of another type than the node expects: a 32-bit number in place of a pair.
    dyn_any.eval(TaggedValue::U32(32u32)).unwrap();
}

#[test]
fn dyn_input_invalid_eval_panic_() {
    let mut dyn_any = DynAnyNode::<(u32, u32), u32, _>::new(FutureWrapperNode { node: AddNode::new() });
    assert_eq!(dyn_any.eval((4u32, 2u32).upcast()), Ok(TaggedValue::U32(6)));
    let id_node = FutureWrapperNode::new(IdNode::new());
    let mut type_erased = ComposeTypeErased::new(dyn_any, id_node);
    assert_eq!(type_erased.eval((4u32, 2u32).upcast()), Ok(TaggedValue::U32(6)));
}

#[test]
fn downcast_mismatch_is_reported() {
    let mut dyn_any = DynAnyNode::<(u32, u32), u32, _>::new(AddNode::new());
    assert_eq!(
        dyn_any.eval(TaggedValue::Bool(true)),
        Err(NodeFault::Downcast(DowncastError { expected: Primitive::Pair, found: Primitive::Bool }))
    );
    assert_eq!(
        dyn_any.eval(TaggedValue::Unit),
        Err(NodeFault::Downcast(DowncastError { expected: Primitive::Pair, found: Primitive::Unit }))
    );
}

#[test]
fn upcast_then_downcast_is_identity() {
    assert_eq!(<u32 as DynAny>::downcast(7u32.upcast()), Ok(7u32));
    assert_eq!(<u64 as DynAny>::downcast(7u64.upcast()), Ok(7u64));
    assert_eq!(<bool as DynAny>::downcast(true.upcast()), Ok(true));
    assert_eq!(<() as DynAny>::downcast(().upcast()), Ok(()));
    assert_eq!(<(u32, u32) as DynAny>::downcast((1u32, 2u32).upcast()), Ok((1, 2)));
    let c = Color { r: 1, g: 2, b: 3, a: 4 };
    assert_eq!(<Color as DynAny>::downcast(c.upcast()), Ok(c));
}

#[test]
fn downcast_to_another_type_fails() {
    assert_eq!(
        <u64 as DynAny>::downcast(7u32.upcast()),
        Err(DowncastError { expected: Primitive::U64, found: Primitive::U32 })
    );
    assert_eq!(
        <() as DynAny>::downcast(true.upcast()),
        Err(DowncastError { expected: Primitive::Unit, found: Primitive::Bool })
    );
    assert_eq!(
        <Color as DynAny>::downcast((1u32, 2u32).upcast()),
        Err(DowncastError { expected: Primitive::Color, found: Primitive::Pair })
    );
}

#[test]
fn tagged_value_types() {
    assert_eq!(TaggedValue::Unit.ty(), Type::Concrete(Primitive::Unit));
    assert_eq!(TaggedValue::U32(1).ty(), Type::Concrete(Primitive::U32));
    assert_eq!(TaggedValue::U64(1).primitive(), Primitive::U64);
    assert_eq!(TaggedValue::Pair(1, 2).primitive(), Primitive::Pair);
}

#[test]
fn add_node_overflow_is_a_fault() {
    let mut add = AddNode::new();
    assert_eq!(add.eval((u32::MAX, 1)), Err(NodeFault::Overflow));
    assert_eq!(add.eval((u32::MAX - 1, 1)), Ok(u32::MAX));
    assert_eq!(add.eval((3, 4)), Ok(7));
}

#[test]
fn downcast_both_node_round_trip() {
    let erased = DynAnyNode::<(u32, u32), u32, _>::new(AddNode::new());
    let mut typed = DowncastBothNode::<(u32, u32), u32, _>::new(erased);
    assert_eq!(typed.eval((20, 22)), Ok(42));
}

#[test]
fn downcast_both_node_reports_wrong_output_type() {
    let erased = DynAnyNode::<(u32, u32), u32, _>::new(AddNode::new());
    let mut typed = DowncastBothNode::<(u32, u32), bool, _>::new(erased);
    assert_eq!(
        typed.eval((20, 22)),
        Err(NodeFault::Downcast(DowncastError { expected: Primitive::Bool, found: Primitive::U32 }))
    );
}

#[test]
fn downcast_both_ref_node_round_trip() {
    let erased = DynAnyRefNode::<(), u32, _>::new(ValueNode::new(5u32));
    let mut typed = DowncastBothRefNode::<(), u32, _>::new(erased);
    assert_eq!(typed.eval(()), Ok(5));
}

#[test]
fn dyn_any_in_ref_node_evaluates() {
    let mut node = DynAnyInRefNode::<(u32, u32), u32, _>::new(AddNode::new());
    assert_eq!(node.eval(TaggedValue::Pair(1, 1)), Ok(TaggedValue::U32(2)));
    assert_eq!(node.serialize(), None);
}

#[test]
fn input_node_views_unit_input() {
    let erased = DynAnyNode::<(), u32, _>::new(ValueNode::new(9u32));
    let mut typed = input_node::<u32, _>(erased);
    assert_eq!(typed.eval(()), Ok(9));
}

#[test]
fn into_type_erased_lifts() {
    let mut erased = IntoTypeErasedNode::<(u32, u32), u32>::into_type_erased(AddNode::new());
    assert_eq!(erased.eval(TaggedValue::Pair(2, 3)), Ok(TaggedValue::U32(5)));
}

#[test]
fn compose_stops_at_first_fault() {
    let first = DynAnyNode::<(u32, u32), u32, _>::new(AddNode::new());
    let second = DynAnyNode::<(u32, u32), u32, _>::new(AddNode::new());
    let mut composed = ComposeTypeErased::new(first, second);
    // The first yields a number, which the second does not accept.
    assert_eq!(
        composed.eval(TaggedValue::Pair(1, 2)),
        Err(NodeFault::Downcast(DowncastError { expected: Primitive::Pair, found: Primitive::U32 }))
    );
    // The first fails: its fault comes out.
    assert_eq!(composed.eval(TaggedValue::Pair(u32::MAX, 2)), Err(NodeFault::Overflow));
}

#[test]
fn panic_node_is_a_fault() {
    let mut node = PanicNode::<u32, u32>::new();
    assert_eq!(node.eval(1), Err(NodeFault::Placeholder));
    node.reset();
    assert_eq!(node.serialize(), None);
}

#[test]
fn a_boxed_node_is_the_node() {
    let mut boxed = Box::new(AddNode::new());
    assert_eq!(boxed.eval((1, 2)), Ok(3));
    boxed.reset();
    assert_eq!(boxed.serialize(), None);
    let mut lifted = DynAnyNode::<(u32, u32), u32, _>::new(Box::new(AddNode::new()));
    assert_eq!(lifted.eval(TaggedValue::Pair(2, 2)), Ok(TaggedValue::U32(4)));
}

#[test]
fn a_node_knows_its_types() {
    let add = AddNode::new();
    assert_eq!(add.input_type(), Primitive::Pair);
    assert_eq!(add.output_type(), Primitive::U32);
    let io = add.to_node_io(vec![Type::Generic(1)]);
    assert_eq!(io.input, Type::Concrete(Primitive::Pair));
    assert_eq!(io.output, Type::Concrete(Primitive::U32));
    assert_eq!(io.parameters, vec![Type::Generic(1)]);
    assert_eq!(<Color as DynAny>::type_tag(), Primitive::Color);
    assert_eq!(<() as DynAny>::type_tag(), Primitive::Unit);
}

#[test]
fn value_and_id_nodes() {
    let mut value = ValueNode::new(3u64);
    assert_eq!(value.eval(()), Ok(3));
    let mut id = IdNode::new();
    assert_eq!(Node::<u32>::eval(&mut id, 8), Ok(8));
}
