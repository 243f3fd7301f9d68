use node_graph::arena::{Fault, TypeErasedNode};
use node_graph::borrow_tree::NodeContainer;
use node_graph::cache::CacheSlot;
use node_graph::node::{Node, NodeFault};
use node_graph::slot::{eval_found, eval_key, NodeSlots, SlotInput};
use node_graph::types::Primitive;
use node_graph::value::{DowncastError, TaggedValue};
use slotmap::Key;

fn container(unit: TypeErasedNode) -> NodeContainer {
    NodeContainer::new(unit)
}

#[test]
fn a_slot_map_holds_what_is_put_in() {
    let mut slots = NodeSlots::new();
    assert_eq!(slots.len(), 0);
    let two = slots.insert(container(TypeErasedNode::Value(TaggedValue::U32(2)))).unwrap();
    let id = slots.insert(container(TypeErasedNode::Identity)).unwrap();
    assert_ne!(two, id);
    assert_eq!(slots.len(), 2);
    assert_eq!(slots.get(two), Some(container(TypeErasedNode::Value(TaggedValue::U32(2)))));
    assert_eq!(slots.get(id), Some(container(TypeErasedNode::Identity)));
    assert_eq!(slots.get(slotmap::DefaultKey::null()), None);
}

#[test]
fn a_key_evaluates_the_node_in_its_slot() {
    let mut slots = NodeSlots::new();
    let two = slots.insert(container(TypeErasedNode::Value(TaggedValue::U32(2)))).unwrap();
    let id = slots.insert(container(TypeErasedNode::Identity)).unwrap();
    let add = slots.insert(container(TypeErasedNode::Add)).unwrap();
    let input = SlotInput(TaggedValue::Bool(true), &slots);
    assert_eq!(eval_key(two, input.new(TaggedValue::Unit)), Ok(TaggedValue::U32(2)));
    assert_eq!(eval_key(id, input.new(TaggedValue::U64(5))), Ok(TaggedValue::U64(5)));
    assert_eq!(eval_key(id, SlotInput(TaggedValue::Bool(true), &slots)), Ok(TaggedValue::Bool(true)));
    // A unit that is built from other nodes finds none of them here.
    assert_eq!(eval_key(add, input.new(TaggedValue::Unit)), Err(Fault::NodeNotFound { node: add.data().as_ffi() }));
    // A key of another map finds nothing.
    let mut other = NodeSlots::new();
    other.insert(container(TypeErasedNode::Identity)).unwrap();
    other.insert(container(TypeErasedNode::Identity)).unwrap();
    other.insert(container(TypeErasedNode::Identity)).unwrap();
    let stranger = other.insert(container(TypeErasedNode::Identity)).unwrap();
    assert_eq!(eval_key(stranger, input.new(TaggedValue::Unit)), Err(Fault::NodeNotFound { node: stranger.data().as_ffi() }));
    let mut key = two;
    assert_eq!(key.eval(input.new(TaggedValue::Unit)), Ok(TaggedValue::U32(2)));
    let mut key = stranger;
    assert_eq!(key.eval(input.new(TaggedValue::Unit)), Err(NodeFault::NodeNotFound));
}

#[test]
fn what_is_found_in_a_slot_is_evaluated_on_its_own() {
    let unit = TaggedValue::Unit;
    assert_eq!(eval_found(None, 7, unit), Err(Fault::NodeNotFound { node: 7 }));
    assert_eq!(eval_found(Some(container(TypeErasedNode::Placeholder)), 7, unit), Err(Fault::Placeholder { node: 7 }));
    assert_eq!(eval_found(Some(container(TypeErasedNode::Monitor(CacheSlot::Empty))), 7, TaggedValue::U32(1)), Ok(TaggedValue::U32(1)));
    let cache = container(TypeErasedNode::Cache(CacheSlot::Populated(TaggedValue::U32(4))));
    assert_eq!(eval_found(Some(cache), 7, unit), Ok(TaggedValue::U32(4)));
    assert_eq!(
        eval_found(Some(cache), 7, TaggedValue::Bool(false)),
        Err(Fault::Downcast { node: 7, error: DowncastError { expected: Primitive::Unit, found: Primitive::Bool } })
    );
    assert_eq!(eval_found(Some(container(TypeErasedNode::Cache(CacheSlot::Empty))), 7, unit), Err(Fault::NodeNotFound { node: 7 }));
    assert_eq!(eval_found(Some(container(TypeErasedNode::Compose)), 7, unit), Err(Fault::NodeNotFound { node: 7 }));
}
