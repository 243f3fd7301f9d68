use node_graph::cache::CacheSlot;
use node_graph::memo::{CacheNode, EndLetNode, LetNode, MonitorNode, RefNode};
use node_graph::node::{AddNode, Node, NodeFault, ValueNode};
use node_graph::value::TaggedValue;

#[test]
fn cache_slot_is_written_once_between_resets() {
    let mut slot: CacheSlot<u32> = CacheSlot::new();
    assert!(!slot.is_populated());
    assert_eq!(slot.get(), None);
    assert!(slot.write(1));
    assert!(!slot.write(2));
    assert_eq!(slot.get(), Some(&1));
    slot.reset();
    assert_eq!(slot.get(), None);
    assert!(slot.write(3));
    assert_eq!(slot.get(), Some(&3));
    slot.overwrite(4);
    assert_eq!(slot.get(), Some(&4));
}

#[test]
fn cache_node_repeats_its_value() {
    let mut cache = CacheNode::<u32, _>::new(ValueNode::new(11u32));
    assert_eq!(cache.eval(()), Ok(11));
    assert_eq!(cache.eval(()), Ok(11));
    cache.reset();
    assert_eq!(cache.eval(()), Ok(11));
    assert_eq!(cache.serialize(), None);
}

#[test]
fn cache_node_does_not_keep_a_fault() {
    let mut cache = CacheNode::<u32, _>::new(RefNode::<u32, _>::new(LetNode::<u32>::new()));
    assert_eq!(cache.eval(()), Err(NodeFault::Uninitialized));
    assert_eq!(cache.eval(()), Err(NodeFault::Uninitialized));
}

#[test]
fn monitor_node_keeps_last_input() {
    let mut monitor = MonitorNode::<u32>::new();
    assert_eq!(monitor.serialize(), None);
    assert_eq!(monitor.eval(5), Ok(5));
    assert_eq!(monitor.serialize(), Some(TaggedValue::U32(5)));
    assert_eq!(monitor.eval(6), Ok(6));
    assert_eq!(monitor.serialize(), Some(TaggedValue::U32(6)));
    monitor.reset();
    assert_eq!(monitor.serialize(), Some(TaggedValue::U32(6)));
}

#[test]
fn let_node_binds_and_reads() {
    let mut binding = LetNode::<u32>::new();
    assert_eq!(binding.eval(None), Err(NodeFault::Uninitialized));
    assert_eq!(binding.eval(Some(3)), Ok(3));
    assert_eq!(binding.eval(None), Ok(3));
    assert_eq!(binding.eval(Some(4)), Ok(4));
    assert_eq!(binding.eval(None), Ok(4));
    binding.reset();
    assert_eq!(binding.eval(None), Err(NodeFault::Uninitialized));
}

#[test]
fn ref_node_reads_binding() {
    let mut binding = LetNode::<u32>::new();
    assert_eq!(binding.eval(Some(7)), Ok(7));
    let mut reader = RefNode::<u32, _>::new(binding);
    assert_eq!(reader.eval(()), Ok(7));
}

#[test]
fn end_let_node_ignores_its_input() {
    let mut end = EndLetNode::new(ValueNode::new(21u32));
    assert_eq!(Node::<u64>::eval(&mut end, 1000), Ok(21));
    assert_eq!(Node::<(u32, u32)>::eval(&mut end, (1, 2)), Ok(21));
    let _ = AddNode::new();
}
