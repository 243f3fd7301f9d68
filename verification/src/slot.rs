//! Nodes in a slot map: the input of an evaluation travels together with the
//! slot map that holds the nodes, and a key is evaluated by evaluating the
//! node in its slot.
//!
//! A node in a slot map is evaluated on its own. Units that are built from
//! other nodes live in the execution tree, which wires them; here they count
//! as nodes whose dependencies are not there.

use slotmap::{DefaultKey, Key, SlotMap};
use vstd::prelude::*;
use crate::arena::{expect_unit, Fault, TypeErasedNode};
use crate::borrow_tree::NodeContainer;
use crate::cache::CacheSlot;
use crate::node::{Node, NodeFault};
use crate::types::Primitive;
use crate::value::{DowncastError, TaggedValue};

verus! {

/// `slotmap::DefaultKey`, the key of a slot: carried through, never looked
/// into.
#[verifier::external_type_specification]
#[verifier::external_body]
pub struct ExDefaultKey(DefaultKey);

/// A slot map of live nodes: a `slotmap::SlotMap` under `DefaultKey`. What
/// it holds is hidden from proofs and known by the name [`slot_nodes`].
#[verifier::external_body]
pub struct NodeSlots {
    slots: SlotMap<DefaultKey, NodeContainer>,
}

/// The nodes that a slot map holds, each under the number of its key.
pub uninterp spec fn slot_nodes(slots: NodeSlots) -> Map<u64, NodeContainer>;

/// The number of a key: its index and version, as `KeyData::as_ffi` packs
/// them into 64 bits.
pub uninterp spec fn key_number(key: DefaultKey) -> u64;

/// The content of a slot map without nodes.
pub open spec fn no_nodes() -> Map<u64, NodeContainer> {
    Map::empty()
}

/// Whether `n` is the number of nodes of a slot map with the given content:
/// the keys are finitely many, and `n` of them.
pub open spec fn counts(nodes: Map<u64, NodeContainer>, n: usize) -> bool {
    nodes.dom().finite() && n == nodes.dom().len()
}

/// The largest number of nodes that a slot map takes another node at.
pub const SLOT_LIMIT: usize = 0xFFFF_FFFD;

/// Makes an empty slot map with `SlotMap::new`. Claimed of it: the map
/// holds no node.
#[verifier::external_body]
fn slots_new() -> (made: NodeSlots)
    ensures
        slot_nodes(made) == no_nodes(),
{
    NodeSlots { slots: SlotMap::new() }
}

/// Counts the nodes with `SlotMap::len`. Claimed of it: the count is the
/// number of keys under which the map holds a node, which is finite.
#[verifier::external_body]
fn slots_len(slots: &NodeSlots) -> (n: usize)
    ensures
        counts(slot_nodes(*slots), n),
{
    slots.slots.len()
}

/// Puts a node in the map with `SlotMap::insert`, which panics when the
/// map is full; a map of at most `SLOT_LIMIT` nodes is not. Claimed of it:
/// the key returned has a number under which the map held no node, the map
/// holds the node under that number, and every other node as before.
#[verifier::external_body]
fn slots_insert(slots: &mut NodeSlots, node: NodeContainer) -> (key: DefaultKey)
    requires
        slot_nodes(*old(slots)).dom().finite(),
        slot_nodes(*old(slots)).dom().len() <= SLOT_LIMIT,
    ensures
        !slot_nodes(*old(slots)).contains_key(key_number(key)),
        slot_nodes(*final(slots)) == slot_nodes(*old(slots)).insert(key_number(key), node),
{
    slots.slots.insert(node)
}

/// Looks a key up with `SlotMap::get`. Claimed of it: the node is returned
/// that the map holds under the number of the key, and nothing where it
/// holds none.
#[verifier::external_body]
fn slots_get(slots: &NodeSlots, key: DefaultKey) -> (found: Option<NodeContainer>)
    ensures
        found == if slot_nodes(*slots).contains_key(key_number(key)) {
            Some(slot_nodes(*slots)[key_number(key)])
        } else {
            None
        },
{
    slots.slots.get(key).copied()
}

/// The number of a key, with `Key::data` and `KeyData::as_ffi`.
#[verifier::external_body]
fn key_bits(key: DefaultKey) -> (n: u64)
    ensures
        n == key_number(key),
{
    key.data().as_ffi()
}

impl NodeSlots {
    /// A slot map without nodes.
    pub fn new() -> (slots: Self)
        ensures
            slot_nodes(slots) == no_nodes(),
    {
        slots_new()
    }

    /// The number of nodes in the map.
    pub fn len(&self) -> (n: usize)
        ensures
            counts(slot_nodes(*self), n),
    {
        slots_len(self)
    }

    /// Puts a node in the map and returns its key; `None`, and the map as
    /// it was, where the map is full.
    pub fn insert(&mut self, node: NodeContainer) -> (key: Option<DefaultKey>)
        ensures
            key is Some <==> slot_nodes(*old(self)).dom().len() <= SLOT_LIMIT,
            key is Some ==> !slot_nodes(*old(self)).contains_key(key_number(key->Some_0))
                && slot_nodes(*final(self)) == slot_nodes(*old(self)).insert(
                key_number(key->Some_0),
                node,
            ),
            key is None ==> slot_nodes(*final(self)) == slot_nodes(*old(self)),
    {
        if slots_len(self) <= SLOT_LIMIT {
            Some(slots_insert(self, node))
        } else {
            None
        }
    }

    /// The node under a key.
    pub fn get(&self, key: DefaultKey) -> (found: Option<NodeContainer>)
        ensures
            found == if slot_nodes(*self).contains_key(key_number(key)) {
                Some(slot_nodes(*self)[key_number(key)])
            } else {
                None
            },
    {
        slots_get(self, key)
    }
}

/// The input of an evaluation together with the slot map that holds the
/// nodes.
pub struct SlotInput<'i, T>(pub T, pub &'i NodeSlots);

impl<'i, T> SlotInput<'i, T> {
    /// The same slot map with another input.
    pub fn new(&self, arg: T) -> (r: SlotInput<'i, T>)
        ensures
            r.0 == arg,
            r.1 == self.1,
    {
        SlotInput(arg, self.1)
    }
}

/// An erased input with its slot map.
pub type AnySlotInput<'i> = SlotInput<'i, TaggedValue>;

/// What a unit yields on its own: a constant its value, an identity and a
/// monitor their input, a populated cache what it holds where it is handed
/// the unit value. A placeholder is a fault, and so is a unit that needs the
/// nodes it was built from.
pub open spec fn alone(unit: TypeErasedNode, node: u64, input: TaggedValue) -> Result<
    TaggedValue,
    Fault,
> {
    match unit {
        TypeErasedNode::Value(v) => Ok(v),
        TypeErasedNode::Identity => Ok(input),
        TypeErasedNode::Monitor(_) => Ok(input),
        TypeErasedNode::Placeholder => Err(Fault::Placeholder { node }),
        TypeErasedNode::Cache(CacheSlot::Populated(v)) => match expect_unit(node, input) {
            Some(fault) => Err(fault),
            None => Ok(v),
        },
        _ => Err(Fault::NodeNotFound { node }),
    }
}

/// What evaluating a key yields, given what was found in its slot: a fault
/// where the slot is vacant, and else what the node yields on its own.
pub open spec fn found_outcome(found: Option<NodeContainer>, node: u64, input: TaggedValue)
    -> Result<TaggedValue, Fault> {
    match found {
        None => Err(Fault::NodeNotFound { node }),
        Some(container) => alone(container.node, node, input),
    }
}

/// Evaluates what was found in the slot of the key with the number `node`.
pub fn eval_found(found: Option<NodeContainer>, node: u64, input: TaggedValue) -> (r: Result<
    TaggedValue,
    Fault,
>)
    ensures
        r == found_outcome(found, node, input),
{
    match found {
        None => Err(Fault::NodeNotFound { node }),
        Some(container) => match container.node {
            TypeErasedNode::Value(v) => Ok(v),
            TypeErasedNode::Identity => Ok(input),
            TypeErasedNode::Monitor(_) => Ok(input),
            TypeErasedNode::Placeholder => Err(Fault::Placeholder { node }),
            TypeErasedNode::Cache(CacheSlot::Populated(v)) => match input {
                TaggedValue::Unit => Ok(v),
                _ => Err(
                    Fault::Downcast {
                        node,
                        error: DowncastError {
                            expected: Primitive::Unit,
                            found: input.primitive(),
                        },
                    },
                ),
            },
            _ => Err(Fault::NodeNotFound { node }),
        },
    }
}

/// What evaluating `key` in the slot map of `input` yields.
pub open spec fn key_outcome(key: DefaultKey, input: AnySlotInput) -> Result<TaggedValue, Fault> {
    found_outcome(
        if slot_nodes(*input.1).contains_key(key_number(key)) {
            Some(slot_nodes(*input.1)[key_number(key)])
        } else {
            None
        },
        key_number(key),
        input.0,
    )
}

/// Evaluates the node in the slot of `key` on the input.
pub fn eval_key(key: DefaultKey, input: AnySlotInput) -> (r: Result<TaggedValue, Fault>)
    ensures
        r == key_outcome(key, input),
{
    let found = input.1.get(key);
    eval_found(found, key_bits(key), input.0)
}

/// The fault of the tree as a fault of a node on its own.
pub open spec fn as_node_fault(fault: Fault) -> NodeFault {
    match fault {
        Fault::Downcast { error, .. } => NodeFault::Downcast(error),
        Fault::Overflow { .. } => NodeFault::Overflow,
        Fault::Placeholder { .. } => NodeFault::Placeholder,
        Fault::NodeNotFound { .. } => NodeFault::NodeNotFound,
    }
}

impl<'i> Node<AnySlotInput<'i>> for DefaultKey {
    type Output = TaggedValue;

    open spec fn outcome(&self, input: AnySlotInput<'i>) -> Result<TaggedValue, NodeFault> {
        match key_outcome(*self, input) {
            Ok(v) => Ok(v),
            Err(fault) => Err(as_node_fault(fault)),
        }
    }

    open spec fn after_eval(&self, input: AnySlotInput<'i>) -> Self {
        *self
    }

    open spec fn after_reset(&self) -> Self {
        *self
    }

    open spec fn observed(&self) -> Option<TaggedValue> {
        None
    }

    fn eval(&mut self, input: AnySlotInput<'i>) -> (r: Result<TaggedValue, NodeFault>) {
        match eval_key(*self, input) {
            Ok(v) => Ok(v),
            Err(Fault::Downcast { node, error }) => Err(NodeFault::Downcast(error)),
            Err(Fault::Overflow { node }) => Err(NodeFault::Overflow),
            Err(Fault::Placeholder { node }) => Err(NodeFault::Placeholder),
            Err(Fault::NodeNotFound { node }) => Err(NodeFault::NodeNotFound),
        }
    }

    fn reset(&mut self) {
    }

    fn serialize(&self) -> (r: Option<TaggedValue>) {
        None
    }
}

} // verus!
