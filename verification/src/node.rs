//! The node abstraction: a unit that is evaluated on an input, may keep
//! state between evaluations, and can be reset and inspected.

use vstd::prelude::*;
use crate::value::{DowncastError, TaggedValue};

verus! {

/// A fault of evaluating a node outside a tree.
#[derive(Clone, Copy, Debug, PartialEq, Eq, Structural)]
pub enum NodeFault {
    /// An erased value did not have the type its consumer expects.
    Downcast(DowncastError),
    /// A placeholder was evaluated.
    Placeholder,
    /// A binding was read before it was set.
    Uninitialized,
    /// The sum of two values does not fit in 32 bits.
    Overflow,
    /// The node, or one it depends on, is not there.
    NodeNotFound,
}

/// A unit of computation from `Input` to `Output`.
///
/// A node is a state machine: [`Node::outcome`] says what an evaluation
/// yields in the present state and [`Node::after_eval`] what state it leaves.
pub trait Node<Input>: Sized {
    type Output;

    /// What evaluating the node on `input` yields.
    spec fn outcome(&self, input: Input) -> Result<Self::Output, NodeFault>;

    /// The node after it has been evaluated on `input`.
    spec fn after_eval(&self, input: Input) -> Self;

    /// The node after a reset.
    spec fn after_reset(&self) -> Self;

    /// The last value the node observed, if it observes at all.
    spec fn observed(&self) -> Option<TaggedValue>;

    /// Evaluates the node.
    fn eval(&mut self, input: Input) -> (r: Result<Self::Output, NodeFault>)
        ensures
            r == old(self).outcome(input),
            *final(self) == old(self).after_eval(input),
    ;

    /// Clears what the node remembers of earlier evaluations.
    fn reset(&mut self)
        ensures
            *final(self) == old(self).after_reset(),
    ;

    /// The last value the node observed, if it observes at all.
    fn serialize(&self) -> (r: Option<TaggedValue>)
        ensures
            r == self.observed(),
    ;
}

/// Produces the value it holds.
#[derive(Clone, Copy, Debug, PartialEq, Eq)]
pub struct ValueNode<T>(pub T);

impl<T> ValueNode<T> {
    pub fn new(value: T) -> (r: Self)
        ensures
            r.0 == value,
    {
        ValueNode(value)
    }
}

impl<T: Copy> Node<()> for ValueNode<T> {
    type Output = T;

    open spec fn outcome(&self, input: ()) -> Result<T, NodeFault> {
        Ok(self.0)
    }

    open spec fn after_eval(&self, input: ()) -> Self {
        *self
    }

    open spec fn after_reset(&self) -> Self {
        *self
    }

    open spec fn observed(&self) -> Option<TaggedValue> {
        None
    }

    fn eval(&mut self, input: ()) -> (r: Result<T, NodeFault>) {
        Ok(self.0)
    }

    fn reset(&mut self) {
    }

    fn serialize(&self) -> (r: Option<TaggedValue>) {
        None
    }
}

/// Hands its input through.
#[derive(Clone, Copy, Debug, PartialEq, Eq)]
pub struct IdNode;

impl IdNode {
    pub fn new() -> (r: Self) {
        IdNode
    }
}

impl<T> Node<T> for IdNode {
    type Output = T;

    open spec fn outcome(&self, input: T) -> Result<T, NodeFault> {
        Ok(input)
    }

    open spec fn after_eval(&self, input: T) -> Self {
        *self
    }

    open spec fn after_reset(&self) -> Self {
        *self
    }

    open spec fn observed(&self) -> Option<TaggedValue> {
        None
    }

    fn eval(&mut self, input: T) -> (r: Result<T, NodeFault>) {
        Ok(input)
    }

    fn reset(&mut self) {
    }

    fn serialize(&self) -> (r: Option<TaggedValue>) {
        None
    }
}

/// Adds the two components of its input.
#[derive(Clone, Copy, Debug, PartialEq, Eq)]
pub struct AddNode;

impl AddNode {
    pub fn new() -> (r: Self) {
        AddNode
    }
}

impl Node<(u32, u32)> for AddNode {
    type Output = u32;

    open spec fn outcome(&self, input: (u32, u32)) -> Result<u32, NodeFault> {
        if input.0 + input.1 <= u32::MAX {
            Ok((input.0 + input.1) as u32)
        } else {
            Err(NodeFault::Overflow)
        }
    }

    open spec fn after_eval(&self, input: (u32, u32)) -> Self {
        *self
    }

    open spec fn after_reset(&self) -> Self {
        *self
    }

    open spec fn observed(&self) -> Option<TaggedValue> {
        None
    }

    fn eval(&mut self, input: (u32, u32)) -> (r: Result<u32, NodeFault>) {
        match input.0.checked_add(input.1) {
            Some(s) => Ok(s),
            None => Err(NodeFault::Overflow),
        }
    }

    fn reset(&mut self) {
    }

    fn serialize(&self) -> (r: Option<TaggedValue>) {
        None
    }
}

impl<I, N: Node<I>> Node<I> for Box<N> {
    type Output = N::Output;

    open spec fn outcome(&self, input: I) -> Result<N::Output, NodeFault> {
        (**self).outcome(input)
    }

    open spec fn after_eval(&self, input: I) -> Self {
        Box::new((**self).after_eval(input))
    }

    open spec fn after_reset(&self) -> Self {
        Box::new((**self).after_reset())
    }

    open spec fn observed(&self) -> Option<TaggedValue> {
        (**self).observed()
    }

    fn eval(&mut self, input: I) -> (r: Result<N::Output, NodeFault>) {
        (**self).eval(input)
    }

    fn reset(&mut self) {
        (**self).reset();
    }

    fn serialize(&self) -> (r: Option<TaggedValue>) {
        (**self).serialize()
    }
}

} // verus!
