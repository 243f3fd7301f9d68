//! Nodes that remember: the value cache, the monitor, and let bindings.

use core::marker::PhantomData;
use vstd::prelude::*;
use crate::cache::CacheSlot;
use crate::node::{Node, NodeFault};
use crate::value::{DynAny, TaggedValue};

verus! {

/// Caches the output of a node and answers from the cache from then on.
pub struct CacheNode<T, CachedNode> {
    cache: CacheSlot<T>,
    node: CachedNode,
}

impl<T, CachedNode> CacheNode<T, CachedNode> {
    /// The cell of the cache.
    pub closed spec fn cache(&self) -> CacheSlot<T> {
        self.cache
    }

    /// The node whose output is cached.
    pub closed spec fn inner(&self) -> CachedNode {
        self.node
    }

    /// A cache around `node`, empty.
    pub fn new(node: CachedNode) -> (r: CacheNode<T, CachedNode>)
        ensures
            r.cache() == CacheSlot::<T>::Empty,
            r.inner() == node,
    {
        CacheNode { cache: CacheSlot::Empty, node }
    }
}

impl<T: Copy, CachedNode: Node<(), Output = T>> Node<()> for CacheNode<T, CachedNode> {
    type Output = T;

    closed spec fn outcome(&self, input: ()) -> Result<T, NodeFault> {
        match self.cache {
            CacheSlot::Populated(v) => Ok(v),
            CacheSlot::Empty => self.node.outcome(()),
        }
    }

    closed spec fn after_eval(&self, input: ()) -> Self {
        match self.cache {
            CacheSlot::Populated(_) => *self,
            CacheSlot::Empty => CacheNode {
                cache: match self.node.outcome(()) {
                    Ok(v) => CacheSlot::Populated(v),
                    Err(_) => CacheSlot::Empty,
                },
                node: self.node.after_eval(()),
            },
        }
    }

    closed spec fn after_reset(&self) -> Self {
        CacheNode { cache: CacheSlot::Empty, node: self.node }
    }

    closed spec fn observed(&self) -> Option<TaggedValue> {
        None
    }

    fn eval(&mut self, input: ()) -> (r: Result<T, NodeFault>) {
        match self.cache {
            CacheSlot::Populated(v) => Ok(v),
            CacheSlot::Empty => match self.node.eval(()) {
                Ok(v) => {
                    self.cache.write(v);
                    Ok(v)
                },
                Err(e) => Err(e),
            },
        }
    }

    fn reset(&mut self) {
        self.cache.reset();
    }

    fn serialize(&self) -> (r: Option<TaggedValue>) {
        None
    }
}

/// What the cache node's state machine is: a populated cache answers with
/// what it holds and stays as it is; an empty one evaluates the inner node
/// and keeps a value that comes back; a reset empties the cell and leaves the
/// inner node alone.
pub proof fn lemma_cache_node<T: Copy, N: Node<(), Output = T>>(node: CacheNode<T, N>)
    ensures
        node.cache() is Populated ==> node.outcome(()) == Ok::<T, NodeFault>(
            node.cache()->Populated_0,
        ) && node.after_eval(()) == node,
        node.cache() is Empty ==> node.outcome(()) == node.inner().outcome(())
            && node.after_eval(()).inner() == node.inner().after_eval(()),
        node.cache() is Empty && node.inner().outcome(()) is Ok ==> node.after_eval(()).cache()
            == CacheSlot::Populated(node.inner().outcome(())->Ok_0),
        node.cache() is Empty && node.inner().outcome(()) is Err ==> node.after_eval(()).cache()
            == CacheSlot::<T>::Empty,
        node.after_reset().cache() == CacheSlot::<T>::Empty,
        node.after_reset().inner() == node.inner(),
{
}

/// A cache does not alter results: once an evaluation has succeeded, every
/// further one yields the same value and changes nothing.
pub proof fn lemma_cache_node_repeatable<T: Copy, N: Node<(), Output = T>>(node: CacheNode<T, N>)
    requires
        node.outcome(()) is Ok,
    ensures
        node.after_eval(()).outcome(()) == node.outcome(()),
        node.after_eval(()).after_eval(()) == node.after_eval(()),
{
}

/// After a reset a cache node asks its inner node again: it never hands out
/// the value it held before.
pub proof fn lemma_cache_node_reset<T: Copy, N: Node<(), Output = T>>(node: CacheNode<T, N>)
    ensures
        node.after_reset().outcome(()) == node.inner().outcome(()),
{
}

/// Hands its input through and keeps the last one for introspection.
pub struct MonitorNode<T> {
    output: CacheSlot<T>,
}

impl<T> MonitorNode<T> {
    /// The last input the monitor was handed.
    pub closed spec fn last(&self) -> CacheSlot<T> {
        self.output
    }

    /// A monitor that has observed nothing.
    pub fn new() -> (r: MonitorNode<T>)
        ensures
            r.last() == CacheSlot::<T>::Empty,
    {
        MonitorNode { output: CacheSlot::Empty }
    }
}

impl<T: Copy + DynAny> Node<T> for MonitorNode<T> {
    type Output = T;

    closed spec fn outcome(&self, input: T) -> Result<T, NodeFault> {
        Ok(input)
    }

    closed spec fn after_eval(&self, input: T) -> Self {
        MonitorNode { output: CacheSlot::Populated(input) }
    }

    closed spec fn after_reset(&self) -> Self {
        *self
    }

    closed spec fn observed(&self) -> Option<TaggedValue> {
        match self.output {
            CacheSlot::Populated(v) => Some(v.erased()),
            CacheSlot::Empty => None,
        }
    }

    fn eval(&mut self, input: T) -> (r: Result<T, NodeFault>) {
        self.output.overwrite(input);
        Ok(input)
    }

    fn reset(&mut self) {
    }

    fn serialize(&self) -> (r: Option<TaggedValue>) {
        match self.output {
            CacheSlot::Populated(v) => Some(v.upcast()),
            CacheSlot::Empty => None,
        }
    }
}

/// What the monitor's state machine is: it yields its input, remembers it,
/// shows the erased form of what it remembers, and keeps it across a reset.
pub proof fn lemma_monitor_node<T: Copy + DynAny>(node: MonitorNode<T>, input: T)
    ensures
        node.outcome(input) == Ok::<T, NodeFault>(input),
        node.after_eval(input).last() == CacheSlot::Populated(input),
        node.after_eval(input).observed() == Some(input.erased()),
        node.last() is Empty ==> node.observed() is None,
        node.after_reset() == node,
{
}

/// A binding: evaluated on `Some(v)` it is set to `v`, evaluated on `None` it
/// yields the value it was last set to.
pub struct LetNode<T> {
    cache: CacheSlot<T>,
}

impl<T> LetNode<T> {
    /// The value the binding is set to.
    pub closed spec fn bound(&self) -> CacheSlot<T> {
        self.cache
    }

    /// A binding that is not set.
    pub fn new() -> (r: LetNode<T>)
        ensures
            r.bound() == CacheSlot::<T>::Empty,
    {
        LetNode { cache: CacheSlot::Empty }
    }
}

impl<T: Copy> Node<Option<T>> for LetNode<T> {
    type Output = T;

    closed spec fn outcome(&self, input: Option<T>) -> Result<T, NodeFault> {
        match input {
            Some(v) => Ok(v),
            None => match self.cache {
                CacheSlot::Populated(v) => Ok(v),
                CacheSlot::Empty => Err(NodeFault::Uninitialized),
            },
        }
    }

    closed spec fn after_eval(&self, input: Option<T>) -> Self {
        match input {
            Some(v) => LetNode { cache: CacheSlot::Populated(v) },
            None => *self,
        }
    }

    closed spec fn after_reset(&self) -> Self {
        LetNode { cache: CacheSlot::Empty }
    }

    closed spec fn observed(&self) -> Option<TaggedValue> {
        None
    }

    fn eval(&mut self, input: Option<T>) -> (r: Result<T, NodeFault>) {
        match input {
            Some(v) => {
                self.cache.overwrite(v);
                Ok(v)
            },
            None => match self.cache {
                CacheSlot::Populated(v) => Ok(v),
                CacheSlot::Empty => Err(NodeFault::Uninitialized),
            },
        }
    }

    fn reset(&mut self) {
        self.cache.reset();
    }

    fn serialize(&self) -> (r: Option<TaggedValue>) {
        None
    }
}

/// What the binding's state machine is.
pub proof fn lemma_let_node<T: Copy>(node: LetNode<T>, v: T)
    ensures
        node.outcome(Some(v)) == Ok::<T, NodeFault>(v),
        node.after_eval(Some(v)).bound() == CacheSlot::Populated(v),
        node.after_eval(None) == node,
        node.bound() is Populated ==> node.outcome(None) == Ok::<T, NodeFault>(
            node.bound()->Populated_0,
        ),
        node.bound() is Empty ==> node.outcome(None) == Err::<T, NodeFault>(
            NodeFault::Uninitialized,
        ),
        node.after_reset().bound() == CacheSlot::<T>::Empty,
{
}

/// Ends the scope of a binding: ignores its input and evaluates the node it
/// holds on the unit value.
pub struct EndLetNode<Input> {
    input: Input,
}

impl<Input> EndLetNode<Input> {
    /// The node that is evaluated.
    pub closed spec fn inner(&self) -> Input {
        self.input
    }

    pub fn new(input: Input) -> (r: EndLetNode<Input>)
        ensures
            r.inner() == input,
    {
        EndLetNode { input }
    }
}

impl<T, Input: Node<()>> Node<T> for EndLetNode<Input> {
    type Output = Input::Output;

    closed spec fn outcome(&self, input: T) -> Result<Input::Output, NodeFault> {
        self.input.outcome(())
    }

    closed spec fn after_eval(&self, input: T) -> Self {
        EndLetNode { input: self.input.after_eval(()) }
    }

    closed spec fn after_reset(&self) -> Self {
        *self
    }

    closed spec fn observed(&self) -> Option<TaggedValue> {
        None
    }

    fn eval(&mut self, input: T) -> (r: Result<Input::Output, NodeFault>) {
        self.input.eval(())
    }

    fn reset(&mut self) {
    }

    fn serialize(&self) -> (r: Option<TaggedValue>) {
        None
    }
}

/// What the end of a binding's scope yields, whatever it is handed.
pub proof fn lemma_end_let_node<T, N: Node<()>>(node: EndLetNode<N>, input: T)
    ensures
        node.outcome(input) == node.inner().outcome(()),
        node.after_eval(input).inner() == node.inner().after_eval(()),
        Node::<T>::after_reset(&node) == node,
{
}

/// Reads a binding: evaluates the binding it holds on `None`.
pub struct RefNode<T, Let> {
    let_node: Let,
    _t: PhantomData<T>,
}

impl<Let, T> RefNode<T, Let> {
    /// The binding that is read.
    pub closed spec fn binding(&self) -> Let {
        self.let_node
    }

    pub fn new(let_node: Let) -> (r: RefNode<T, Let>)
        ensures
            r.binding() == let_node,
    {
        RefNode { let_node, _t: PhantomData }
    }
}

impl<T, Let: Node<Option<T>>> Node<()> for RefNode<T, Let> {
    type Output = Let::Output;

    closed spec fn outcome(&self, input: ()) -> Result<Let::Output, NodeFault> {
        self.let_node.outcome(None)
    }

    closed spec fn after_eval(&self, input: ()) -> Self {
        RefNode { let_node: self.let_node.after_eval(None), _t: self._t }
    }

    closed spec fn after_reset(&self) -> Self {
        *self
    }

    closed spec fn observed(&self) -> Option<TaggedValue> {
        None
    }

    fn eval(&mut self, input: ()) -> (r: Result<Let::Output, NodeFault>) {
        self.let_node.eval(None)
    }

    fn reset(&mut self) {
    }

    fn serialize(&self) -> (r: Option<TaggedValue>) {
        None
    }
}

/// What reading a binding yields.
pub proof fn lemma_ref_node<T, Let: Node<Option<T>>>(node: RefNode<T, Let>)
    ensures
        node.outcome(()) == node.binding().outcome(None),
        node.after_eval(()).binding() == node.binding().after_eval(None),
        node.after_reset() == node,
{
}

} // verus!
