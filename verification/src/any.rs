//! The type-erasure protocol: adapters between nodes over typed values and
//! nodes over erased values, with one checked downcast per edge.

use core::marker::PhantomData;
use vstd::prelude::*;
use crate::node::{Node, NodeFault};
use crate::registry::NodeIOTypes;
use crate::types::{Primitive, Type};
use crate::value::{recovered, DowncastError, DynAny, TaggedValue};

verus! {

/// An erased value.
pub type Any = TaggedValue;

/// Lifts a node over typed values to a node over erased values: the input is
/// downcast to `I`, the node evaluated, and the output erased.
pub struct DynAnyNode<I, O, N> {
    node: N,
    _i: PhantomData<I>,
    _o: PhantomData<O>,
}

impl<I, O, N> DynAnyNode<I, O, N> {
    /// The node that is lifted.
    pub closed spec fn inner(&self) -> N {
        self.node
    }

    pub fn new(node: N) -> (r: Self)
        ensures
            r.inner() == node,
    {
        DynAnyNode { node, _i: PhantomData, _o: PhantomData }
    }
}

/// What a lifted node yields for an erased input: the downcast fault where
/// the input is not of type `I`, and else the erased form of what the inner
/// node yields.
pub open spec fn lifted_outcome<I: DynAny, O: DynAny, N: Node<I, Output = O>>(
    node: N,
    input: Any,
) -> Result<Any, NodeFault> {
    match recovered::<I>(input) {
        Err(e) => Err(NodeFault::Downcast(e)),
        Ok(x) => match node.outcome(x) {
            Ok(o) => Ok(o.erased()),
            Err(f) => Err(f),
        },
    }
}

/// The inner node after a lifted evaluation: untouched where the downcast
/// fails.
pub open spec fn lifted_after<I: DynAny, O: DynAny, N: Node<I, Output = O>>(node: N, input: Any)
    -> N {
    match recovered::<I>(input) {
        Err(_) => node,
        Ok(x) => node.after_eval(x),
    }
}

impl<I: DynAny, O: DynAny, N: Node<I, Output = O>> Node<Any> for DynAnyNode<I, O, N> {
    type Output = Any;

    closed spec fn outcome(&self, input: Any) -> Result<Any, NodeFault> {
        lifted_outcome::<I, O, N>(self.node, input)
    }

    closed spec fn after_eval(&self, input: Any) -> Self {
        DynAnyNode { node: lifted_after::<I, O, N>(self.node, input), _i: self._i, _o: self._o }
    }

    closed spec fn after_reset(&self) -> Self {
        DynAnyNode { node: self.node.after_reset(), _i: self._i, _o: self._o }
    }

    closed spec fn observed(&self) -> Option<TaggedValue> {
        self.node.observed()
    }

    fn eval(&mut self, input: Any) -> (r: Result<Any, NodeFault>) {
        let typed: I = match I::downcast(input) {
            Ok(typed) => typed,
            Err(e) => {
                return Err(NodeFault::Downcast(e));
            },
        };
        match self.node.eval(typed) {
            Ok(o) => Ok(o.upcast()),
            Err(f) => Err(f),
        }
    }

    fn reset(&mut self) {
        self.node.reset();
    }

    fn serialize(&self) -> (r: Option<TaggedValue>) {
        self.node.serialize()
    }
}

/// What the lifted node's state machine is.
pub proof fn lemma_dyn_any_node<I: DynAny, O: DynAny, N: Node<I, Output = O>>(
    node: DynAnyNode<I, O, N>,
    input: Any,
)
    ensures
        node.outcome(input) == lifted_outcome::<I, O, N>(node.inner(), input),
        node.after_eval(input).inner() == lifted_after::<I, O, N>(node.inner(), input),
        node.after_reset().inner() == node.inner().after_reset(),
        node.observed() == node.inner().observed(),
{
}

/// Downcast safety on an edge: a lifted node that is handed an erased value
/// of another type than it expects reports the mismatch, yields no value, and
/// does not touch the node it lifts.
pub proof fn lemma_dyn_any_node_rejects<I: DynAny, O: DynAny, N: Node<I, Output = O>>(
    node: DynAnyNode<I, O, N>,
    input: Any,
)
    requires
        input.tag() != I::static_type(),
    ensures
        node.outcome(input) == Err::<Any, NodeFault>(
            NodeFault::Downcast(DowncastError { expected: I::static_type(), found: input.tag() }),
        ),
        node.after_eval(input) == node,
{
}

/// Lifts a node that yields a reference to a value it holds. Values are
/// handed out by copy, so it evaluates as [`DynAnyNode`] does; it does not
/// show what the inner node has observed.
pub struct DynAnyRefNode<I, O, N> {
    node: N,
    _i: PhantomData<(I, O)>,
}

impl<I, O, N> DynAnyRefNode<I, O, N> {
    /// The node that is lifted.
    pub closed spec fn inner(&self) -> N {
        self.node
    }

    pub fn new(node: N) -> (r: Self)
        ensures
            r.inner() == node,
    {
        DynAnyRefNode { node, _i: PhantomData }
    }
}

impl<I: DynAny, O: DynAny, N: Node<I, Output = O>> Node<Any> for DynAnyRefNode<I, O, N> {
    type Output = Any;

    closed spec fn outcome(&self, input: Any) -> Result<Any, NodeFault> {
        lifted_outcome::<I, O, N>(self.node, input)
    }

    closed spec fn after_eval(&self, input: Any) -> Self {
        DynAnyRefNode { node: lifted_after::<I, O, N>(self.node, input), _i: self._i }
    }

    closed spec fn after_reset(&self) -> Self {
        DynAnyRefNode { node: self.node.after_reset(), _i: self._i }
    }

    closed spec fn observed(&self) -> Option<TaggedValue> {
        None
    }

    fn eval(&mut self, input: Any) -> (r: Result<Any, NodeFault>) {
        let typed: I = match I::downcast(input) {
            Ok(typed) => typed,
            Err(e) => {
                return Err(NodeFault::Downcast(e));
            },
        };
        match self.node.eval(typed) {
            Ok(o) => Ok(o.upcast()),
            Err(f) => Err(f),
        }
    }

    fn reset(&mut self) {
        self.node.reset();
    }

    fn serialize(&self) -> (r: Option<TaggedValue>) {
        None
    }
}

/// What the state machine of a lifted reference-yielding node is.
pub proof fn lemma_dyn_any_ref_node<I: DynAny, O: DynAny, N: Node<I, Output = O>>(
    node: DynAnyRefNode<I, O, N>,
    input: Any,
)
    ensures
        node.outcome(input) == lifted_outcome::<I, O, N>(node.inner(), input),
        node.after_eval(input).inner() == lifted_after::<I, O, N>(node.inner(), input),
        node.after_reset().inner() == node.inner().after_reset(),
        node.observed() is None,
{
}

/// Lifts a node that takes a reference as its input. It evaluates as
/// [`DynAnyNode`] does; a reset does not reach the inner node, and it does
/// not show what the inner node has observed.
pub struct DynAnyInRefNode<I, O, N> {
    node: N,
    _i: PhantomData<(I, O)>,
}

impl<I, O, N> DynAnyInRefNode<I, O, N> {
    /// The node that is lifted.
    pub closed spec fn inner(&self) -> N {
        self.node
    }

    pub fn new(node: N) -> (r: Self)
        ensures
            r.inner() == node,
    {
        DynAnyInRefNode { node, _i: PhantomData }
    }
}

impl<I: DynAny, O: DynAny, N: Node<I, Output = O>> Node<Any> for DynAnyInRefNode<I, O, N> {
    type Output = Any;

    closed spec fn outcome(&self, input: Any) -> Result<Any, NodeFault> {
        lifted_outcome::<I, O, N>(self.node, input)
    }

    closed spec fn after_eval(&self, input: Any) -> Self {
        DynAnyInRefNode { node: lifted_after::<I, O, N>(self.node, input), _i: self._i }
    }

    closed spec fn after_reset(&self) -> Self {
        *self
    }

    closed spec fn observed(&self) -> Option<TaggedValue> {
        None
    }

    fn eval(&mut self, input: Any) -> (r: Result<Any, NodeFault>) {
        let typed: I = match I::downcast(input) {
            Ok(typed) => typed,
            Err(e) => {
                return Err(NodeFault::Downcast(e));
            },
        };
        match self.node.eval(typed) {
            Ok(o) => Ok(o.upcast()),
            Err(f) => Err(f),
        }
    }

    fn reset(&mut self) {
    }

    fn serialize(&self) -> (r: Option<TaggedValue>) {
        None
    }
}

/// What the state machine of a lifted reference-taking node is.
pub proof fn lemma_dyn_any_in_ref_node<I: DynAny, O: DynAny, N: Node<I, Output = O>>(
    node: DynAnyInRefNode<I, O, N>,
    input: Any,
)
    ensures
        node.outcome(input) == lifted_outcome::<I, O, N>(node.inner(), input),
        node.after_eval(input).inner() == lifted_after::<I, O, N>(node.inner(), input),
        node.after_reset() == node,
        node.observed() is None,
{
}

/// Presents a node that is evaluated at once as one whose evaluation can be
/// awaited: the value is ready when the evaluation returns.
pub struct FutureWrapperNode<N> {
    pub node: N,
}

impl<N> FutureWrapperNode<N> {
    pub fn new(node: N) -> (r: Self)
        ensures
            r.node == node,
    {
        FutureWrapperNode { node }
    }
}

impl<T, N: Node<T>> Node<T> for FutureWrapperNode<N> {
    type Output = N::Output;

    open spec fn outcome(&self, input: T) -> Result<N::Output, NodeFault> {
        self.node.outcome(input)
    }

    open spec fn after_eval(&self, input: T) -> Self {
        FutureWrapperNode { node: self.node.after_eval(input) }
    }

    open spec fn after_reset(&self) -> Self {
        FutureWrapperNode { node: self.node.after_reset() }
    }

    open spec fn observed(&self) -> Option<TaggedValue> {
        None
    }

    fn eval(&mut self, input: T) -> (r: Result<N::Output, NodeFault>) {
        self.node.eval(input)
    }

    fn reset(&mut self) {
        self.node.reset();
    }

    fn serialize(&self) -> (r: Option<TaggedValue>) {
        None
    }
}

/// Turns a node over typed values into a node over erased values.
pub trait IntoTypeErasedNode<I, O>: Sized {
    /// The node, lifted.
    fn into_type_erased(self) -> (r: DynAnyNode<I, O, Self>)
        ensures
            r.inner() == self,
    ;
}

impl<I: DynAny, O: DynAny, N: Node<I, Output = O>> IntoTypeErasedNode<I, O> for N {
    fn into_type_erased(self) -> (r: DynAnyNode<I, O, Self>) {
        DynAnyNode::new(self)
    }
}

/// A node whose output is to be downcast to `O`.
pub struct DowncastNode<O, N> {
    pub node: N,
    pub _o: PhantomData<O>,
}

impl<N: Copy, O> Clone for DowncastNode<O, N> {
    fn clone(&self) -> (r: Self)
        ensures
            r.node == self.node,
    {
        DowncastNode { node: self.node, _o: PhantomData }
    }
}

impl<N: Copy, O> Copy for DowncastNode<O, N> {

}

/// What a typed view of an erased node yields: the fault of the erased
/// node, or the downcast fault where its output is not of type `O`, or the
/// value recovered from its output.
pub open spec fn lowered_outcome<I: DynAny, O: DynAny, N: Node<Any, Output = Any>>(
    node: N,
    input: I,
) -> Result<O, NodeFault> {
    match node.outcome(input.erased()) {
        Err(f) => Err(f),
        Ok(v) => match recovered::<O>(v) {
            Ok(o) => Ok(o),
            Err(e) => Err(NodeFault::Downcast(e)),
        },
    }
}

/// Erases the input and downcasts the output: a typed view of a node over
/// erased values.
pub struct DowncastBothNode<I, O, N> {
    node: N,
    _i: PhantomData<I>,
    _o: PhantomData<O>,
}

impl<I, O, N> DowncastBothNode<I, O, N> {
    /// The erased node that is viewed.
    pub closed spec fn inner(&self) -> N {
        self.node
    }

    pub fn new(node: N) -> (r: Self)
        ensures
            r.inner() == node,
    {
        DowncastBothNode { node, _i: PhantomData, _o: PhantomData }
    }
}

impl<I: DynAny, O: DynAny, N: Node<Any, Output = Any>> Node<I> for DowncastBothNode<I, O, N> {
    type Output = O;

    closed spec fn outcome(&self, input: I) -> Result<O, NodeFault> {
        lowered_outcome::<I, O, N>(self.node, input)
    }

    closed spec fn after_eval(&self, input: I) -> Self {
        DowncastBothNode { node: self.node.after_eval(input.erased()), _i: self._i, _o: self._o }
    }

    closed spec fn after_reset(&self) -> Self {
        *self
    }

    closed spec fn observed(&self) -> Option<TaggedValue> {
        None
    }

    fn eval(&mut self, input: I) -> (r: Result<O, NodeFault>) {
        match self.node.eval(input.upcast()) {
            Err(f) => Err(f),
            Ok(v) => match O::downcast(v) {
                Ok(o) => Ok(o),
                Err(e) => Err(NodeFault::Downcast(e)),
            },
        }
    }

    fn reset(&mut self) {
    }

    fn serialize(&self) -> (r: Option<TaggedValue>) {
        None
    }
}

/// What the state machine of a typed view is.
pub proof fn lemma_downcast_both_node<I: DynAny, O: DynAny, N: Node<Any, Output = Any>>(
    node: DowncastBothNode<I, O, N>,
    input: I,
)
    ensures
        node.outcome(input) == lowered_outcome::<I, O, N>(node.inner(), input),
        node.after_eval(input).inner() == node.inner().after_eval(input.erased()),
        node.after_reset() == node,
        node.observed() is None,
{
}

/// A typed view of an erased node that yields a reference. Values are handed
/// out by copy, so it evaluates as [`DowncastBothNode`] does.
pub struct DowncastBothRefNode<I, O, N> {
    node: N,
    _i: PhantomData<(I, O)>,
}

impl<I, O, N> DowncastBothRefNode<I, O, N> {
    /// The erased node that is viewed.
    pub closed spec fn inner(&self) -> N {
        self.node
    }

    pub fn new(node: N) -> (r: Self)
        ensures
            r.inner() == node,
    {
        DowncastBothRefNode { node, _i: PhantomData }
    }
}

impl<I: DynAny, O: DynAny, N: Node<Any, Output = Any>> Node<I> for DowncastBothRefNode<I, O, N> {
    type Output = O;

    closed spec fn outcome(&self, input: I) -> Result<O, NodeFault> {
        lowered_outcome::<I, O, N>(self.node, input)
    }

    closed spec fn after_eval(&self, input: I) -> Self {
        DowncastBothRefNode { node: self.node.after_eval(input.erased()), _i: self._i }
    }

    closed spec fn after_reset(&self) -> Self {
        *self
    }

    closed spec fn observed(&self) -> Option<TaggedValue> {
        None
    }

    fn eval(&mut self, input: I) -> (r: Result<O, NodeFault>) {
        match self.node.eval(input.upcast()) {
            Err(f) => Err(f),
            Ok(v) => match O::downcast(v) {
                Ok(o) => Ok(o),
                Err(e) => Err(NodeFault::Downcast(e)),
            },
        }
    }

    fn reset(&mut self) {
    }

    fn serialize(&self) -> (r: Option<TaggedValue>) {
        None
    }
}

/// What the state machine of a typed view of a reference-yielding node is.
pub proof fn lemma_downcast_both_ref_node<I: DynAny, O: DynAny, N: Node<Any, Output = Any>>(
    node: DowncastBothRefNode<I, O, N>,
    input: I,
)
    ensures
        node.outcome(input) == lowered_outcome::<I, O, N>(node.inner(), input),
        node.after_eval(input).inner() == node.inner().after_eval(input.erased()),
        node.after_reset() == node,
        node.observed() is None,
{
}

/// Composes two erased nodes: the output of the first is the input of the
/// second.
pub struct ComposeTypeErased<First, Second> {
    first: First,
    second: Second,
}

impl<First, Second> ComposeTypeErased<First, Second> {
    /// The node that is evaluated first.
    pub closed spec fn first(&self) -> First {
        self.first
    }

    /// The node that is evaluated on the output of the first.
    pub closed spec fn second(&self) -> Second {
        self.second
    }

    pub fn new(first: First, second: Second) -> (r: Self)
        ensures
            r.first() == first,
            r.second() == second,
    {
        ComposeTypeErased { first, second }
    }
}

impl<First: Node<Any, Output = Any>, Second: Node<Any, Output = Any>> Node<
    Any,
> for ComposeTypeErased<First, Second> {
    type Output = Any;

    closed spec fn outcome(&self, input: Any) -> Result<Any, NodeFault> {
        match self.first.outcome(input) {
            Err(f) => Err(f),
            Ok(arg) => self.second.outcome(arg),
        }
    }

    closed spec fn after_eval(&self, input: Any) -> Self {
        ComposeTypeErased {
            first: self.first.after_eval(input),
            second: match self.first.outcome(input) {
                Err(_) => self.second,
                Ok(arg) => self.second.after_eval(arg),
            },
        }
    }

    closed spec fn after_reset(&self) -> Self {
        *self
    }

    closed spec fn observed(&self) -> Option<TaggedValue> {
        None
    }

    fn eval(&mut self, input: Any) -> (r: Result<Any, NodeFault>) {
        match self.first.eval(input) {
            Err(f) => Err(f),
            Ok(arg) => self.second.eval(arg),
        }
    }

    fn reset(&mut self) {
    }

    fn serialize(&self) -> (r: Option<TaggedValue>) {
        None
    }
}

/// What the composition's state machine is: the first fault ends the
/// evaluation, and the second node is evaluated only where the first has
/// yielded a value.
pub proof fn lemma_compose_type_erased<
    First: Node<Any, Output = Any>,
    Second: Node<Any, Output = Any>,
>(node: ComposeTypeErased<First, Second>, input: Any)
    ensures
        node.first().outcome(input) is Err ==> node.outcome(input) == Err::<Any, NodeFault>(
            node.first().outcome(input)->Err_0,
        ) && node.after_eval(input).second() == node.second(),
        node.first().outcome(input) is Ok ==> node.outcome(input) == node.second().outcome(
            node.first().outcome(input)->Ok_0,
        ) && node.after_eval(input).second() == node.second().after_eval(
            node.first().outcome(input)->Ok_0,
        ),
        node.after_eval(input).first() == node.first().after_eval(input),
        node.after_reset() == node,
{
}

/// A typed view of an erased node that takes the unit value.
pub fn input_node<O: DynAny, N: Node<Any, Output = Any>>(n: N) -> (r: DowncastBothNode<(), O, N>)
    ensures
        r.inner() == n,
{
    DowncastBothNode::new(n)
}

/// Reserves a place for a node; it must never be evaluated, and evaluating it
/// is a fault.
pub struct PanicNode<I, O>(PhantomData<I>, PhantomData<O>);

impl<I, O> PanicNode<I, O> {
    pub fn new() -> (r: Self) {
        PanicNode(PhantomData, PhantomData)
    }
}

impl<I, O> Node<I> for PanicNode<I, O> {
    type Output = O;

    open spec fn outcome(&self, input: I) -> Result<O, NodeFault> {
        Err(NodeFault::Placeholder)
    }

    open spec fn after_eval(&self, input: I) -> Self {
        *self
    }

    open spec fn after_reset(&self) -> Self {
        *self
    }

    open spec fn observed(&self) -> Option<TaggedValue> {
        None
    }

    fn eval(&mut self, input: I) -> (r: Result<O, NodeFault>) {
        Err(NodeFault::Placeholder)
    }

    fn reset(&mut self) {
    }

    fn serialize(&self) -> (r: Option<TaggedValue>) {
        None
    }
}

/// What a node over erasable values says of its own types.
pub trait NodeIO<Input: DynAny>: Node<Input> {
    /// The type of the input.
    fn input_type(&self) -> (p: Primitive)
        ensures
            p == Input::static_type(),
    ;

    /// The type of the output.
    fn output_type(&self) -> (p: Primitive)
        ensures
            p == self.output_tag(),
    ;

    /// The tag of the output type.
    spec fn output_tag(&self) -> Primitive;

    /// The signature of the node, given the types of its parameters.
    fn to_node_io(&self, parameters: Vec<Type>) -> (r: NodeIOTypes)
        ensures
            r.input == Type::Concrete(Input::static_type()),
            r.output == Type::Concrete(self.output_tag()),
            r.parameters == parameters,
    ;
}

impl<I: DynAny, O: DynAny, N: Node<I, Output = O>> NodeIO<I> for N {
    fn input_type(&self) -> (p: Primitive) {
        I::type_tag()
    }

    fn output_type(&self) -> (p: Primitive) {
        O::type_tag()
    }

    open spec fn output_tag(&self) -> Primitive {
        O::static_type()
    }

    fn to_node_io(&self, parameters: Vec<Type>) -> (r: NodeIOTypes) {
        NodeIOTypes::new(Type::Concrete(I::type_tag()), Type::Concrete(O::type_tag()), parameters)
    }
}

} // verus!
