//! The flat construction plan: its instructions, what they are built from,
//! and the kinds of unit they can name.

use vstd::prelude::*;
use crate::types::Type;
use crate::value::TaggedValue;
use crate::NodeId;

verus! {

/// The name under which constructors are registered and plans refer to them.
#[derive(Debug)]
pub struct NodeIdentifier {
    pub name: String,
}

impl NodeIdentifier {
    pub fn new(name: &str) -> (r: Self)
        ensures
            r.name@ == name@,
    {
        NodeIdentifier { name: name.to_owned() }
    }
}

impl Clone for NodeIdentifier {
    fn clone(&self) -> (r: Self)
        ensures
            r == *self,
    {
        NodeIdentifier { name: self.name.clone() }
    }
}

/// A fragment of kernel source with the type it evaluates to.
#[derive(Debug)]
pub struct InlineRust {
    pub expr: String,
    pub ty: Type,
}

impl InlineRust {
    pub fn new(expr: String, ty: Type) -> (r: Self)
        ensures
            r.expr == expr,
            r.ty == ty,
    {
        InlineRust { expr, ty }
    }
}

impl Clone for InlineRust {
    fn clone(&self) -> (r: Self)
        ensures
            r == *self,
    {
        InlineRust { expr: self.expr.clone(), ty: self.ty.clone() }
    }
}

/// What a construction instruction is built from.
#[derive(Debug)]
pub enum ConstructionArgs {
    /// A literal payload.
    Value(TaggedValue),
    /// The identifiers of the nodes it depends on; the flag marks a
    /// dependency that is passed as a lambda.
    Nodes(Vec<(NodeId, bool)>),
    /// A kernel-source fragment, meaningful to the GPU path only.
    Inline(InlineRust),
}

/// Where a node takes its evaluation input from.
#[derive(Debug)]
pub enum ProtoNodeInput {
    /// The node takes the unit value.
    Nothing,
    /// The node takes an input of the enclosing network, of the given type.
    Network(Type),
    /// The node takes the output of another node; the flag marks a lambda.
    Node(NodeId, bool),
}

/// One entry of a construction plan.
#[derive(Debug)]
pub struct ProtoNode {
    pub construction_args: ConstructionArgs,
    pub input: ProtoNodeInput,
    pub identifier: NodeIdentifier,
    pub document_node_path: Vec<NodeId>,
    pub skip_deduplication: bool,
}

impl ProtoNodeInput {
    /// Whether the node takes an input of the enclosing network.
    pub fn is_network(&self) -> (r: bool)
        ensures
            r == (*self is Network),
    {
        match self {
            ProtoNodeInput::Network(_) => true,
            _ => false,
        }
    }
}

impl ProtoNode {
    /// The identifiers the instruction depends on for its construction.
    pub open spec fn dependencies(self) -> Seq<NodeId> {
        match self.construction_args {
            ConstructionArgs::Nodes(ids) => ids@.map_values(|p: (NodeId, bool)| p.0),
            _ => Seq::empty(),
        }
    }

    /// An instruction that produces a constant.
    pub fn value(value: ConstructionArgs, path: Vec<NodeId>) -> (r: Self)
        ensures
            r.construction_args == value,
            r.input is Nothing,
            r.identifier.name@ == "graphene_core::value::ValueNode"@,
            r.document_node_path == path,
            !r.skip_deduplication,
    {
        ProtoNode {
            identifier: NodeIdentifier::new("graphene_core::value::ValueNode"),
            construction_args: value,
            input: ProtoNodeInput::Nothing,
            document_node_path: path,
            skip_deduplication: false,
        }
    }
}

/// A construction plan: instructions keyed by node identifier, in
/// construction order, with the designated output.
#[derive(Debug)]
pub struct ProtoNetwork {
    pub inputs: Vec<NodeId>,
    pub output: NodeId,
    pub nodes: Vec<(NodeId, ProtoNode)>,
}

impl ProtoNetwork {
    /// The identifiers of the plan, in construction order.
    pub open spec fn ids(self) -> Seq<NodeId> {
        self.nodes@.map_values(|p: (NodeId, ProtoNode)| p.0)
    }
}

/// The kinds of unit the execution tree can construct.
#[derive(Clone, Copy, Debug, PartialEq, Eq, Structural, Hash)]
pub enum NodeConstructor {
    /// Hands its input through unchanged.
    Identity,
    /// Adds the outputs of its two dependencies.
    Add,
    /// Remembers the output of its dependency.
    Cache,
    /// Hands its input through and keeps the last one for introspection.
    Monitor,
    /// Feeds the output of its first dependency to its second.
    Compose,
    /// Reserves a slot; evaluating it is a fault.
    Placeholder,
}

impl NodeConstructor {
    /// The number of dependencies the unit is built from.
    pub open spec fn arity(self) -> nat {
        match self {
            NodeConstructor::Identity => 0,
            NodeConstructor::Add => 2,
            NodeConstructor::Cache => 1,
            NodeConstructor::Monitor => 0,
            NodeConstructor::Compose => 2,
            NodeConstructor::Placeholder => 0,
        }
    }

    /// The number of dependencies the unit is built from.
    pub fn dependency_count(&self) -> (n: usize)
        ensures
            n == self.arity(),
    {
        match self {
            NodeConstructor::Identity => 0,
            NodeConstructor::Add => 2,
            NodeConstructor::Cache => 1,
            NodeConstructor::Monitor => 0,
            NodeConstructor::Compose => 2,
            NodeConstructor::Placeholder => 0,
        }
    }
}

/// The mathematical content of [`ConstructionArgs`].
pub ghost enum ConstructionArgsView {
    Value(TaggedValue),
    Nodes(Seq<(NodeId, bool)>),
    Inline(InlineRust),
}

impl View for ConstructionArgs {
    type V = ConstructionArgsView;

    open spec fn view(&self) -> ConstructionArgsView {
        match self {
            ConstructionArgs::Value(v) => ConstructionArgsView::Value(*v),
            ConstructionArgs::Nodes(ids) => ConstructionArgsView::Nodes(ids@),
            ConstructionArgs::Inline(inline) => ConstructionArgsView::Inline(*inline),
        }
    }
}

/// The mathematical content of a [`ProtoNode`].
pub ghost struct ProtoNodeView {
    pub construction_args: ConstructionArgsView,
    pub input: ProtoNodeInput,
    pub identifier: Seq<char>,
    pub document_node_path: Seq<NodeId>,
    pub skip_deduplication: bool,
}

impl ProtoNodeView {
    /// The identifiers the instruction depends on for its construction.
    pub open spec fn dependencies(self) -> Seq<NodeId> {
        match self.construction_args {
            ConstructionArgsView::Nodes(ids) => ids.map_values(|p: (NodeId, bool)| p.0),
            _ => Seq::empty(),
        }
    }
}

impl View for ProtoNode {
    type V = ProtoNodeView;

    open spec fn view(&self) -> ProtoNodeView {
        ProtoNodeView {
            construction_args: self.construction_args@,
            input: self.input,
            identifier: self.identifier.name@,
            document_node_path: self.document_node_path@,
            skip_deduplication: self.skip_deduplication,
        }
    }
}

/// The content of a sequence of instructions.
pub open spec fn plan_view(nodes: Seq<(NodeId, ProtoNode)>) -> Seq<(NodeId, ProtoNodeView)> {
    nodes.map_values(|p: (NodeId, ProtoNode)| (p.0, p.1@))
}

/// The identifiers of a sequence of instructions, in order.
pub open spec fn plan_ids(nodes: Seq<(NodeId, ProtoNodeView)>) -> Seq<NodeId> {
    nodes.map_values(|p: (NodeId, ProtoNodeView)| p.0)
}

/// Whether one of the first `k` instructions has the identifier `id`.
pub open spec fn appears_before(nodes: Seq<(NodeId, ProtoNodeView)>, k: int, id: NodeId) -> bool {
    exists|i: int| 0 <= i < k && i < nodes.len() && (#[trigger] nodes[i]).0 == id
}

/// Every dependency of an instruction is the identifier of an earlier one.
pub open spec fn producers_precede(nodes: Seq<(NodeId, ProtoNodeView)>) -> bool {
    forall|k: int, j: int|
        0 <= k < nodes.len() && 0 <= j < nodes[k].1.dependencies().len() ==> appears_before(
            nodes,
            k,
            #[trigger] nodes[k].1.dependencies()[j],
        )
}

/// The mathematical content of a [`ProtoNetwork`].
pub ghost struct ProtoNetworkView {
    pub inputs: Seq<NodeId>,
    pub output: NodeId,
    pub nodes: Seq<(NodeId, ProtoNodeView)>,
}

impl ProtoNetworkView {
    /// The invariant of a construction plan: no identifier occurs twice,
    /// every dependency of an instruction appears earlier in the plan, and
    /// the designated output is an instruction of the plan.
    pub open spec fn well_formed(self) -> bool {
        &&& plan_ids(self.nodes).no_duplicates()
        &&& producers_precede(self.nodes)
        &&& plan_ids(self.nodes).contains(self.output)
    }
}

impl View for ProtoNetwork {
    type V = ProtoNetworkView;

    open spec fn view(&self) -> ProtoNetworkView {
        ProtoNetworkView {
            inputs: self.inputs@,
            output: self.output,
            nodes: plan_view(self.nodes@),
        }
    }
}

} // verus!
