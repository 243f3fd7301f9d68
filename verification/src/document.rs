//! The graph model: networks of nodes as an author writes them, before they
//! are flattened into a construction plan.

use vstd::prelude::*;
use crate::proto::{InlineRust, NodeIdentifier};
use crate::types::Type;
use crate::value::TaggedValue;
use crate::NodeId;

verus! {

/// A reference to one output of a node of the same network.
#[derive(Clone, Copy, Debug, PartialEq, Eq, Structural, Hash)]
pub struct NodeOutput {
    pub node_id: NodeId,
    pub node_output_index: usize,
}

impl NodeOutput {
    pub fn new(node_id: NodeId, node_output_index: usize) -> (r: Self)
        ensures
            r == (NodeOutput { node_id, node_output_index }),
    {
        NodeOutput { node_id, node_output_index }
    }
}

/// One input of a node.
#[derive(Debug)]
pub enum NodeInput {
    /// The output of another node of the same network.
    Node { node_id: NodeId, output_index: usize, lambda: bool },
    /// A literal.
    Value { tagged_value: TaggedValue, exposed: bool },
    /// An input slot of the enclosing network, of the given type.
    Network(Type),
    /// A kernel-source fragment, meaningful to the GPU path only.
    Inline(InlineRust),
}

impl NodeInput {
    /// A reference to an output of the node `node_id`.
    pub fn node(node_id: NodeId, output_index: usize) -> (r: Self)
        ensures
            r == (NodeInput::Node { node_id, output_index, lambda: false }),
    {
        NodeInput::Node { node_id, output_index, lambda: false }
    }

    /// A literal input.
    pub fn value(tagged_value: TaggedValue, exposed: bool) -> (r: Self)
        ensures
            r == (NodeInput::Value { tagged_value, exposed }),
    {
        NodeInput::Value { tagged_value, exposed }
    }
}

impl Clone for NodeInput {
    fn clone(&self) -> (r: Self)
        ensures
            r == *self,
    {
        match self {
            NodeInput::Node { node_id, output_index, lambda } => NodeInput::Node {
                node_id: *node_id,
                output_index: *output_index,
                lambda: *lambda,
            },
            NodeInput::Value { tagged_value, exposed } => NodeInput::Value {
                tagged_value: *tagged_value,
                exposed: *exposed,
            },
            NodeInput::Network(ty) => NodeInput::Network(ty.clone()),
            NodeInput::Inline(inline) => NodeInput::Inline(inline.clone()),
        }
    }
}

/// The number of inputs of the enclosing network among the first `upto`
/// inputs.
pub open spec fn network_inputs_before(inputs: Seq<NodeInput>, upto: int) -> nat
    decreases upto,
{
    if upto <= 0 || upto > inputs.len() {
        0
    } else {
        network_inputs_before(inputs, upto - 1) + if inputs[upto - 1] is Network {
            1nat
        } else {
            0nat
        }
    }
}

impl NodeInput {
    /// Whether the input is an input of the enclosing network.
    pub fn is_network(&self) -> (r: bool)
        ensures
            r == (*self is Network),
    {
        match self {
            NodeInput::Network(_) => true,
            _ => false,
        }
    }
}

/// How a node is realized.
#[derive(Debug)]
pub enum DocumentNodeImplementation {
    /// By a nested network, which the compiler inlines.
    Network(NodeNetwork),
    /// By a constructor of the registry, named by its identifier.
    Unresolved(NodeIdentifier),
}

/// A node as an author writes it: a named operation with its inputs in
/// order.
#[derive(Debug)]
pub struct DocumentNode {
    pub name: String,
    pub inputs: Vec<NodeInput>,
    pub implementation: DocumentNodeImplementation,
    pub path: Option<Vec<NodeId>>,
    pub skip_deduplication: bool,
}

/// A network: nodes keyed by identifier, the outputs it designates, and the
/// nodes that stand for its input slots.
#[derive(Debug)]
pub struct NodeNetwork {
    pub inputs: Vec<NodeId>,
    pub outputs: Vec<NodeOutput>,
    pub nodes: Vec<(NodeId, DocumentNode)>,
    pub disabled: Vec<NodeId>,
    pub previous_outputs: Option<Vec<NodeOutput>>,
}

impl DocumentNode {
    /// A node named `name` with the given inputs, realized by the
    /// constructor registered under `identifier`.
    pub fn unresolved(name: &str, inputs: Vec<NodeInput>, identifier: &str) -> (r: Self)
        ensures
            r.name@ == name@,
            r.inputs == inputs,
            r.implementation is Unresolved,
            r.implementation->Unresolved_0.name@ == identifier@,
            r.path is None,
            !r.skip_deduplication,
    {
        DocumentNode {
            name: name.to_owned(),
            inputs,
            implementation: DocumentNodeImplementation::Unresolved(NodeIdentifier::new(identifier)),
            path: None,
            skip_deduplication: false,
        }
    }

    /// A node named `name` with the given inputs, realized by a nested
    /// network.
    pub fn nested(name: &str, inputs: Vec<NodeInput>, network: NodeNetwork) -> (r: Self)
        ensures
            r.name@ == name@,
            r.inputs == inputs,
            r.implementation == DocumentNodeImplementation::Network(network),
            r.path is None,
            !r.skip_deduplication,
    {
        DocumentNode {
            name: name.to_owned(),
            inputs,
            implementation: DocumentNodeImplementation::Network(network),
            path: None,
            skip_deduplication: false,
        }
    }
}

impl NodeNetwork {
    /// The network that consists of `node` alone, as node 0, and designates
    /// its first output. Every input of the network that the node takes is
    /// an input slot of the network.
    pub fn value_network(node: DocumentNode) -> (r: Self)
        ensures
            r.inputs@ == Seq::new(
                network_inputs_before(node.inputs@, node.inputs@.len() as int),
                |i: int| 0u64,
            ),
            r.outputs@ == seq![NodeOutput { node_id: 0, node_output_index: 0 }],
            r.nodes@ == seq![(0u64, node)],
            r.disabled@.len() == 0,
            r.previous_outputs is None,
    {
        let mut inputs: Vec<NodeId> = Vec::new();
        let mut k: usize = 0;
        while k < node.inputs.len()
            invariant
                k <= node.inputs@.len(),
                inputs@ == Seq::new(network_inputs_before(node.inputs@, k as int), |i: int| 0u64),
            decreases node.inputs.len() - k,
        {
            if node.inputs[k].is_network() {
                inputs.push(0);
            }
            assert(inputs@ =~= Seq::new(
                network_inputs_before(node.inputs@, k + 1),
                |i: int| 0u64,
            ));
            k += 1;
        }
        let mut outputs: Vec<NodeOutput> = Vec::new();
        outputs.push(NodeOutput::new(0, 0));
        let mut nodes: Vec<(NodeId, DocumentNode)> = Vec::new();
        nodes.push((0, node));
        assert(outputs@ =~= seq![NodeOutput { node_id: 0, node_output_index: 0 }]);
        assert(nodes@ =~= seq![(0u64, node)]);
        NodeNetwork { inputs, outputs, nodes, disabled: Vec::new(), previous_outputs: None }
    }

    /// The network of `nodes`, numbered from 0 in order, that designates the
    /// first output of node `output` and has no inputs.
    pub fn enumerated(nodes: Vec<DocumentNode>, output: NodeId) -> (r: Self)
        ensures
            r.inputs@.len() == 0,
            r.outputs@ == seq![NodeOutput { node_id: output, node_output_index: 0 }],
            r.nodes@.len() == nodes@.len(),
            forall|i: int|
                0 <= i < nodes@.len() ==> (#[trigger] r.nodes@[i]).0 == i && r.nodes@[i].1
                    == nodes@[i],
            r.disabled@.len() == 0,
            r.previous_outputs is None,
    {
        let mut outputs: Vec<NodeOutput> = Vec::new();
        outputs.push(NodeOutput::new(output, 0));
        assert(outputs@ =~= seq![NodeOutput { node_id: output, node_output_index: 0 }]);
        let mut numbered: Vec<(NodeId, DocumentNode)> = Vec::new();
        let mut rest = nodes;
        let ghost all = rest@;
        let total = rest.len();
        let mut i: usize = 0;
        while rest.len() > 0
            invariant
                total == all.len(),
                i + rest@.len() == all.len(),
                numbered@.len() == i,
                rest@ == all.skip(i as int),
                forall|j: int|
                    0 <= j < i ==> (#[trigger] numbered@[j]).0 == j && numbered@[j].1 == all[j],
            decreases rest@.len(),
        {
            let node = rest.remove(0);
            assert(rest@ =~= all.skip(i + 1));
            numbered.push((i as u64, node));
            i += 1;
        }
        NodeNetwork {
            inputs: Vec::new(),
            outputs,
            nodes: numbered,
            disabled: Vec::new(),
            previous_outputs: None,
        }
    }
}

} // verus!
