//! The first pass of the compiler: nested networks are inlined and every
//! reference is rewritten to the author-level path of the node that produces
//! the value.

use vstd::prelude::*;
use crate::document::{
    network_inputs_before, DocumentNode, DocumentNodeImplementation, NodeInput, NodeNetwork,
};
use crate::proto::{InlineRust, NodeIdentifier};
use crate::types::Type;
use crate::value::TaggedValue;
use crate::NodeId;

verus! {

/// Why a network could not be compiled. Every variant names the node that
/// is at fault, by its identifier in the network that holds it.
#[derive(Clone, Copy, Debug, PartialEq, Eq, Structural)]
pub enum CompileError {
    /// The network does not designate as many outputs as the call asks for.
    OutputCount { found: usize },
    /// An input of `node` refers to `reference`, which its network does not
    /// hold.
    DanglingReference { node: NodeId, reference: NodeId },
    /// The nested network that realizes `node` designates no output.
    NoOutput { node: NodeId },
    /// `node` takes an input of its network that the enclosing node does
    /// not supply.
    UnboundInput { node: NodeId },
    /// `node` has a source fragment beside other inputs.
    InlineMisplaced { node: NodeId },
    /// `node` takes more than one input of the network.
    TooManyInputs { node: NodeId },
    /// `node` depends on itself.
    Cycle { node: NodeId },
    /// The identifier derived for `node` is that of another node.
    IdCollision { node: NodeId },
}

/// An input of a flattened node.
#[derive(Debug)]
pub enum FlatInput {
    /// The output of the node with the given author-level path.
    Producer(Vec<NodeId>),
    /// A literal.
    Literal(TaggedValue),
    /// An input of the outermost network, of the given type.
    Network(Type),
    /// A kernel-source fragment.
    Inline(InlineRust),
}

/// The mathematical content of a [`FlatInput`].
pub ghost enum FlatInputView {
    Producer(Seq<NodeId>),
    Literal(TaggedValue),
    Network(Type),
    Inline(InlineRust),
}

impl View for FlatInput {
    type V = FlatInputView;

    open spec fn view(&self) -> FlatInputView {
        match self {
            FlatInput::Producer(path) => FlatInputView::Producer(path@),
            FlatInput::Literal(v) => FlatInputView::Literal(*v),
            FlatInput::Network(ty) => FlatInputView::Network(*ty),
            FlatInput::Inline(inline) => FlatInputView::Inline(*inline),
        }
    }
}

impl Clone for FlatInput {
    fn clone(&self) -> (r: Self)
        ensures
            r@ == self@,
    {
        match self {
            FlatInput::Producer(path) => {
                let copy = path.clone();
                assert(copy@ =~= path@);
                FlatInput::Producer(copy)
            },
            FlatInput::Literal(v) => FlatInput::Literal(*v),
            FlatInput::Network(ty) => FlatInput::Network(ty.clone()),
            FlatInput::Inline(inline) => FlatInput::Inline(inline.clone()),
        }
    }
}

/// A node of a flattened network: a node realized by a constructor, known
/// by its author-level path, with its inputs resolved.
#[derive(Debug)]
pub struct FlatNode {
    pub path: Vec<NodeId>,
    pub identifier: NodeIdentifier,
    pub inputs: Vec<FlatInput>,
    pub skip_deduplication: bool,
}

/// The mathematical content of a [`FlatNode`].
pub ghost struct FlatNodeView {
    pub path: Seq<NodeId>,
    pub identifier: Seq<char>,
    pub inputs: Seq<FlatInputView>,
    pub skip_deduplication: bool,
}

impl View for FlatNode {
    type V = FlatNodeView;

    open spec fn view(&self) -> FlatNodeView {
        FlatNodeView {
            path: self.path@,
            identifier: self.identifier.name@,
            inputs: inputs_view(self.inputs@),
            skip_deduplication: self.skip_deduplication,
        }
    }
}

/// The content of a sequence of inputs.
pub open spec fn inputs_view(inputs: Seq<FlatInput>) -> Seq<FlatInputView> {
    inputs.map_values(|i: FlatInput| i@)
}

/// The content of a sequence of flat nodes.
pub open spec fn nodes_view(nodes: Seq<FlatNode>) -> Seq<FlatNodeView> {
    nodes.map_values(|n: FlatNode| n@)
}

/// The first position at or after `from` at which `nodes` holds a node with
/// the identifier `id`.
pub open spec fn position(nodes: Seq<(NodeId, DocumentNode)>, id: NodeId, from: int) -> Option<int>
    decreases nodes.len() - from,
{
    if from < 0 || from >= nodes.len() {
        None
    } else if nodes[from].0 == id {
        Some(from)
    } else {
        position(nodes, id, from + 1)
    }
}

/// The author-level path of the node that produces the output of the node
/// `dep` of `net`: the node itself where a constructor realizes it, and the
/// producer of the first designated output of its nested network otherwise.
/// `consumer` is the node that refers to `dep`.
pub open spec fn producer(net: NodeNetwork, prefix: Seq<NodeId>, consumer: NodeId, dep: NodeId)
    -> Result<Seq<NodeId>, CompileError>
    decreases net,
{
    match position(net.nodes@, dep, 0) {
        None => Err(CompileError::DanglingReference { node: consumer, reference: dep }),
        Some(i) => if 0 <= i < net.nodes@.len() {
            match net.nodes@[i].1.implementation {
                DocumentNodeImplementation::Unresolved(_) => Ok(prefix.push(dep)),
                DocumentNodeImplementation::Network(inner) => if inner.outputs@.len() == 0 {
                    Err(CompileError::NoOutput { node: dep })
                } else {
                    producer(inner, prefix.push(dep), dep, inner.outputs@[0].node_id)
                },
            }
        } else {
            Err(CompileError::DanglingReference { node: consumer, reference: dep })
        },
    }
}

/// The position of the occurrence of `id` in `inputs` that `skip` earlier
/// occurrences at or after `from` precede.
pub open spec fn occurrence(inputs: Seq<NodeId>, id: NodeId, skip: nat, from: int) -> Option<int>
    decreases inputs.len() - from,
{
    if from < 0 || from >= inputs.len() {
        None
    } else if inputs[from] == id {
        if skip == 0 {
            Some(from)
        } else {
            occurrence(inputs, id, (skip - 1) as nat, from + 1)
        }
    } else {
        occurrence(inputs, id, skip, from + 1)
    }
}

/// One input of the node `id` of `net`, resolved.
///
/// A reference becomes the path of its producer. A literal and a source
/// fragment stay. An input of the network stays where the network is the
/// outermost one (`env` is `None`); in a nested network it becomes what the
/// enclosing node supplies at the slot that names the node: the `nth` input
/// of the network that a node takes goes with the `nth` slot that names it.
pub open spec fn resolved_input(
    net: NodeNetwork,
    prefix: Seq<NodeId>,
    env: Option<Seq<FlatInputView>>,
    id: NodeId,
    input: NodeInput,
    nth: nat,
) -> Result<FlatInputView, CompileError> {
    match input {
        NodeInput::Node { node_id, .. } => match producer(net, prefix, id, node_id) {
            Ok(path) => Ok(FlatInputView::Producer(path)),
            Err(e) => Err(e),
        },
        NodeInput::Value { tagged_value, .. } => Ok(FlatInputView::Literal(tagged_value)),
        NodeInput::Inline(inline) => Ok(FlatInputView::Inline(inline)),
        NodeInput::Network(ty) => match env {
            None => Ok(FlatInputView::Network(ty)),
            Some(bindings) => match occurrence(net.inputs@, id, nth, 0) {
                Some(k) => if 0 <= k < bindings.len() {
                    Ok(bindings[k])
                } else {
                    Err(CompileError::UnboundInput { node: id })
                },
                None => Err(CompileError::UnboundInput { node: id }),
            },
        },
    }
}

/// The first `upto` inputs of the node `id` of `net`, resolved in order, or
/// the first failure.
pub open spec fn resolved_inputs(
    net: NodeNetwork,
    prefix: Seq<NodeId>,
    env: Option<Seq<FlatInputView>>,
    id: NodeId,
    inputs: Seq<NodeInput>,
    upto: int,
) -> Result<Seq<FlatInputView>, CompileError>
    decreases upto,
{
    if upto <= 0 || upto > inputs.len() {
        Ok(Seq::empty())
    } else {
        match resolved_inputs(net, prefix, env, id, inputs, upto - 1) {
            Err(e) => Err(e),
            Ok(rest) => match resolved_input(
                net,
                prefix,
                env,
                id,
                inputs[upto - 1],
                network_inputs_before(inputs, upto - 1),
            ) {
                Err(e) => Err(e),
                Ok(x) => Ok(rest.push(x)),
            },
        }
    }
}

/// The flat nodes of the nodes of `net` from position `from` on, in order,
/// or the first failure.
///
/// A node that a constructor realizes becomes one flat node, known by the
/// path `prefix` extended by its identifier. A node that a nested network
/// realizes becomes the flat nodes of that network, whose inputs are bound to
/// the resolved inputs of the node.
pub open spec fn flattened(
    net: NodeNetwork,
    prefix: Seq<NodeId>,
    env: Option<Seq<FlatInputView>>,
    from: int,
) -> Result<Seq<FlatNodeView>, CompileError>
    decreases net, net.nodes@.len() - from,
{
    if from < 0 || from >= net.nodes@.len() {
        Ok(Seq::empty())
    } else {
        let id = net.nodes@[from].0;
        let doc = net.nodes@[from].1;
        match resolved_inputs(net, prefix, env, id, doc.inputs@, doc.inputs@.len() as int) {
            Err(e) => Err(e),
            Ok(inputs) => {
                let head = match doc.implementation {
                    DocumentNodeImplementation::Unresolved(identifier) => Ok(
                        seq![
                            FlatNodeView {
                                path: prefix.push(id),
                                identifier: identifier.name@,
                                inputs,
                                skip_deduplication: doc.skip_deduplication,
                            },
                        ],
                    ),
                    DocumentNodeImplementation::Network(inner) => flattened(
                        inner,
                        prefix.push(id),
                        Some(inputs),
                        0,
                    ),
                };
                match head {
                    Err(e) => Err(e),
                    Ok(first) => match flattened(net, prefix, env, from + 1) {
                        Err(e) => Err(e),
                        Ok(rest) => Ok(first + rest),
                    },
                }
            },
        }
    }
}

fn find_node(nodes: &Vec<(NodeId, DocumentNode)>, id: NodeId) -> (r: Option<usize>)
    ensures
        match r {
            Some(i) => position(nodes@, id, 0) == Some(i as int) && i < nodes@.len(),
            None => position(nodes@, id, 0) is None,
        },
{
    let mut i: usize = 0;
    while i < nodes.len()
        invariant
            i <= nodes@.len(),
            position(nodes@, id, 0) == position(nodes@, id, i as int),
        decreases nodes.len() - i,
    {
        if nodes[i].0 == id {
            return Some(i);
        }
        i += 1;
    }
    None
}

fn find_occurrence(inputs: &Vec<NodeId>, id: NodeId, nth: usize) -> (r: Option<usize>)
    ensures
        match r {
            Some(k) => occurrence(inputs@, id, nth as nat, 0) == Some(k as int),
            None => occurrence(inputs@, id, nth as nat, 0) is None,
        },
{
    let mut skip = nth;
    let mut i: usize = 0;
    while i < inputs.len()
        invariant
            i <= inputs@.len(),
            occurrence(inputs@, id, nth as nat, 0) == occurrence(inputs@, id, skip as nat, i as int),
        decreases inputs.len() - i,
    {
        if inputs[i] == id {
            if skip == 0 {
                return Some(i);
            }
            skip -= 1;
        }
        i += 1;
    }
    None
}

fn extended(prefix: &Vec<NodeId>, id: NodeId) -> (r: Vec<NodeId>)
    ensures
        r@ == prefix@.push(id),
{
    let mut path = prefix.clone();
    assert(path@ =~= prefix@);
    path.push(id);
    path
}

/// The author-level path of the node that produces the output of the node
/// `dep` of `net`.
pub fn produced_by(net: &NodeNetwork, prefix: &Vec<NodeId>, consumer: NodeId, dep: NodeId) -> (r:
    Result<Vec<NodeId>, CompileError>)
    ensures
        match producer(*net, prefix@, consumer, dep) {
            Ok(path) => r is Ok && r->Ok_0@ == path,
            Err(e) => r == Err::<Vec<NodeId>, CompileError>(e),
        },
    decreases *net,
{
    match find_node(&net.nodes, dep) {
        None => Err(CompileError::DanglingReference { node: consumer, reference: dep }),
        Some(i) => match &net.nodes[i].1.implementation {
            DocumentNodeImplementation::Unresolved(_) => Ok(extended(prefix, dep)),
            DocumentNodeImplementation::Network(inner) => {
                if inner.outputs.len() == 0 {
                    Err(CompileError::NoOutput { node: dep })
                } else {
                    let path = extended(prefix, dep);
                    produced_by(inner, &path, dep, inner.outputs[0].node_id)
                }
            },
        },
    }
}

fn resolve_inputs(
    net: &NodeNetwork,
    prefix: &Vec<NodeId>,
    env: Option<&Vec<FlatInput>>,
    id: NodeId,
    inputs: &Vec<NodeInput>,
) -> (r: Result<Vec<FlatInput>, CompileError>)
    ensures
        match resolved_inputs(
            *net,
            prefix@,
            env_view(env),
            id,
            inputs@,
            inputs@.len() as int,
        ) {
            Ok(resolved) => r is Ok && inputs_view(r->Ok_0@) == resolved,
            Err(e) => r == Err::<Vec<FlatInput>, CompileError>(e),
        },
{
    let mut resolved: Vec<FlatInput> = Vec::new();
    let mut seen: usize = 0;
    let mut k: usize = 0;
    assert(inputs_view(resolved@) =~= Seq::<FlatInputView>::empty());
    while k < inputs.len()
        invariant
            k <= inputs@.len(),
            seen == network_inputs_before(inputs@, k as int),
            seen <= k,
            resolved_inputs(*net, prefix@, env_view(env), id, inputs@, k as int) == Ok::<
                Seq<FlatInputView>,
                CompileError,
            >(inputs_view(resolved@)),
        decreases inputs.len() - k,
    {
        let ghost before = inputs_view(resolved@);
        let next = match &inputs[k] {
            NodeInput::Node { node_id, .. } => match produced_by(net, prefix, id, *node_id) {
                Ok(path) => FlatInput::Producer(path),
                Err(e) => {
                    proof {
                        lemma_resolved_inputs_fail(
                            *net,
                            prefix@,
                            env_view(env),
                            id,
                            inputs@,
                            k + 1,
                            inputs@.len() as int,
                        );
                    }
                    return Err(e);
                },
            },
            NodeInput::Value { tagged_value, .. } => FlatInput::Literal(*tagged_value),
            NodeInput::Inline(inline) => FlatInput::Inline(inline.clone()),
            NodeInput::Network(ty) => match env {
                None => FlatInput::Network(ty.clone()),
                Some(bindings) => {
                    let slot = match find_occurrence(&net.inputs, id, seen) {
                        Some(slot) => if slot < bindings.len() {
                            Some(slot)
                        } else {
                            None
                        },
                        None => None,
                    };
                    match slot {
                        Some(slot) => {
                            let bound = bindings[slot].clone();
                            assert(env_view(env)->Some_0[slot as int] == bindings@[slot as int]@);
                            bound
                        },
                        None => {
                            proof {
                                lemma_resolved_inputs_fail(
                                    *net,
                                    prefix@,
                                    env_view(env),
                                    id,
                                    inputs@,
                                    k + 1,
                                    inputs@.len() as int,
                                );
                            }
                            return Err(CompileError::UnboundInput { node: id });
                        },
                    }
                },
            },
        };
        if inputs[k].is_network() {
            seen += 1;
        }
        resolved.push(next);
        assert(inputs_view(resolved@) =~= before.push(next@));
        k += 1;
    }
    Ok(resolved)
}

/// The content of the bindings of a nested network; the outermost network
/// has none.
pub open spec fn env_view(env: Option<&Vec<FlatInput>>) -> Option<Seq<FlatInputView>> {
    match env {
        Some(bindings) => Some(inputs_view(bindings@)),
        None => None,
    }
}

/// A failure among the first inputs is the failure of all of them.
proof fn lemma_resolved_inputs_fail(
    net: NodeNetwork,
    prefix: Seq<NodeId>,
    env: Option<Seq<FlatInputView>>,
    id: NodeId,
    inputs: Seq<NodeInput>,
    failed: int,
    upto: int,
)
    requires
        0 < failed <= upto <= inputs.len(),
        resolved_inputs(net, prefix, env, id, inputs, failed) is Err,
    ensures
        resolved_inputs(net, prefix, env, id, inputs, upto) == resolved_inputs(
            net,
            prefix,
            env,
            id,
            inputs,
            failed,
        ),
    decreases upto - failed,
{
    if failed < upto {
        lemma_resolved_inputs_fail(net, prefix, env, id, inputs, failed, upto - 1);
    }
}

/// Appends the flat nodes of `net` to `out`.
fn flatten_into(
    net: &NodeNetwork,
    prefix: &Vec<NodeId>,
    env: Option<&Vec<FlatInput>>,
    out: &mut Vec<FlatNode>,
) -> (r: Result<(), CompileError>)
    ensures
        match flattened(*net, prefix@, env_view(env), 0) {
            Ok(nodes) => r is Ok && nodes_view(final(out)@) == nodes_view(old(out)@) + nodes,
            Err(e) => r == Err::<(), CompileError>(e),
        },
    decreases *net,
{
    let ghost start = nodes_view(out@);
    let ghost added = Seq::<FlatNodeView>::empty();
    let mut k: usize = 0;
    assert(start + added =~= start);
    while k < net.nodes.len()
        invariant
            k <= net.nodes@.len(),
            start == nodes_view(old(out)@),
            nodes_view(out@) == start + added,
            match flattened(*net, prefix@, env_view(env), k as int) {
                Ok(rest) => flattened(*net, prefix@, env_view(env), 0) == Ok::<
                    Seq<FlatNodeView>,
                    CompileError,
                >(added + rest),
                Err(e) => flattened(*net, prefix@, env_view(env), 0) == Err::<
                    Seq<FlatNodeView>,
                    CompileError,
                >(e),
            },
        decreases net.nodes.len() - k,
    {
        let id = net.nodes[k].0;
        let doc = &net.nodes[k].1;
        let inputs = match resolve_inputs(net, prefix, env, id, &doc.inputs) {
            Ok(inputs) => inputs,
            Err(e) => {
                return Err(e);
            },
        };
        let ghost before = nodes_view(out@);
        let ghost first;
        match &doc.implementation {
            DocumentNodeImplementation::Unresolved(identifier) => {
                let node = FlatNode {
                    path: extended(prefix, id),
                    identifier: identifier.clone(),
                    inputs,
                    skip_deduplication: doc.skip_deduplication,
                };
                proof {
                    first = seq![node@];
                }
                out.push(node);
                assert(nodes_view(out@) =~= before + first);
            },
            DocumentNodeImplementation::Network(inner) => {
                let path = extended(prefix, id);
                match flatten_into(inner, &path, Some(&inputs), out) {
                    Ok(()) => {
                        proof {
                            first = flattened(*inner, path@, Some(inputs_view(inputs@)), 0)->Ok_0;
                        }
                    },
                    Err(e) => {
                        return Err(e);
                    },
                }
            },
        }
        proof {
            let grown = added + first;
            assert(start + grown =~= nodes_view(out@));
            let here = flattened(*net, prefix@, env_view(env), k as int);
            let later = flattened(*net, prefix@, env_view(env), k + 1);
            assert(here == match later {
                Err(e) => Err::<Seq<FlatNodeView>, CompileError>(e),
                Ok(rest) => Ok(first + rest),
            });
            match later {
                Ok(rest) => {
                    assert(added + (first + rest) =~= grown + rest);
                },
                Err(_) => {},
            }
            added = grown;
        }
        k += 1;
    }
    proof {
        assert(added + Seq::<FlatNodeView>::empty() =~= added);
    }
    Ok(())
}

/// Inlines the nested networks of `network` and resolves every reference:
/// the flat nodes in the order in which the network lists them, a nested
/// network in place of the node it realizes.
pub fn flatten(network: &NodeNetwork) -> (r: Result<Vec<FlatNode>, CompileError>)
    ensures
        match flattened(*network, Seq::empty(), None, 0) {
            Ok(nodes) => r is Ok && nodes_view(r->Ok_0@) == nodes,
            Err(e) => r == Err::<Vec<FlatNode>, CompileError>(e),
        },
{
    let mut out: Vec<FlatNode> = Vec::new();
    let prefix: Vec<NodeId> = Vec::new();
    assert(nodes_view(out@) =~= Seq::<FlatNodeView>::empty());
    match flatten_into(network, &prefix, None, &mut out) {
        Ok(()) => {
            assert(Seq::<FlatNodeView>::empty() + flattened(
                *network,
                Seq::empty(),
                None,
                0,
            )->Ok_0 =~= flattened(*network, Seq::empty(), None, 0)->Ok_0);
            Ok(out)
        },
        Err(e) => Err(e),
    }
}

} // verus!
