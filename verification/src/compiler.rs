//! The compiler: a network as an author writes it becomes a construction
//! plan.
//!
//! Nested networks are inlined, every reference is rewritten to the
//! instruction that produces the value, the instructions are put in
//! construction order, and each gets a stable identifier: the hash of a key
//! made of its author-level path, its constructor and its arguments. A node
//! that is unchanged across two compilations keeps its identifier; a node
//! whose arguments change gets another.

use vstd::prelude::*;
use crate::document::{NodeNetwork, NodeOutput};
use crate::flatten::{
    flatten, flattened, nodes_view, producer, CompileError, FlatInput, FlatInputView, FlatNode,
    FlatNodeView,
};
use crate::plan::{finished, PlanBuilder, PlanBuilderView};
use crate::proto::{
    ConstructionArgs, ConstructionArgsView, NodeIdentifier, ProtoNetwork, ProtoNetworkView,
    ProtoNode, ProtoNodeInput, ProtoNodeView,
};
use crate::schedule::{
    index_of, last_of, leaf, link, linked, links_view, none_placed, schedule, scheduled,
};
use crate::stable_id::{id_of, id_words, push_ids, push_text, stable_id, text_words};
use crate::value::TaggedValue;
use crate::NodeId;

verus! {

/// The identifier of the constructor of constants.
pub const VALUE_NODE: &'static str = "graphene_core::value::ValueNode";

/// The words that stand for a value in a key: a tag and the value.
pub open spec fn value_words(v: TaggedValue) -> Seq<u64> {
    match v {
        TaggedValue::Unit => seq![0u64],
        TaggedValue::Bool(b) => seq![
            1u64,
            if b {
                1u64
            } else {
                0u64
            },
        ],
        TaggedValue::U32(x) => seq![2u64, x as u64],
        TaggedValue::U64(x) => seq![3u64, x],
        TaggedValue::Color(c) => seq![4u64, c.r as u64, c.g as u64, c.b as u64, c.a as u64],
        TaggedValue::Pair(a, b) => seq![5u64, a as u64, b as u64],
    }
}

/// The key of the constant that the input at `position` of the node with
/// the given path is made into.
pub open spec fn value_key(path: Seq<NodeId>, position: int, v: TaggedValue) -> Seq<u64> {
    seq![2u64] + id_words(path) + seq![position as u64] + value_words(v)
}

/// The words that stand for the arguments of an instruction in its key.
pub open spec fn args_words(args: ConstructionArgsView) -> Seq<u64> {
    match args {
        ConstructionArgsView::Nodes(list) => seq![0u64] + id_words(
            list.map_values(|p: (NodeId, bool)| p.0),
        ),
        ConstructionArgsView::Inline(inline) => seq![1u64] + text_words(inline.expr@),
        ConstructionArgsView::Value(v) => seq![2u64] + value_words(v),
    }
}

/// The key of an instruction: its author-level path, the identifier of its
/// constructor, its arguments, and whether it takes an input of the network.
pub open spec fn node_key(
    path: Seq<NodeId>,
    identifier: Seq<char>,
    args: ConstructionArgsView,
    takes_input: bool,
) -> Seq<u64> {
    seq![1u64] + id_words(path) + text_words(identifier) + args_words(args) + seq![
        if takes_input {
            1u64
        } else {
            0u64
        },
    ]
}

/// The instruction that a literal input of the node with the given path is
/// made into.
pub open spec fn value_node(v: TaggedValue, path: Seq<NodeId>) -> ProtoNodeView {
    ProtoNodeView {
        construction_args: ConstructionArgsView::Value(v),
        input: ProtoNodeInput::Nothing,
        identifier: VALUE_NODE@,
        document_node_path: path,
        skip_deduplication: false,
    }
}

/// What the inputs of a node have been made into: the plan with the
/// constants of its literal inputs appended, the dependencies of the node,
/// and the input of the network it takes.
pub ghost struct Collected {
    pub plan: PlanBuilderView,
    pub args: Seq<(NodeId, bool)>,
    pub input: ProtoNodeInput,
}

/// The first `upto` inputs of a node, made into its arguments.
///
/// A reference becomes a dependency on the instruction of its producer. A
/// literal becomes a constant of its own, appended to the plan, and a
/// dependency on it. An input of the network becomes the input of the
/// instruction; a node takes at most one. A source fragment beside other
/// inputs is refused.
pub open spec fn collected(
    node: FlatNodeView,
    row: Seq<Option<usize>>,
    ids: Seq<NodeId>,
    plan: PlanBuilderView,
    upto: int,
) -> Result<Collected, CompileError>
    decreases upto,
{
    if upto <= 0 || upto > node.inputs.len() || upto > row.len() {
        Ok(Collected { plan, args: Seq::empty(), input: ProtoNodeInput::Nothing })
    } else {
        match collected(node, row, ids, plan, upto - 1) {
            Err(e) => Err(e),
            Ok(c) => match node.inputs[upto - 1] {
                FlatInputView::Producer(path) => match row[upto - 1] {
                    Some(j) => if j < ids.len() {
                        Ok(Collected { args: c.args.push((ids[j as int], false)), ..c })
                    } else {
                        Err(
                            CompileError::DanglingReference {
                                node: leaf(node.path),
                                reference: leaf(path),
                            },
                        )
                    },
                    None => Err(
                        CompileError::DanglingReference {
                            node: leaf(node.path),
                            reference: leaf(path),
                        },
                    ),
                },
                FlatInputView::Literal(v) => {
                    let id = id_of(value_key(node.path, upto - 1, v));
                    match c.plan.pushed(id, value_node(v, node.path), leaf(node.path)) {
                        Err(e) => Err(e),
                        Ok(plan) => Ok(Collected { plan, args: c.args.push((id, false)), ..c }),
                    }
                },
                FlatInputView::Network(ty) => if c.input is Network {
                    Err(CompileError::TooManyInputs { node: leaf(node.path) })
                } else {
                    Ok(Collected { input: ProtoNodeInput::Network(ty), ..c })
                },
                FlatInputView::Inline(_) => Err(
                    CompileError::InlineMisplaced { node: leaf(node.path) },
                ),
            },
        }
    }
}

/// The state of building a plan: the identifier of each flat node that has
/// been made into an instruction, by its position among the flat nodes, and
/// the plan so far.
pub ghost struct Built {
    pub ids: Seq<NodeId>,
    pub plan: PlanBuilderView,
}

/// The instruction of a flat node.
pub open spec fn instruction(
    node: FlatNodeView,
    args: ConstructionArgsView,
    input: ProtoNodeInput,
) -> ProtoNodeView {
    ProtoNodeView {
        construction_args: args,
        input,
        identifier: node.identifier,
        document_node_path: node.path,
        skip_deduplication: node.skip_deduplication,
    }
}

/// The state after the flat node at position `i` has been made into an
/// instruction and appended to the plan.
///
/// A node whose only input is a source fragment carries the fragment. Any
/// other node depends on what its inputs have been made into. The identifier
/// of the instruction is the hash of its key.
pub open spec fn placed(
    flat: Seq<FlatNodeView>,
    links: Seq<Seq<Option<usize>>>,
    state: Built,
    i: int,
) -> Result<Built, CompileError> {
    let node = flat[i];
    if node.inputs.len() == 1 && node.inputs[0] is Inline {
        let args = ConstructionArgsView::Inline(node.inputs[0]->Inline_0);
        let id = id_of(node_key(node.path, node.identifier, args, false));
        match state.plan.pushed(
            id,
            instruction(node, args, ProtoNodeInput::Nothing),
            leaf(node.path),
        ) {
            Err(e) => Err(e),
            Ok(plan) => Ok(Built { ids: state.ids.update(i, id), plan }),
        }
    } else {
        match collected(node, links[i], state.ids, state.plan, node.inputs.len() as int) {
            Err(e) => Err(e),
            Ok(c) => {
                let args = ConstructionArgsView::Nodes(c.args);
                let id = id_of(node_key(node.path, node.identifier, args, c.input is Network));
                match c.plan.pushed(id, instruction(node, args, c.input), leaf(node.path)) {
                    Err(e) => Err(e),
                    Ok(plan) => Ok(Built { ids: state.ids.update(i, id), plan }),
                }
            },
        }
    }
}

/// The state in which none of `n` flat nodes has an identifier yet.
pub open spec fn nothing_built(n: nat) -> Built {
    Built { ids: Seq::new(n, |i: int| 0u64), plan: PlanBuilderView::empty() }
}

/// The state after the first `upto` nodes of `order` have been made into
/// instructions, or the first failure.
pub open spec fn built(
    flat: Seq<FlatNodeView>,
    links: Seq<Seq<Option<usize>>>,
    order: Seq<usize>,
    upto: int,
) -> Result<Built, CompileError>
    decreases upto,
{
    if upto <= 0 || upto > order.len() {
        Ok(nothing_built(flat.len()))
    } else {
        match built(flat, links, order, upto - 1) {
            Err(e) => Err(e),
            Ok(state) => placed(flat, links, state, order[upto - 1] as int),
        }
    }
}

/// The plan that `network` compiles to for one of its designated outputs,
/// or the first failure: of flattening, of linking, of ordering, of building
/// the instructions, or of finding the instruction that produces the output.
pub open spec fn compiled(network: NodeNetwork, output: NodeOutput) -> Result<
    ProtoNetworkView,
    CompileError,
> {
    match flattened(network, Seq::empty(), None, 0) {
        Err(e) => Err(e),
        Ok(flat) => match linked(flat, flat.len() as int) {
            Err(e) => Err(e),
            Ok(links) => match scheduled(links, none_placed(flat.len()), flat.len()) {
                Err(stuck) => Err(CompileError::Cycle { node: leaf(flat[stuck as int].path) }),
                Ok(order) => match built(flat, links, order, order.len() as int) {
                    Err(e) => Err(e),
                    Ok(state) => match producer(
                        network,
                        Seq::empty(),
                        output.node_id,
                        output.node_id,
                    ) {
                        Err(e) => Err(e),
                        Ok(path) => match index_of(flat, path, 0) {
                            None => Err(
                                CompileError::DanglingReference {
                                    node: output.node_id,
                                    reference: leaf(path),
                                },
                            ),
                            Some(j) => finished(state.plan, state.ids[j], output.node_id),
                        },
                    },
                },
            },
        },
    }
}

fn push_value(key: &mut Vec<u64>, v: TaggedValue)
    ensures
        final(key)@ == old(key)@ + value_words(v),
{
    let ghost before = key@;
    match v {
        TaggedValue::Unit => {
            key.push(0);
        },
        TaggedValue::Bool(b) => {
            key.push(1);
            key.push(
                if b {
                    1
                } else {
                    0
                },
            );
        },
        TaggedValue::U32(x) => {
            key.push(2);
            key.push(x as u64);
        },
        TaggedValue::U64(x) => {
            key.push(3);
            key.push(x);
        },
        TaggedValue::Color(c) => {
            key.push(4);
            key.push(c.r as u64);
            key.push(c.g as u64);
            key.push(c.b as u64);
            key.push(c.a as u64);
        },
        TaggedValue::Pair(a, b) => {
            key.push(5);
            key.push(a as u64);
            key.push(b as u64);
        },
    }
    assert(key@ =~= before + value_words(v));
}

/// The identifier of the constant that the input at `position` of the node
/// with the given path is made into.
pub fn value_id(path: &Vec<NodeId>, position: usize, v: TaggedValue) -> (id: NodeId)
    ensures
        id == id_of(value_key(path@, position as int, v)),
{
    let mut key: Vec<u64> = Vec::new();
    key.push(2);
    push_ids(&mut key, path.as_slice());
    key.push(position as u64);
    push_value(&mut key, v);
    assert(key@ =~= value_key(path@, position as int, v));
    stable_id(&key)
}

fn dependency_ids(args: &Vec<(NodeId, bool)>) -> (ids: Vec<NodeId>)
    ensures
        ids@ == args@.map_values(|p: (NodeId, bool)| p.0),
{
    let mut ids: Vec<NodeId> = Vec::new();
    let mut i: usize = 0;
    while i < args.len()
        invariant
            i <= args@.len(),
            ids@ == args@.map_values(|p: (NodeId, bool)| p.0).take(i as int),
        decreases args.len() - i,
    {
        ids.push(args[i].0);
        assert(ids@ =~= args@.map_values(|p: (NodeId, bool)| p.0).take(i + 1));
        i += 1;
    }
    assert(args@.map_values(|p: (NodeId, bool)| p.0).take(args@.len() as int) =~= args@.map_values(
        |p: (NodeId, bool)| p.0,
    ));
    ids
}

/// The identifier of an instruction.
pub fn node_id(
    path: &Vec<NodeId>,
    identifier: &NodeIdentifier,
    args: &ConstructionArgs,
    takes_input: bool,
) -> (id: NodeId)
    ensures
        id == id_of(node_key(path@, identifier.name@, args@, takes_input)),
{
    let mut key: Vec<u64> = Vec::new();
    key.push(1);
    push_ids(&mut key, path.as_slice());
    push_text(&mut key, identifier.name.as_str());
    match args {
        ConstructionArgs::Nodes(list) => {
            key.push(0);
            let ids = dependency_ids(list);
            push_ids(&mut key, ids.as_slice());
        },
        ConstructionArgs::Inline(inline) => {
            key.push(1);
            push_text(&mut key, inline.expr.as_str());
        },
        ConstructionArgs::Value(v) => {
            key.push(2);
            push_value(&mut key, *v);
        },
    }
    key.push(
        if takes_input {
            1
        } else {
            0
        },
    );
    assert(key@ =~= node_key(path@, identifier.name@, args@, takes_input));
    stable_id(&key)
}

/// A failure among the first inputs is the failure of all of them.
proof fn lemma_collected_fail(
    node: FlatNodeView,
    row: Seq<Option<usize>>,
    ids: Seq<NodeId>,
    plan: PlanBuilderView,
    failed: int,
    upto: int,
)
    requires
        0 < failed <= upto <= node.inputs.len(),
        upto <= row.len(),
        collected(node, row, ids, plan, failed) is Err,
    ensures
        collected(node, row, ids, plan, upto) == collected(node, row, ids, plan, failed),
    decreases upto - failed,
{
    if failed < upto {
        lemma_collected_fail(node, row, ids, plan, failed, upto - 1);
    }
}

/// A failure among the first nodes is the failure of all of them.
proof fn lemma_built_fail(
    flat: Seq<FlatNodeView>,
    links: Seq<Seq<Option<usize>>>,
    order: Seq<usize>,
    failed: int,
    upto: int,
)
    requires
        0 < failed <= upto <= order.len(),
        built(flat, links, order, failed) is Err,
    ensures
        built(flat, links, order, upto) == built(flat, links, order, failed),
    decreases upto - failed,
{
    if failed < upto {
        lemma_built_fail(flat, links, order, failed, upto - 1);
    }
}

fn copy_path(path: &Vec<NodeId>) -> (r: Vec<NodeId>)
    ensures
        r@ == path@,
{
    let r = path.clone();
    assert(r@ =~= path@);
    r
}

/// Makes the inputs of a node into its arguments and appends the constants
/// of its literal inputs to the plan.
fn collect(node: &FlatNode, row: &Vec<Option<usize>>, ids: &Vec<NodeId>, plan: &mut PlanBuilder)
    -> (r: Result<(Vec<(NodeId, bool)>, ProtoNodeInput), CompileError>)
    requires
        old(plan)@.wf(),
        row@.len() == node.inputs@.len(),
    ensures
        final(plan)@.wf(),
        match collected(node@, row@, ids@, old(plan)@, node.inputs@.len() as int) {
            Ok(c) => r is Ok && final(plan)@ == c.plan && r->Ok_0.0@ == c.args && r->Ok_0.1
                == c.input,
            Err(e) => r == Err::<(Vec<(NodeId, bool)>, ProtoNodeInput), CompileError>(e),
        },
{
    let culprit = last_of(&node.path);
    let mut args: Vec<(NodeId, bool)> = Vec::new();
    let mut input = ProtoNodeInput::Nothing;
    let mut k: usize = 0;
    while k < node.inputs.len()
        invariant
            k <= node.inputs@.len(),
            row@.len() == node.inputs@.len(),
            node@.inputs.len() == node.inputs@.len(),
            culprit == leaf(node@.path),
            plan@.wf(),
            collected(node@, row@, ids@, old(plan)@, k as int) == Ok::<Collected, CompileError>(
                Collected { plan: plan@, args: args@, input },
            ),
        decreases node.inputs.len() - k,
    {
        assert(node@.inputs[k as int] == node.inputs@[k as int]@);
        let ghost before = args@;
        match &node.inputs[k] {
            FlatInput::Producer(path) => {
                let linked_to = match row[k] {
                    Some(j) => if j < ids.len() {
                        Some(ids[j])
                    } else {
                        None
                    },
                    None => None,
                };
                match linked_to {
                    Some(id) => {
                        args.push((id, false));
                    },
                    None => {
                        proof {
                            lemma_collected_fail(
                                node@,
                                row@,
                                ids@,
                                old(plan)@,
                                k + 1,
                                node.inputs@.len() as int,
                            );
                        }
                        return Err(
                            CompileError::DanglingReference {
                                node: culprit,
                                reference: last_of(path),
                            },
                        );
                    },
                }
            },
            FlatInput::Literal(v) => {
                let id = value_id(&node.path, k, *v);
                let constant = ProtoNode::value(
                    ConstructionArgs::Value(*v),
                    copy_path(&node.path),
                );
                assert(constant@ == value_node(*v, node@.path));
                match plan.push(id, constant, culprit) {
                    Ok(()) => {
                        args.push((id, false));
                    },
                    Err(e) => {
                        proof {
                            lemma_collected_fail(
                                node@,
                                row@,
                                ids@,
                                old(plan)@,
                                k + 1,
                                node.inputs@.len() as int,
                            );
                        }
                        return Err(e);
                    },
                }
            },
            FlatInput::Network(ty) => {
                if input.is_network() {
                    proof {
                        lemma_collected_fail(
                            node@,
                            row@,
                            ids@,
                            old(plan)@,
                            k + 1,
                            node.inputs@.len() as int,
                        );
                    }
                    return Err(CompileError::TooManyInputs { node: culprit });
                }
                input = ProtoNodeInput::Network(ty.clone());
            },
            FlatInput::Inline(_) => {
                proof {
                    lemma_collected_fail(
                        node@,
                        row@,
                        ids@,
                        old(plan)@,
                        k + 1,
                        node.inputs@.len() as int,
                    );
                }
                return Err(CompileError::InlineMisplaced { node: culprit });
            },
        }
        k += 1;
    }
    Ok((args, input))
}

/// Makes a flat node into an instruction and appends it to the plan.
fn place(
    flat: &Vec<FlatNode>,
    links: &Vec<Vec<Option<usize>>>,
    ids: &mut Vec<NodeId>,
    plan: &mut PlanBuilder,
    i: usize,
) -> (r: Result<(), CompileError>)
    requires
        old(plan)@.wf(),
        i < flat@.len(),
        old(ids)@.len() == flat@.len(),
        links@.len() == flat@.len(),
        links@[i as int]@.len() == flat@[i as int].inputs@.len(),
    ensures
        final(plan)@.wf(),
        final(ids)@.len() == flat@.len(),
        match placed(
            nodes_view(flat@),
            links_view(links@),
            Built { ids: old(ids)@, plan: old(plan)@ },
            i as int,
        ) {
            Ok(state) => r is Ok && final(ids)@ == state.ids && final(plan)@ == state.plan,
            Err(e) => r == Err::<(), CompileError>(e),
        },
{
    let node = &flat[i];
    assert(nodes_view(flat@)[i as int] == node@);
    assert(links_view(links@)[i as int] == links@[i as int]@);
    assert(node@.inputs.len() == node.inputs@.len());
    assert(node.inputs@.len() >= 1 ==> node@.inputs[0] == node.inputs@[0]@);
    let culprit = last_of(&node.path);
    let (args, input) = match sole_fragment(node) {
        Some(fragment) => (ConstructionArgs::Inline(fragment), ProtoNodeInput::Nothing),
        None => match collect(node, &links[i], ids, plan) {
            Ok((list, input)) => (ConstructionArgs::Nodes(list), input),
            Err(e) => {
                return Err(e);
            },
        },
    };
    let id = node_id(&node.path, &node.identifier, &args, input.is_network());
    let proto = ProtoNode {
        construction_args: args,
        input,
        identifier: node.identifier.clone(),
        document_node_path: copy_path(&node.path),
        skip_deduplication: node.skip_deduplication,
    };
    match plan.push(id, proto, culprit) {
        Ok(()) => {
            ids[i] = id;
            Ok(())
        },
        Err(e) => Err(e),
    }
}

/// The source fragment of a node whose only input is one.
fn sole_fragment(node: &FlatNode) -> (r: Option<crate::proto::InlineRust>)
    ensures
        r is Some <==> node.inputs@.len() == 1 && node.inputs@[0] is Inline,
        r is Some ==> r->Some_0 == node.inputs@[0]->Inline_0,
{
    if node.inputs.len() != 1 {
        return None;
    }
    match &node.inputs[0] {
        FlatInput::Inline(inline) => Some(inline.clone()),
        _ => None,
    }
}

/// Compiles `network` for one of its designated outputs.
///
/// The plan holds an instruction for every node of the network that a
/// constructor realizes, nested ones included, and a constant for every
/// literal input, in construction order. Its invariant holds: no identifier
/// occurs twice, every dependency precedes its dependent, and the output is
/// one of its instructions.
pub fn compile_output(network: &NodeNetwork, output: NodeOutput) -> (r: Result<
    ProtoNetwork,
    CompileError,
>)
    ensures
        match compiled(*network, output) {
            Ok(plan) => r is Ok && r->Ok_0@ == plan && plan.well_formed(),
            Err(e) => r == Err::<ProtoNetwork, CompileError>(e),
        },
{
    let flat = match flatten(network) {
        Ok(flat) => flat,
        Err(e) => {
            return Err(e);
        },
    };
    let ghost nodes = nodes_view(flat@);
    let links = match link(&flat) {
        Ok(links) => links,
        Err(e) => {
            return Err(e);
        },
    };
    let ghost table = links_view(links@);
    let order = match schedule(&links) {
        Ok(order) => order,
        Err(stuck) => {
            let culprit = if stuck < flat.len() {
                last_of(&flat[stuck].path)
            } else {
                0
            };
            proof {
                lemma_stuck_in_range(table, none_placed(flat@.len()), flat@.len());
                assert(nodes[stuck as int] == flat@[stuck as int]@);
            }
            return Err(CompileError::Cycle { node: culprit });
        },
    };
    let mut ids: Vec<NodeId> = Vec::new();
    let mut i: usize = 0;
    while i < flat.len()
        invariant
            i <= flat@.len(),
            ids@.len() == i,
            forall|a: int| 0 <= a < i ==> #[trigger] ids@[a] == 0,
        decreases flat.len() - i,
    {
        ids.push(0);
        i += 1;
    }
    assert(ids@ =~= nothing_built(flat@.len()).ids);
    let mut plan = PlanBuilder::new();
    let mut p: usize = 0;
    while p < order.len()
        invariant
            p <= order@.len(),
            order@.len() == flat@.len(),
            nodes == nodes_view(flat@),
            table == links_view(links@),
            flattened(*network, Seq::empty(), None, 0) == Ok::<Seq<FlatNodeView>, CompileError>(
                nodes,
            ),
            linked(nodes, nodes.len() as int) == Ok::<Seq<Seq<Option<usize>>>, CompileError>(
                table,
            ),
            scheduled(table, none_placed(nodes.len()), nodes.len()) == Ok::<Seq<usize>, usize>(
                order@,
            ),
            links@.len() == flat@.len(),
            forall|q: int| 0 <= q < order@.len() ==> (#[trigger] order@[q]) < flat@.len(),
            forall|a: int| 0 <= a < table.len() ==> (#[trigger] table[a]).len() == flat@[a].inputs@.len(),
            ids@.len() == flat@.len(),
            plan@.wf(),
            built(nodes, table, order@, p as int) == Ok::<Built, CompileError>(
                Built { ids: ids@, plan: plan@ },
            ),
        decreases order.len() - p,
    {
        let i = order[p];
        assert(table[i as int] == links@[i as int]@);
        let ghost state = Built { ids: ids@, plan: plan@ };
        assert(built(nodes, table, order@, p + 1) == placed(nodes, table, state, i as int));
        match place(&flat, &links, &mut ids, &mut plan, i) {
            Ok(()) => {},
            Err(e) => {
                proof {
                    lemma_built_fail(nodes, table, order@, p + 1, order@.len() as int);
                }
                return Err(e);
            },
        }
        p += 1;
    }
    let empty: Vec<NodeId> = Vec::new();
    let path = match crate::flatten::produced_by(network, &empty, output.node_id, output.node_id) {
        Ok(path) => path,
        Err(e) => {
            return Err(e);
        },
    };
    let j = match crate::schedule::position_of(&flat, &path) {
        Some(j) => j,
        None => {
            return Err(
                CompileError::DanglingReference {
                    node: output.node_id,
                    reference: last_of(&path),
                },
            );
        },
    };
    plan.finish(ids[j], output.node_id)
}

/// Where scheduling gets stuck, the node it reports is one of the nodes.
proof fn lemma_stuck_in_range(links: Seq<Seq<Option<usize>>>, placed: Seq<bool>, rounds: nat)
    requires
        scheduled(links, placed, rounds) is Err,
    ensures
        placed.len() > 0 ==> scheduled(links, placed, rounds)->Err_0 < placed.len(),
    decreases rounds,
{
    if rounds > 0 {
        match crate::schedule::first_ready(links, placed, 0) {
            None => {
                lemma_waiting_in_range(placed, 0);
            },
            Some(i) => {
                lemma_ready_in_range(links, placed, 0);
                lemma_stuck_in_range(links, placed.update(i, true), (rounds - 1) as nat);
            },
        }
    }
}

proof fn lemma_waiting_in_range(placed: Seq<bool>, from: int)
    requires
        0 <= from,
    ensures
        match crate::schedule::first_waiting(placed, from) {
            Some(i) => from <= i < placed.len(),
            None => true,
        },
    decreases placed.len() - from,
{
    if from < placed.len() && placed[from] {
        lemma_waiting_in_range(placed, from + 1);
    }
}

proof fn lemma_ready_in_range(links: Seq<Seq<Option<usize>>>, placed: Seq<bool>, from: int)
    requires
        0 <= from,
    ensures
        match crate::schedule::first_ready(links, placed, from) {
            Some(i) => from <= i < placed.len() && i < links.len(),
            None => true,
        },
    decreases links.len() - from,
{
    if from < links.len() && from < placed.len() && !(!placed[from]
        && crate::schedule::producers_placed(links, placed, from)) {
        lemma_ready_in_range(links, placed, from + 1);
    }
}

/// Compiles `network`: one plan for each of its designated outputs, in
/// order. Fails with the first failure of any of them.
pub fn compile(network: &NodeNetwork) -> (r: Result<Vec<ProtoNetwork>, CompileError>)
    ensures
        match compiled_all(*network, network.outputs@.len() as int) {
            Ok(plans) => r is Ok && plans_view(r->Ok_0@) == plans && forall|o: int|
                0 <= o < plans.len() ==> (#[trigger] plans[o]).well_formed(),
            Err(e) => r == Err::<Vec<ProtoNetwork>, CompileError>(e),
        },
{
    let mut plans: Vec<ProtoNetwork> = Vec::new();
    let mut o: usize = 0;
    assert(plans_view(plans@) =~= Seq::<ProtoNetworkView>::empty());
    while o < network.outputs.len()
        invariant
            o <= network.outputs@.len(),
            compiled_all(*network, o as int) == Ok::<Seq<ProtoNetworkView>, CompileError>(
                plans_view(plans@),
            ),
            forall|a: int| 0 <= a < plans@.len() ==> (#[trigger] plans_view(plans@)[a]).well_formed(),
        decreases network.outputs.len() - o,
    {
        let ghost before = plans_view(plans@);
        match compile_output(network, network.outputs[o]) {
            Ok(plan) => {
                plans.push(plan);
                assert(plans_view(plans@) =~= before.push(plan@));
            },
            Err(e) => {
                proof {
                    lemma_compiled_all_fail(*network, o + 1, network.outputs@.len() as int);
                }
                return Err(e);
            },
        }
        o += 1;
    }
    Ok(plans)
}

/// The content of a sequence of plans.
pub open spec fn plans_view(plans: Seq<ProtoNetwork>) -> Seq<ProtoNetworkView> {
    plans.map_values(|p: ProtoNetwork| p@)
}

/// The plans of the first `upto` designated outputs of `network`, or the
/// first failure.
pub open spec fn compiled_all(network: NodeNetwork, upto: int) -> Result<
    Seq<ProtoNetworkView>,
    CompileError,
>
    decreases upto,
{
    if upto <= 0 || upto > network.outputs@.len() {
        Ok(Seq::empty())
    } else {
        match compiled_all(network, upto - 1) {
            Err(e) => Err(e),
            Ok(rest) => match compiled(network, network.outputs@[upto - 1]) {
                Err(e) => Err(e),
                Ok(plan) => Ok(rest.push(plan)),
            },
        }
    }
}

/// A failure among the first outputs is the failure of all of them.
proof fn lemma_compiled_all_fail(network: NodeNetwork, failed: int, upto: int)
    requires
        0 < failed <= upto <= network.outputs@.len(),
        compiled_all(network, failed) is Err,
    ensures
        compiled_all(network, upto) == compiled_all(network, failed),
    decreases upto - failed,
{
    if failed < upto {
        lemma_compiled_all_fail(network, failed, upto - 1);
    }
}

/// Compiles a network that designates exactly one output.
pub fn compile_single(network: &NodeNetwork) -> (r: Result<ProtoNetwork, CompileError>)
    ensures
        match compiled_single(*network) {
            Ok(plan) => r is Ok && r->Ok_0@ == plan && plan.well_formed(),
            Err(e) => r == Err::<ProtoNetwork, CompileError>(e),
        },
{
    if network.outputs.len() != 1 {
        return Err(CompileError::OutputCount { found: network.outputs.len() });
    }
    compile_output(network, network.outputs[0])
}

/// The plan of a network that designates exactly one output.
pub open spec fn compiled_single(network: NodeNetwork) -> Result<ProtoNetworkView, CompileError> {
    if network.outputs@.len() != 1 {
        Err(CompileError::OutputCount { found: network.outputs@.len() as usize })
    } else {
        compiled(network, network.outputs@[0])
    }
}

} // verus!
