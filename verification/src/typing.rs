//! The typing context: the record of each node's resolved types and chosen
//! constructor, built by walking a construction plan in order.

use std::collections::HashMap;
use vstd::prelude::*;
use vstd::std_specs::hash::*;
use crate::proto::{
    ConstructionArgs, ConstructionArgsView, NodeConstructor, ProtoNetwork, ProtoNode,
    ProtoNodeInput, ProtoNodeView,
};
use crate::registry::{lemma_resolution_accepts, NodeIOTypes, NodeIOTypesView, NodeRegistry};
use crate::types::Type;
use crate::NodeId;

verus! {

broadcast use group_hash_axioms;

/// Why a node could not be typed. Every variant names the offending node.
#[derive(Debug, PartialEq)]
pub enum TypeError {
    /// The node refers to a node that has not been typed before it.
    MissingDependency { node: NodeId, dependency: NodeId },
    /// No constructor is registered under the node's identifier.
    UnknownIdentifier { node: NodeId },
    /// The node's input is a bare type parameter.
    GenericInput { node: NodeId },
    /// One of the node's parameters produces a bare type parameter.
    GenericParameter { node: NodeId },
    /// No overload of the node's identifier accepts its input type `input`
    /// and the types of its parameters.
    NoMatchingOverload { node: NodeId, input: Type },
}

/// What the context records of one node.
#[derive(Debug)]
pub struct NodeRecord {
    pub types: NodeIOTypes,
    pub constructor: Option<NodeConstructor>,
}

/// The mathematical content of a [`NodeRecord`].
pub ghost struct NodeRecordView {
    pub types: NodeIOTypesView,
    pub constructor: Option<NodeConstructor>,
}

impl View for NodeRecord {
    type V = NodeRecordView;

    open spec fn view(&self) -> NodeRecordView {
        NodeRecordView { types: self.types@, constructor: self.constructor }
    }
}

impl Clone for NodeRecord {
    fn clone(&self) -> (r: Self)
        ensures
            r@ == self@,
    {
        NodeRecord { types: self.types.clone(), constructor: self.constructor }
    }
}

/// The constructor that `records` holds for a node; literals and untyped
/// nodes have none.
pub open spec fn chosen_in(records: Map<NodeId, NodeRecordView>, id: NodeId) -> Option<
    NodeConstructor,
> {
    if records.contains_key(id) {
        records[id].constructor
    } else {
        None
    }
}

/// `current` arises from `base` by adding records for the nodes `added`,
/// none of which `base` holds.
pub open spec fn extends_by(
    base: Map<NodeId, NodeRecordView>,
    current: Map<NodeId, NodeRecordView>,
    added: Seq<NodeId>,
) -> bool {
    &&& (forall|id: NodeId| #[trigger]
        base.contains_key(id) ==> current.contains_key(id) && current[id] == base[id])
    &&& (forall|id: NodeId|
        #[trigger] current.contains_key(id) && !base.contains_key(id) ==> exists|i: int|
            0 <= i < added.len() && added[i] == id)
    &&& forall|j: int| 0 <= j < added.len() ==> !base.contains_key(#[trigger] added[j])
}

/// The first of `deps`, from position `from` on, that `records` does not hold.
pub open spec fn first_untyped(records: Map<NodeId, NodeRecordView>, deps: Seq<NodeId>, from: int)
    -> Option<NodeId>
    decreases deps.len() - from,
{
    if from < 0 || from >= deps.len() {
        None
    } else if !records.contains_key(deps[from]) {
        Some(deps[from])
    } else {
        first_untyped(records, deps, from + 1)
    }
}

/// The types of the parameters of an instruction: for a literal its own type,
/// for dependencies the kind of each dependency, for a source fragment its
/// declared type.
pub open spec fn parameter_types(records: Map<NodeId, NodeRecordView>, node: ProtoNodeView) -> Seq<
    Type,
> {
    match node.construction_args {
        ConstructionArgsView::Value(v) => seq![Type::Concrete(v.tag())],
        ConstructionArgsView::Nodes(ids) => Seq::new(
            ids.len(),
            |j: int| records[ids[j].0].types.ty(),
        ),
        ConstructionArgsView::Inline(inline) => seq![inline.ty],
    }
}

/// Whether some parameter type is a function kind that produces a bare type
/// parameter.
pub open spec fn some_generic_output(parameters: Seq<Type>) -> bool {
    exists|i: int| 0 <= i < parameters.len() && (#[trigger] parameters[i]).has_generic_output()
}

/// The records after typing one instruction, or the reason it cannot be
/// typed.
///
/// A node that is already recorded keeps its record. A literal is recorded
/// with unit input and its own type as output. Any other node takes its
/// parameter types from the records of its dependencies and its input type
/// from its declaration, and is recorded with the first overload that accepts
/// them.
pub open spec fn infer_step(
    registry: NodeRegistry,
    records: Map<NodeId, NodeRecordView>,
    id: NodeId,
    node: ProtoNodeView,
) -> Result<Map<NodeId, NodeRecordView>, TypeError> {
    if records.contains_key(id) {
        Ok(records)
    } else if let ConstructionArgsView::Value(v) = node.construction_args {
        Ok(
            records.insert(
                id,
                NodeRecordView {
                    types: NodeIOTypesView {
                        input: Type::unit(),
                        output: Type::Concrete(v.tag()),
                        parameters: seq![Type::Concrete(v.tag())],
                    },
                    constructor: None,
                },
            ),
        )
    } else if let Some(dependency) = first_untyped(records, node.dependencies(), 0) {
        Err(TypeError::MissingDependency { node: id, dependency })
    } else if node.input is Node && !records.contains_key(node.input->Node_0) {
        Err(TypeError::MissingDependency { node: id, dependency: node.input->Node_0 })
    } else {
        let parameters = parameter_types(records, node);
        let input = input_type(records, node);
        if !registry.knows(node.identifier) {
            Err(TypeError::UnknownIdentifier { node: id })
        } else if input is Generic {
            Err(TypeError::GenericInput { node: id })
        } else if some_generic_output(parameters) {
            Err(TypeError::GenericParameter { node: id })
        } else {
            match registry.resolution(node.identifier, input, parameters) {
                Some((constructor, output)) => Ok(
                    records.insert(
                        id,
                        NodeRecordView {
                            types: NodeIOTypesView { input, output, parameters },
                            constructor: Some(constructor),
                        },
                    ),
                ),
                None => Err(TypeError::NoMatchingOverload { node: id, input }),
            }
        }
    }
}

/// The records after typing the instructions from position `from` on, in
/// order, or the first failure.
pub open spec fn infer_all(
    registry: NodeRegistry,
    records: Map<NodeId, NodeRecordView>,
    nodes: Seq<(NodeId, ProtoNodeView)>,
    from: int,
) -> Result<Map<NodeId, NodeRecordView>, TypeError>
    decreases nodes.len() - from,
{
    if from < 0 || from >= nodes.len() {
        Ok(records)
    } else {
        match infer_step(registry, records, nodes[from].0, nodes[from].1) {
            Ok(next) => infer_all(registry, next, nodes, from + 1),
            Err(e) => Err(e),
        }
    }
}

/// The type an instruction takes when evaluated, given the records of the
/// nodes typed before it.
pub open spec fn input_type(records: Map<NodeId, NodeRecordView>, node: ProtoNodeView) -> Type {
    match node.input {
        ProtoNodeInput::Nothing => Type::unit(),
        ProtoNodeInput::Network(ty) => ty,
        ProtoNodeInput::Node(dep, _) => records[dep].types.output,
    }
}

/// Typing one instruction only adds a record, for the node it names.
pub proof fn lemma_infer_step_adds(
    registry: NodeRegistry,
    records: Map<NodeId, NodeRecordView>,
    id: NodeId,
    node: ProtoNodeView,
)
    requires
        infer_step(registry, records, id, node) is Ok,
    ensures
        ({
            let next = infer_step(registry, records, id, node)->Ok_0;
            &&& next.dom() == records.dom().insert(id)
            &&& forall|other: NodeId| #[trigger]
                records.contains_key(other) ==> next[other] == records[other]
        }),
{
    let next = infer_step(registry, records, id, node)->Ok_0;
    assert(next.dom() =~= records.dom().insert(id));
}

/// Typing a plan keeps every record it found.
pub proof fn lemma_infer_all_keeps(
    registry: NodeRegistry,
    records: Map<NodeId, NodeRecordView>,
    nodes: Seq<(NodeId, ProtoNodeView)>,
    from: int,
    id: NodeId,
)
    requires
        0 <= from,
        infer_all(registry, records, nodes, from) is Ok,
        records.contains_key(id),
    ensures
        infer_all(registry, records, nodes, from)->Ok_0.contains_key(id),
        infer_all(registry, records, nodes, from)->Ok_0[id] == records[id],
    decreases nodes.len() - from,
{
    if from < nodes.len() {
        let next = infer_step(registry, records, nodes[from].0, nodes[from].1)->Ok_0;
        lemma_infer_step_adds(registry, records, nodes[from].0, nodes[from].1);
        assert(next.dom().contains(id));
        lemma_infer_all_keeps(registry, next, nodes, from + 1, id);
    }
}

/// Type-check soundness. Where a plan has been typed, every node that it
/// constructs from other nodes is recorded with a constructor whose declared
/// types accept the node's input type and the resolved kinds of the nodes
/// it depends on. So a plan in which no overload of some consumer accepts
/// what its producers yield is not typed: typing fails, and nothing is
/// constructed from it.
pub proof fn lemma_typed_nodes_are_accepted(
    registry: NodeRegistry,
    records: Map<NodeId, NodeRecordView>,
    nodes: Seq<(NodeId, ProtoNodeView)>,
    from: int,
    k: int,
) -> (i: int)
    requires
        0 <= from <= k < nodes.len(),
        infer_all(registry, records, nodes, from) is Ok,
        !records.contains_key(nodes[k].0),
        forall|j: int| from <= j < k ==> (#[trigger] nodes[j]).0 != nodes[k].0,
        !(nodes[k].1.construction_args is Value),
    ensures
        ({
            let all = infer_all(registry, records, nodes, from)->Ok_0;
            let id = nodes[k].0;
            let node = nodes[k].1;
            &&& all.contains_key(id)
            &&& 0 <= i < registry.entries@.len()
            &&& registry.entries@[i].accepts(
                node.identifier,
                all[id].types.input,
                all[id].types.parameters,
            )
            &&& all[id].constructor == Some(registry.entries@[i].constructor)
            &&& all[id].types.output == resolved_output_of(registry, i, all[id].types)
            &&& (forall|j: int|
                0 <= j < node.dependencies().len() ==> all.contains_key(
                    #[trigger] node.dependencies()[j],
                ) && all[id].types.parameters[j] == all[node.dependencies()[j]].types.ty())
        }),
    decreases k - from,
{
    let id0 = nodes[from].0;
    let next = infer_step(registry, records, id0, nodes[from].1)->Ok_0;
    lemma_infer_step_adds(registry, records, id0, nodes[from].1);
    if from < k {
        assert(!next.contains_key(nodes[k].0)) by {
            assert(next.dom().contains(nodes[k].0) == records.dom().insert(id0).contains(
                nodes[k].0,
            ));
        }
        lemma_typed_nodes_are_accepted(registry, next, nodes, from + 1, k)
    } else {
        let node = nodes[k].1;
        let id = nodes[k].0;
        let parameters = parameter_types(records, node);
        let input = input_type(records, node);
        let i = lemma_resolution_accepts(registry, node.identifier, input, parameters, 0);
        assert(next.dom().contains(id));
        assert(next.contains_key(id));
        lemma_infer_all_keeps(registry, next, nodes, from + 1, id);
        let all = infer_all(registry, records, nodes, from)->Ok_0;
        lemma_first_untyped(records, node.dependencies(), 0);
        assert forall|j: int| 0 <= j < node.dependencies().len() implies all.contains_key(
            #[trigger] node.dependencies()[j],
        ) && all[id].types.parameters[j] == all[node.dependencies()[j]].types.ty() by {
            let dep = node.dependencies()[j];
            assert(records.contains_key(dep));
            assert(next.contains_key(dep));
            lemma_infer_all_keeps(registry, next, nodes, from + 1, dep);
        }
        i
    }
}

/// The output type that the `i`-th overload yields for the recorded input
/// and parameter types.
pub open spec fn resolved_output_of(registry: NodeRegistry, i: int, types: NodeIOTypesView) -> Type {
    crate::registry::resolved_output(registry.entries@[i].types@, types.input, types.parameters)->Some_0
}

/// Where every one of `deps` from position `from` on is recorded, none is
/// found unrecorded, and the other way round.
pub proof fn lemma_first_untyped(records: Map<NodeId, NodeRecordView>, deps: Seq<NodeId>, from: int)
    requires
        0 <= from,
    ensures
        first_untyped(records, deps, from) is None <==> forall|j: int|
            from <= j < deps.len() ==> records.contains_key(#[trigger] deps[j]),
    decreases deps.len() - from,
{
    if from < deps.len() {
        lemma_first_untyped(records, deps, from + 1);
    }
}

fn any_generic_output(parameters: &Vec<Type>) -> (r: bool)
    ensures
        r == some_generic_output(parameters@),
{
    let mut i: usize = 0;
    while i < parameters.len()
        invariant
            i <= parameters.len(),
            forall|k: int| 0 <= k < i ==> !(#[trigger] parameters@[k]).has_generic_output(),
        decreases parameters.len() - i,
    {
        if parameters[i].returns_generic() {
            return true;
        }
        i += 1;
    }
    false
}

/// The record of each typed node, with the registry that constructors are
/// resolved against.
#[derive(Debug, Clone)]
pub struct TypingContext {
    lookup: NodeRegistry,
    inferred: HashMap<NodeId, NodeRecord>,
}

impl TypingContext {
    /// The table that constructors are resolved against.
    pub closed spec fn registry(&self) -> NodeRegistry {
        self.lookup
    }

    /// The record of each typed node.
    pub closed spec fn records(&self) -> Map<NodeId, NodeRecordView> {
        Map::new(|id: NodeId| self.inferred@.contains_key(id), |id: NodeId| self.inferred@[id]@)
    }

    /// The constructor chosen for a node; literals and untyped nodes have
    /// none.
    pub open spec fn chosen(&self, id: NodeId) -> Option<NodeConstructor> {
        chosen_in(self.records(), id)
    }

    /// A context over the given registry, with no node typed yet.
    pub fn new(lookup: NodeRegistry) -> (r: Self)
        ensures
            r.registry() == lookup,
            r.records() == Map::<NodeId, NodeRecordView>::empty(),
    {
        let r = TypingContext { lookup, inferred: HashMap::new() };
        assert(r.records() =~= Map::<NodeId, NodeRecordView>::empty());
        r
    }

    /// The resolved types of a node, if it has been typed.
    pub fn type_of(&self, node_id: NodeId) -> (r: Option<&NodeIOTypes>)
        ensures
            r is Some <==> self.records().contains_key(node_id),
            r is Some ==> r->Some_0@ == self.records()[node_id].types,
    {
        match self.inferred.get(&node_id) {
            Some(record) => Some(&record.types),
            None => None,
        }
    }

    /// The constructor chosen for a node; literals and untyped nodes have
    /// none.
    pub fn constructor(&self, node_id: NodeId) -> (r: Option<NodeConstructor>)
        ensures
            r == self.chosen(node_id),
    {
        match self.inferred.get(&node_id) {
            Some(record) => record.constructor,
            None => None,
        }
    }

    fn record(&mut self, node_id: NodeId, record: NodeRecord)
        ensures
            final(self).registry() == old(self).registry(),
            final(self).records() == old(self).records().insert(node_id, record@),
    {
        self.inferred.insert(node_id, record);
        assert(self.records() =~= old(self).records().insert(node_id, record@));
    }

    fn forget(&mut self, node_id: NodeId)
        ensures
            final(self).registry() == old(self).registry(),
            final(self).records() == old(self).records().remove(node_id),
    {
        self.inferred.remove(&node_id);
        assert(self.records() =~= old(self).records().remove(node_id));
    }

    fn parameters_of(&self, node_id: NodeId, ids: &Vec<(NodeId, bool)>) -> (r: Result<
        Vec<Type>,
        TypeError,
    >)
        ensures
            match first_untyped(self.records(), ids@.map_values(|p: (NodeId, bool)| p.0), 0) {
                Some(dependency) => r == Err::<Vec<Type>, TypeError>(
                    TypeError::MissingDependency { node: node_id, dependency },
                ),
                None => r is Ok && r->Ok_0@ == Seq::new(
                    ids@.len(),
                    |j: int| self.records()[ids@[j].0].types.ty(),
                ),
            },
    {
        let ghost deps = ids@.map_values(|p: (NodeId, bool)| p.0);
        let mut parameters: Vec<Type> = Vec::new();
        let mut j: usize = 0;
        while j < ids.len()
            invariant
                j <= ids.len(),
                deps == ids@.map_values(|p: (NodeId, bool)| p.0),
                first_untyped(self.records(), deps, 0) == first_untyped(
                    self.records(),
                    deps,
                    j as int,
                ),
                parameters@.len() == j,
                forall|k: int|
                    0 <= k < j ==> #[trigger] parameters@[k] == self.records()[ids@[k].0].types.ty(),
            decreases ids.len() - j,
        {
            match self.inferred.get(&ids[j].0) {
                Some(record) => {
                    parameters.push(record.types.ty());
                },
                None => {
                    return Err(TypeError::MissingDependency { node: node_id, dependency: ids[j].0 });
                },
            }
            j += 1;
        }
        assert(parameters@ =~= Seq::new(
            ids@.len(),
            |j: int| self.records()[ids@[j].0].types.ty(),
        ));
        Ok(parameters)
    }

    /// Types one instruction and records the result.
    ///
    /// On success the node's resolved types are returned; on failure the
    /// context is unchanged.
    pub fn infer(&mut self, node_id: NodeId, node: &ProtoNode) -> (r: Result<
        NodeIOTypes,
        TypeError,
    >)
        ensures
            final(self).registry() == old(self).registry(),
            match infer_step(old(self).registry(), old(self).records(), node_id, node@) {
                Ok(next) => r is Ok && final(self).records() == next && r->Ok_0@
                    == next[node_id].types,
                Err(e) => r == Err::<NodeIOTypes, TypeError>(e) && final(self).records() == old(
                    self,
                ).records(),
            },
    {
        if let Some(known) = self.inferred.get(&node_id) {
            return Ok(known.types.clone());
        }
        let parameters = match &node.construction_args {
            ConstructionArgs::Value(v) => {
                let mut parameters: Vec<Type> = Vec::new();
                parameters.push(v.ty());
                let types = NodeIOTypes::new(Type::Concrete(crate::types::Primitive::Unit), v.ty(), parameters);
                let result = types.clone();
                assert(types@.parameters =~= seq![Type::Concrete(v.tag())]);
                self.record(node_id, NodeRecord { types, constructor: None });
                return Ok(result);
            },
            ConstructionArgs::Nodes(ids) => {
                match self.parameters_of(node_id, ids) {
                    Ok(parameters) => parameters,
                    Err(e) => {
                        return Err(e);
                    },
                }
            },
            ConstructionArgs::Inline(inline) => {
                let mut parameters: Vec<Type> = Vec::new();
                parameters.push(inline.ty.clone());
                assert(parameters@ =~= seq![inline.ty]);
                parameters
            },
        };
        assert(first_untyped(self.records(), node@.dependencies(), 0) is None);
        assert(parameters@ == parameter_types(self.records(), node@));
        let input = match &node.input {
            ProtoNodeInput::Nothing => Type::Concrete(crate::types::Primitive::Unit),
            ProtoNodeInput::Network(ty) => ty.clone(),
            ProtoNodeInput::Node(dep, _) => match self.inferred.get(dep) {
                Some(record) => record.types.output.clone(),
                None => {
                    return Err(TypeError::MissingDependency { node: node_id, dependency: *dep });
                },
            },
        };
        if !self.lookup.contains(&node.identifier) {
            return Err(TypeError::UnknownIdentifier { node: node_id });
        }
        if input.is_generic() {
            return Err(TypeError::GenericInput { node: node_id });
        }
        if any_generic_output(&parameters) {
            return Err(TypeError::GenericParameter { node: node_id });
        }
        match self.lookup.resolve(&node.identifier, &input, &parameters) {
            Some((constructor, output)) => {
                let types = NodeIOTypes::new(input, output, parameters);
                let result = types.clone();
                self.record(node_id, NodeRecord { types, constructor: Some(constructor) });
                Ok(result)
            },
            None => Err(TypeError::NoMatchingOverload { node: node_id, input }),
        }
    }

    /// Types a whole plan, instruction by instruction in construction order.
    ///
    /// Stops at the first instruction that cannot be typed; the context is
    /// then as it was before the call.
    pub fn update(&mut self, network: &ProtoNetwork) -> (r: Result<(), TypeError>)
        ensures
            final(self).registry() == old(self).registry(),
            match infer_all(old(self).registry(), old(self).records(), network@.nodes, 0) {
                Ok(all) => r is Ok && final(self).records() == all,
                Err(e) => r == Err::<(), TypeError>(e) && final(self).records() == old(
                    self,
                ).records(),
            },
    {
        match self.extend(network) {
            Ok(_) => Ok(()),
            Err(e) => Err(e),
        }
    }

    /// Types a whole plan as [`TypingContext::update`] does, and returns the
    /// nodes it has added records for, so that the caller can take them back.
    pub(crate) fn extend(&mut self, network: &ProtoNetwork) -> (r: Result<Vec<NodeId>, TypeError>)
        ensures
            final(self).registry() == old(self).registry(),
            match infer_all(old(self).registry(), old(self).records(), network@.nodes, 0) {
                Ok(all) => r is Ok && final(self).records() == all && extends_by(
                    old(self).records(),
                    all,
                    r->Ok_0@,
                ),
                Err(e) => r == Err::<Vec<NodeId>, TypeError>(e) && final(self).records() == old(
                    self,
                ).records(),
            },
    {
        let ghost before = self.records();
        let mut added: Vec<NodeId> = Vec::new();
        let mut k: usize = 0;
        while k < network.nodes.len()
            invariant
                k <= network.nodes.len(),
                before == old(self).records(),
                self.registry() == old(self).registry(),
                infer_all(self.registry(), before, network@.nodes, 0) == infer_all(
                    self.registry(),
                    self.records(),
                    network@.nodes,
                    k as int,
                ),
                extends_by(before, self.records(), added@),
            decreases network.nodes.len() - k,
        {
            let id = network.nodes[k].0;
            let known = self.inferred.contains_key(&id);
            let ghost current = self.records();
            assert(network@.nodes[k as int] == (id, network.nodes@[k as int].1@));
            match self.infer(id, &network.nodes[k].1) {
                Ok(_) => {
                    if !known {
                        let ghost listed = added@;
                        added.push(id);
                        assert forall|other: NodeId|
                            #[trigger] self.records().contains_key(other) && !before.contains_key(
                                other,
                            ) implies exists|i: int| 0 <= i < added@.len() && added@[i] == other by {
                            if other == id {
                                assert(added@[listed.len() as int] == id);
                            } else {
                                assert(current.contains_key(other));
                                let i = choose|i: int| 0 <= i < listed.len() && listed[i] == other;
                                assert(added@[i] == other);
                            }
                        }
                    }
                },
                Err(e) => {
                    self.retract(&added, Ghost(before));
                    return Err(e);
                },
            }
            k += 1;
        }
        Ok(added)
    }

    /// Takes back the records of the nodes `added`.
    pub(crate) fn retract(
        &mut self,
        added: &Vec<NodeId>,
        Ghost(base): Ghost<Map<NodeId, NodeRecordView>>,
    )
        requires
            extends_by(base, old(self).records(), added@),
        ensures
            final(self).registry() == old(self).registry(),
            final(self).records() == base,
    {
        let mut j: usize = added.len();
        while j > 0
            invariant
                j <= added.len(),
                self.registry() == old(self).registry(),
                forall|id: NodeId| #[trigger]
                    base.contains_key(id) ==> self.records().contains_key(id)
                        && self.records()[id] == base[id],
                forall|id: NodeId|
                    #[trigger] self.records().contains_key(id) && !base.contains_key(id)
                        ==> exists|i: int| 0 <= i < j && added@[i] == id,
                forall|j: int| 0 <= j < added@.len() ==> !base.contains_key(#[trigger] added@[j]),
            decreases j,
        {
            j -= 1;
            self.forget(added[j]);
        }
        assert(self.records() =~= base);
    }
}

impl Default for TypingContext {
    /// A context over an empty registry.
    fn default() -> (r: Self)
        ensures
            r.registry().entries@.len() == 0,
            r.records() == Map::<NodeId, NodeRecordView>::empty(),
    {
        TypingContext::new(NodeRegistry::new())
    }
}

} // verus!
