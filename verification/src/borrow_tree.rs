//! The execution tree: the live nodes of a plan, kept in an arena, with
//! their evaluation, incremental update and introspection.

use std::collections::HashMap;
use std::collections::HashSet;
use vstd::prelude::*;
use vstd::std_specs::hash::*;
use crate::arena::{
    child, expect_unit, lemma_step_sound, occupied, rank_of, step, sum, Fault, TypeErasedNode,
    WiringView,
};
use crate::cache::CacheSlot;
use crate::proto::{plan_view, ConstructionArgs, NodeConstructor, ProtoNetwork, ProtoNode};
use crate::source_map::SourceMap;
use crate::tree_model::{
    first_unlisted, lemma_installed_compact, lemma_installed_sound, lemma_reset_wf,
    lemma_same_holders, lemma_vacancy, lemma_vacated_compact, lemma_vacated_sound,
    lemma_wired_shape, rank_above, reset_unit, unit_of, vacancy_from, TreeView,
};
use crate::typing::TypingContext;
use crate::types::Primitive;
use crate::value::{recovered, DowncastError, DynAny, TaggedValue};
use crate::NodeId;

verus! {

broadcast use group_hash_axioms;

/// A live node: a type-erased unit that can be evaluated.
#[derive(Clone, Copy, Debug, PartialEq, Eq)]
pub struct NodeContainer {
    pub node: TypeErasedNode,
}

impl NodeContainer {
    pub fn new(node: TypeErasedNode) -> (r: Self)
        ensures
            r.node == node,
    {
        NodeContainer { node }
    }
}

/// Why a node could not be constructed. Every variant names the node.
#[derive(Clone, Copy, Debug, PartialEq, Eq, Structural)]
pub enum ConstructionError {
    /// The instruction is a kernel-source fragment, which only the GPU path
    /// can realize.
    InlineNotSupported { node: NodeId },
    /// The tree does not list a node that the instruction depends on.
    MissingDependency { node: NodeId, dependency: NodeId },
    /// No constructor was chosen for the node.
    MissingConstructor { node: NodeId },
    /// The chosen constructor takes another number of dependencies than the
    /// instruction names.
    ArityMismatch { node: NodeId, expected: usize, found: usize },
}

/// The wiring of one occupied slot.
struct Wire {
    id: NodeId,
    dependencies: Vec<usize>,
    rank: Ghost<nat>,
}

impl View for Wire {
    type V = WiringView;

    closed spec fn view(&self) -> WiringView {
        WiringView { id: self.id, dependencies: self.dependencies@, rank: self.rank@ }
    }
}

/// The live nodes of a plan.
///
/// The units live in the slots of an arena. A node refers to the nodes it
/// depends on by their slots, so a dependency stays alive while a node that
/// was built from it does, whether or not the tree still lists it.
pub struct BorrowTree {
    nodes: HashMap<NodeId, usize>,
    units: Vec<TypeErasedNode>,
    wiring: Vec<Option<Wire>>,
    source_map: SourceMap,
}

impl View for BorrowTree {
    type V = TreeView;

    closed spec fn view(&self) -> TreeView {
        TreeView {
            nodes: self.nodes@,
            units: self.units@,
            wiring: Seq::new(
                self.wiring@.len(),
                |i: int|
                    match self.wiring@[i] {
                        Some(w) => Some(w@),
                        None => None,
                    },
            ),
            source_map: self.source_map@,
        }
    }
}

impl BorrowTree {
    /// The invariant of the tree; every operation keeps it.
    pub closed spec fn wf(&self) -> bool {
        self@.wf() && self.source_map.wf()
    }

    /// The invariant of the tree but for the nodes that nothing holds.
    closed spec fn sound(&self) -> bool {
        self@.sound() && self.source_map.wf()
    }

    /// What the invariant says of the tree's content.
    pub proof fn lemma_wf(&self)
        requires
            self.wf(),
        ensures
            self@.wf(),
    {
    }

    /// The number of slots of the arena, vacant ones included.
    pub fn slots(&self) -> (n: usize)
        ensures
            n == self@.wiring.len(),
    {
        self.wiring.len()
    }

    /// A tree without nodes.
    pub fn empty() -> (r: Self)
        ensures
            r.wf(),
            r@.nodes == Map::<NodeId, usize>::empty(),
            r@.units.len() == 0,
            r@.wiring.len() == 0,
            r@.source_map == Map::<Seq<NodeId>, NodeId>::empty(),
    {
        BorrowTree {
            nodes: HashMap::new(),
            units: Vec::new(),
            wiring: Vec::new(),
            source_map: SourceMap::new(),
        }
    }

    /// The live node listed for `id`.
    pub fn get(&self, id: NodeId) -> (r: Option<NodeContainer>)
        requires
            self.wf(),
        ensures
            r == if self@.nodes.contains_key(id) {
                Some(self@.container(id))
            } else {
                None
            },
    {
        match self.nodes.get(&id) {
            Some(slot) => Some(NodeContainer { node: self.units[*slot] }),
            None => None,
        }
    }

    fn id_at(&self, slot: usize) -> (id: NodeId)
        requires
            self.sound(),
            occupied(self@.wiring, slot as int),
        ensures
            id == self@.wiring[slot as int]->Some_0.id,
    {
        match &self.wiring[slot] {
            Some(w) => w.id,
            None => 0,
        }
    }

    fn dependency(&self, slot: usize, k: usize) -> (d: usize)
        requires
            self.sound(),
            occupied(self@.wiring, slot as int),
            k < self@.wiring[slot as int]->Some_0.dependencies.len(),
        ensures
            child(self@.wiring, slot as int, k as int) == Some(d as int),
            occupied(self@.wiring, d as int),
            rank_of(self@.wiring, d as int) < rank_of(self@.wiring, slot as int),
    {
        assert(child(self@.wiring, slot as int, k as int) is Some);
        match &self.wiring[slot] {
            Some(w) => w.dependencies[k],
            None => 0,
        }
    }

    fn vacancy(&self) -> (slot: usize)
        requires
            self.sound(),
        ensures
            slot == vacancy_from(self@.wiring, 0),
            slot <= self.wiring@.len(),
    {
        let mut i: usize = 0;
        while i < self.wiring.len()
            invariant
                i <= self.wiring@.len(),
                vacancy_from(self@.wiring, 0) == vacancy_from(self@.wiring, i as int),
            decreases self.wiring.len() - i,
        {
            if self.wiring[i].is_none() {
                return i;
            }
            i += 1;
        }
        i
    }

    fn is_occupied(&self, slot: usize) -> (r: bool)
        ensures
            r == occupied(self@.wiring, slot as int),
    {
        slot < self.wiring.len() && self.wiring[slot].is_some()
    }

    fn is_listed(&self, slot: usize) -> (r: bool)
        requires
            self.sound(),
            occupied(self@.wiring, slot as int),
        ensures
            r == self@.lists(slot as int),
    {
        let id = self.id_at(slot);
        match self.nodes.get(&id) {
            Some(listed) => *listed == slot,
            None => false,
        }
    }

    fn has_dependent(&self, slot: usize) -> (r: bool)
        requires
            self.sound(),
        ensures
            r == self@.has_dependent(slot as int),
    {
        let mut i: usize = 0;
        while i < self.wiring.len()
            invariant
                i <= self.wiring@.len(),
                forall|a: int, k: int|
                    0 <= a < i && occupied(self@.wiring, a) && 0 <= k
                        < self@.wiring[a]->Some_0.dependencies.len()
                        ==> #[trigger] self@.wiring[a]->Some_0.dependencies[k] != slot,
            decreases self.wiring.len() - i,
        {
            match &self.wiring[i] {
                Some(w) => {
                    if holds_slot(&w.dependencies, slot) {
                        let ghost k = choose|k: int|
                            0 <= k < w.dependencies@.len() && w.dependencies@[k] == slot;
                        assert(self@.wiring[i as int]->Some_0.dependencies[k] == slot);
                        return true;
                    }
                },
                None => {},
            }
            i += 1;
        }
        false
    }

    /// Vacates a slot that is neither listed nor depended upon, and after it
    /// every dependency that has become so. `except` are the slots that may
    /// be left without a holder.
    fn release(&mut self, slot: usize, Ghost(except): Ghost<Set<int>>)
        requires
            old(self).sound(),
            old(self)@.compact_but(except.insert(slot as int)),
            occupied(old(self)@.wiring, slot as int),
            !old(self)@.lists(slot as int),
            !old(self)@.has_dependent(slot as int),
        ensures
            final(self).sound(),
            final(self)@.compact_but(except),
            final(self)@.nodes == old(self)@.nodes,
            final(self)@.source_map == old(self)@.source_map,
            final(self)@.retains(old(self)@),
        decreases rank_of(old(self)@.wiring, slot as int),
    {
        let ghost before = self@;
        let dependencies = match &self.wiring[slot] {
            Some(w) => w.dependencies.clone(),
            None => Vec::new(),
        };
        assert(dependencies@ =~= before.wiring[slot as int]->Some_0.dependencies);
        self.wiring[slot] = None;
        proof {
            assert(self@.wiring =~= before.wiring.update(slot as int, None));
            assert(self@ == before.vacated(slot as int));
            lemma_vacated_sound(before, slot as int);
            lemma_vacated_compact(before, slot as int, except);
            assert(self@.compact_but(except.union(pending(dependencies@, 0)))) by {
                assert(except.union(before.dependencies_of(slot as int)) =~= except.union(
                    pending(dependencies@, 0),
                ));
            }
        }
        let mut k: usize = 0;
        while k < dependencies.len()
            invariant
                k <= dependencies@.len(),
                self.sound(),
                self@.compact_but(except.union(pending(dependencies@, k as int))),
                self@.nodes == before.nodes,
                self@.source_map == before.source_map,
                self@.retains(before),
                before == old(self)@,
                before.sound(),
                occupied(before.wiring, slot as int),
                dependencies@ == before.wiring[slot as int]->Some_0.dependencies,
            decreases dependencies.len() - k,
        {
            let d = dependencies[k];
            let ghost later = except.union(pending(dependencies@, k + 1));
            assert(child(before.wiring, slot as int, k as int) is Some);
            assert(except.union(pending(dependencies@, k as int)) =~= later.insert(d as int));
            if self.is_occupied(d) && !self.is_listed(d) && !self.has_dependent(d) {
                let ghost mid = self@;
                assert(rank_of(mid.wiring, d as int) == rank_of(before.wiring, d as int));
                assert(rank_of(before.wiring, d as int) < rank_of(before.wiring, slot as int));
                self.release(d, Ghost(later));
                assert(self@.retains(before)) by {
                    assert forall|i: int| #[trigger] occupied(self@.wiring, i) implies occupied(
                        before.wiring,
                        i,
                    ) && self@.wiring[i] == before.wiring[i] by {
                        assert(occupied(mid.wiring, i));
                    }
                }
            } else {
                assert(self@.compact_but(later)) by {
                    assert forall|i: int| #[trigger]
                        occupied(self@.wiring, i) && !later.contains(i) implies self@.held(i) by {
                        if i != d {
                            assert(!later.insert(d as int).contains(i));
                        }
                    }
                }
            }
            k += 1;
        }
        proof {
            assert(except.union(pending(dependencies@, dependencies@.len() as int)) =~= except);
        }
    }

    /// The slots of the nodes listed under `ids`, in order; fails on the
    /// first that is not listed.
    fn node_deps(&self, node: NodeId, ids: &Vec<(NodeId, bool)>) -> (r: Result<
        Vec<usize>,
        ConstructionError,
    >)
        requires
            self.sound(),
        ensures
            match first_unlisted(self@.nodes, ids@.map_values(|p: (NodeId, bool)| p.0), 0) {
                Some(dependency) => r == Err::<Vec<usize>, ConstructionError>(
                    ConstructionError::MissingDependency { node, dependency },
                ),
                None => r is Ok && r->Ok_0@ == Seq::new(
                    ids@.len(),
                    |j: int| self@.nodes[ids@[j].0],
                ) && forall|j: int| 0 <= j < ids@.len() ==> self@.nodes.contains_key(#[trigger] ids@[j].0),
            },
    {
        let ghost deps = ids@.map_values(|p: (NodeId, bool)| p.0);
        let mut slots: Vec<usize> = Vec::new();
        let mut j: usize = 0;
        while j < ids.len()
            invariant
                j <= ids@.len(),
                deps == ids@.map_values(|p: (NodeId, bool)| p.0),
                first_unlisted(self@.nodes, deps, 0) == first_unlisted(self@.nodes, deps, j as int),
                slots@.len() == j,
                forall|k: int| 0 <= k < j ==> self@.nodes.contains_key(#[trigger] ids@[k].0),
                forall|k: int| 0 <= k < j ==> #[trigger] slots@[k] == self@.nodes[ids@[k].0],
            decreases ids.len() - j,
        {
            match self.nodes.get(&ids[j].0) {
                Some(slot) => {
                    slots.push(*slot);
                },
                None => {
                    return Err(
                        ConstructionError::MissingDependency { node, dependency: ids[j].0 },
                    );
                },
            }
            j += 1;
        }
        assert(slots@ =~= Seq::new(ids@.len(), |j: int| self@.nodes[ids@[j].0]));
        Ok(slots)
    }

    /// Puts the node in the first vacant slot and lists it for `id`. A node
    /// that was listed for `id` before is no longer listed, and leaves the
    /// arena unless a node was built from it.
    fn store_node(&mut self, node: NodeContainer, dependencies: Vec<usize>, id: NodeId)
        requires
            old(self).wf(),
            dependencies@.len() == node.node.arity(),
            forall|k: int|
                0 <= k < dependencies@.len() ==> occupied(
                    old(self)@.wiring,
                    #[trigger] dependencies@[k] as int,
                ),
            node.node.cached() is None,
        ensures
            final(self).wf(),
            final(self)@.nodes == old(self)@.installed(id, node.node, dependencies@).nodes,
            final(self)@.source_map == old(self)@.source_map,
            final(self)@.retains(old(self)@.installed(id, node.node, dependencies@)),
            !old(self)@.nodes.contains_key(id) ==> final(self)@ == old(self)@.installed(
                id,
                node.node,
                dependencies@,
            ),
    {
        let ghost before = self@;
        let ghost deps = dependencies@;
        let slot = self.vacancy();
        let wire = Wire {
            id,
            dependencies,
            rank: Ghost(rank_above(before.wiring, deps)),
        };
        if slot < self.wiring.len() {
            self.wiring[slot] = Some(wire);
            self.units[slot] = node.node;
        } else {
            self.wiring.push(Some(wire));
            self.units.push(node.node);
        }
        let previous = self.nodes.insert(id, slot);
        proof {
            let mid = before.installed(id, node.node, deps);
            assert(self@.wiring =~= mid.wiring);
            assert(self@.units =~= mid.units);
            assert(self@ == mid);
            lemma_installed_sound(before, id, node.node, deps);
            lemma_installed_compact(before, id, node.node, deps, Set::empty());
        }
        match previous {
            Some(p) => {
                proof {
                    lemma_vacancy(before.wiring, 0);
                    assert(before.nodes.contains_key(id));
                    assert(occupied(before.wiring, p as int));
                }
                if !self.has_dependent(p) {
                    self.release(p, Ghost(Set::empty()));
                } else {
                    assert(self@.compact_but(Set::empty())) by {
                        assert forall|i: int| #[trigger]
                            occupied(self@.wiring, i) implies self@.held(i) by {
                            if i != p {
                                assert(!Set::<int>::empty().insert(p as int).contains(i));
                            }
                        }
                    }
                }
            },
            None => {},
        }
    }

    /// Stops listing the node. It leaves the arena unless a node was built
    /// from it; the nodes it was built from leave with it where nothing else
    /// holds them.
    pub fn free_node(&mut self, id: NodeId)
        requires
            old(self).wf(),
        ensures
            final(self).wf(),
            final(self)@.nodes == old(self)@.nodes.remove(id),
            final(self)@.source_map == old(self)@.source_map,
            final(self)@.retains(old(self)@),
    {
        let ghost before = self@;
        match self.nodes.remove(&id) {
            Some(slot) => {
                proof {
                    let mid = TreeView { nodes: before.nodes.remove(id), ..before };
                    assert(self@ == mid);
                    assert(mid.listing_ok()) by {
                        assert forall|other: NodeId| #[trigger]
                            mid.nodes.contains_key(other) implies occupied(
                            mid.wiring,
                            mid.nodes[other] as int,
                        ) && mid.wiring[mid.nodes[other] as int]->Some_0.id == other by {
                            assert(before.nodes.contains_key(other));
                        }
                    }
                    assert(before.nodes.contains_key(id));
                    assert(mid.compact_but(Set::<int>::empty().insert(slot as int))) by {
                        assert forall|i: int| #[trigger]
                            occupied(mid.wiring, i) && i != slot implies mid.held(i) by {
                            assert(before.held(i));
                            if before.lists(i) {
                                assert(mid.lists(i));
                            }
                        }
                    }
                }
                if !self.has_dependent(slot) {
                    self.release(slot, Ghost(Set::empty()));
                } else {
                    assert(self@.compact_but(Set::empty())) by {
                        assert forall|i: int| #[trigger]
                            occupied(self@.wiring, i) implies self@.held(i) by {
                            if i != slot {
                                assert(!Set::<int>::empty().insert(slot as int).contains(i));
                            }
                        }
                    }
                }
            },
            None => {
                assert(self@.nodes =~= before.nodes.remove(id));
            },
        }
    }

    /// What the node of an instruction is built from, or the reason it cannot
    /// be built.
    fn footing_of(&self, id: NodeId, node: &ProtoNode, typing_context: &TypingContext) -> (r:
        Result<(TypeErasedNode, Vec<usize>), ConstructionError>)
        requires
            self.sound(),
        ensures
            match self@.footing(id, node@, typing_context.chosen(id)) {
                Err(e) => r == Err::<(TypeErasedNode, Vec<usize>), ConstructionError>(e),
                Ok((unit, deps)) => r is Ok && r->Ok_0.0 == unit && r->Ok_0.1@ == deps
                    && deps.len() == unit.arity() && unit.cached() is None && forall|k: int|
                    0 <= k < deps.len() ==> occupied(self@.wiring, #[trigger] deps[k] as int),
            },
    {
        match &node.construction_args {
            ConstructionArgs::Value(value) => Ok((TypeErasedNode::Value(*value), Vec::new())),
            ConstructionArgs::Inline(_) => Err(ConstructionError::InlineNotSupported { node: id }),
            ConstructionArgs::Nodes(ids) => {
                let dependencies = match self.node_deps(id, ids) {
                    Ok(dependencies) => dependencies,
                    Err(e) => {
                        return Err(e);
                    },
                };
                let constructor = match typing_context.constructor(id) {
                    Some(constructor) => constructor,
                    None => {
                        return Err(ConstructionError::MissingConstructor { node: id });
                    },
                };
                if constructor.dependency_count() != ids.len() {
                    return Err(
                        ConstructionError::ArityMismatch {
                            node: id,
                            expected: constructor.dependency_count(),
                            found: ids.len(),
                        },
                    );
                }
                Ok((build(constructor), dependencies))
            },
        }
    }

    /// Constructs the node of one instruction and lists it for `id`.
    ///
    /// A node that was listed for `id` before is no longer listed, and
    /// leaves the arena unless a node was built from it. On failure the tree
    /// is unchanged.
    pub fn push_node(&mut self, id: NodeId, proto_node: ProtoNode, typing_context: &TypingContext)
        -> (r: Result<(), ConstructionError>)
        requires
            old(self).wf(),
        ensures
            final(self).wf(),
            match old(self)@.footing(id, proto_node@, typing_context.chosen(id)) {
                Err(e) => r == Err::<(), ConstructionError>(e) && final(self)@ == old(self)@,
                Ok((unit, deps)) => {
                    let built = old(self)@.installed(id, unit, deps);
                    &&& r is Ok
                    &&& final(self)@.nodes == built.nodes
                    &&& final(self)@.source_map == old(self)@.source_map.insert(
                        proto_node.document_node_path@,
                        id,
                    )
                    &&& final(self)@.retains(built)
                    &&& !old(self)@.nodes.contains_key(id) ==> final(self)@ == (TreeView {
                        source_map: final(self)@.source_map,
                        ..built
                    })
                },
            },
    {
        let (unit, dependencies) = match self.footing_of(id, &proto_node, typing_context) {
            Ok(footing) => footing,
            Err(e) => {
                return Err(e);
            },
        };
        self.source_map.insert(proto_node.document_node_path, id);
        self.store_node(NodeContainer { node: unit }, dependencies, id);
        Ok(())
    }

    /// Evaluates the node in `slot` on `input`.
    fn eval_slot(&mut self, slot: usize, input: TaggedValue) -> (r: Result<TaggedValue, Fault>)
        requires
            old(self).wf(),
            occupied(old(self)@.wiring, slot as int),
        ensures
            final(self).wf(),
            final(self)@.nodes == old(self)@.nodes,
            final(self)@.wiring == old(self)@.wiring,
            final(self)@.source_map == old(self)@.source_map,
            (final(self)@.units, r) == step(
                old(self)@.wiring,
                old(self)@.units,
                slot as int,
                input,
            ),
        decreases rank_of(old(self)@.wiring, slot as int),
    {
        let ghost before = self@;
        let node = self.id_at(slot);
        let unit = self.units[slot];
        let r = match unit {
            TypeErasedNode::Value(v) => Ok(v),
            TypeErasedNode::Identity => Ok(input),
            TypeErasedNode::Monitor(_) => {
                self.units[slot] = TypeErasedNode::Monitor(CacheSlot::Populated(input));
                Ok(input)
            },
            TypeErasedNode::Placeholder => Err(Fault::Placeholder { node }),
            TypeErasedNode::Cache(cell) => {
                match input {
                    TaggedValue::Unit => match cell {
                        CacheSlot::Populated(v) => Ok(v),
                        CacheSlot::Empty => {
                            let d = self.dependency(slot, 0);
                            match self.eval_slot(d, TaggedValue::Unit) {
                                Ok(v) => {
                                    self.units[slot] = TypeErasedNode::Cache(CacheSlot::Populated(v));
                                    Ok(v)
                                },
                                Err(e) => Err(e),
                            }
                        },
                    },
                    _ => Err(unit_expected(node, input)),
                }
            },
            TypeErasedNode::Add => {
                match input {
                    TaggedValue::Unit => {
                        let d0 = self.dependency(slot, 0);
                        let d1 = self.dependency(slot, 1);
                        match self.eval_slot(d0, TaggedValue::Unit) {
                            Err(e) => Err(e),
                            Ok(a) => match self.eval_slot(d1, TaggedValue::Unit) {
                                Err(e) => Err(e),
                                Ok(b) => add_values(node, a, b),
                            },
                        }
                    },
                    _ => Err(unit_expected(node, input)),
                }
            },
            TypeErasedNode::Compose => {
                let d0 = self.dependency(slot, 0);
                let d1 = self.dependency(slot, 1);
                match self.eval_slot(d0, input) {
                    Err(e) => Err(e),
                    Ok(x) => self.eval_slot(d1, x),
                }
            },
        };
        proof {
            lemma_step_sound(before.wiring, before.units, slot as int, input);
            lemma_wired_shape(before, self@.units);
            assert(self@ == TreeView { units: self@.units, ..before });
            lemma_same_holders(before, self@);
        }
        r
    }

    /// Applies one instruction of a plan: a listed node is kept and reset,
    /// any other is constructed.
    fn apply_one(&mut self, id: NodeId, node: &ProtoNode, typing_context: &TypingContext) -> (r:
        Result<(), ConstructionError>)
        requires
            old(self).wf(),
        ensures
            final(self).wf(),
            match old(self)@.applied_one(id, node@, typing_context.chosen(id)) {
                Err(e) => r == Err::<(), ConstructionError>(e) && final(self)@ == old(self)@,
                Ok(next) => r is Ok && final(self)@ == next,
            },
    {
        let ghost before = self@;
        match self.nodes.get(&id) {
            Some(slot) => {
                let slot = *slot;
                let unit = self.units[slot];
                self.units[slot] = reset(unit);
                proof {
                    assert(self@.units =~= before.reset_at(id).units);
                    assert(self@ == before.reset_at(id));
                    lemma_reset_wf(before, id);
                }
                Ok(())
            },
            None => {
                let (unit, dependencies) = match self.footing_of(id, node, typing_context) {
                    Ok(footing) => footing,
                    Err(e) => {
                        return Err(e);
                    },
                };
                let path = node.document_node_path.clone();
                assert(path@ =~= node.document_node_path@);
                self.source_map.insert(path, id);
                self.store_node(NodeContainer { node: unit }, dependencies, id);
                Ok(())
            },
        }
    }

    /// Applies the instructions of a plan in order and stops at the first
    /// that fails.
    fn apply(&mut self, nodes: &Vec<(NodeId, ProtoNode)>, typing_context: &TypingContext) -> (r:
        Result<(), ConstructionError>)
        requires
            old(self).wf(),
        ensures
            final(self).wf(),
            match old(self)@.applied(plan_view(nodes@), typing_context.records(), 0) {
                Err(e) => r == Err::<(), ConstructionError>(e),
                Ok(all) => r is Ok && final(self)@ == all,
            },
    {
        let mut k: usize = 0;
        while k < nodes.len()
            invariant
                k <= nodes@.len(),
                self.wf(),
                old(self)@.applied(plan_view(nodes@), typing_context.records(), 0) == self@.applied(
                    plan_view(nodes@),
                    typing_context.records(),
                    k as int,
                ),
            decreases nodes.len() - k,
        {
            assert(plan_view(nodes@)[k as int] == (nodes@[k as int].0, nodes@[k as int].1@));
            match self.apply_one(nodes[k].0, &nodes[k].1, typing_context) {
                Ok(()) => {},
                Err(e) => {
                    return Err(e);
                },
            }
            k += 1;
        }
        Ok(())
    }

    /// The nodes the tree lists that the plan does not name.
    fn orphans_of(&self, nodes: &Vec<(NodeId, ProtoNode)>) -> (orphans: Vec<NodeId>)
        requires
            self.wf(),
        ensures
            orphans@.no_duplicates(),
            forall|id: NodeId|
                orphans@.contains(id) <==> self@.nodes.contains_key(id) && !nodes@.map_values(
                    |p: (NodeId, ProtoNode)| p.0,
                ).contains(id),
    {
        let ghost ids = nodes@.map_values(|p: (NodeId, ProtoNode)| p.0);
        let mut planned: HashSet<NodeId> = HashSet::new();
        let mut k: usize = 0;
        while k < nodes.len()
            invariant
                k <= nodes@.len(),
                ids == nodes@.map_values(|p: (NodeId, ProtoNode)| p.0),
                forall|id: NodeId|
                    planned@.contains(id) <==> exists|j: int| 0 <= j < k && ids[j] == id,
            decreases nodes.len() - k,
        {
            planned.insert(nodes[k].0);
            assert(ids[k as int] == nodes@[k as int].0);
            k += 1;
        }
        assert forall|id: NodeId| planned@.contains(id) <==> ids.contains(id) by {
            if ids.contains(id) {
                let j = choose|j: int| 0 <= j < ids.len() && ids[j] == id;
                assert(0 <= j < k && ids[j] == id);
            }
        }
        let mut orphans: Vec<NodeId> = Vec::new();
        let mut i: usize = 0;
        while i < self.wiring.len()
            invariant
                i <= self.wiring@.len(),
                self.wf(),
                forall|id: NodeId| planned@.contains(id) <==> ids.contains(id),
                forall|a: int|
                    0 <= a < orphans@.len() ==> self@.nodes.contains_key(#[trigger] orphans@[a])
                        && self@.nodes[orphans@[a]] < i && !ids.contains(orphans@[a]),
                forall|a: int, b: int|
                    0 <= a < b < orphans@.len() ==> orphans@[a] != orphans@[b],
                forall|id: NodeId|
                    self@.nodes.contains_key(id) && self@.nodes[id] < i && !ids.contains(id)
                        ==> orphans@.contains(id),
            decreases self.wiring.len() - i,
        {
            if self.is_occupied(i) && self.is_listed(i) {
                let id = self.id_at(i);
                if !planned.contains(&id) {
                    let ghost shorter = orphans@;
                    orphans.push(id);
                    assert(orphans@[shorter.len() as int] == id);
                    assert forall|other: NodeId|
                        self@.nodes.contains_key(other) && self@.nodes[other] < i + 1
                            && !ids.contains(other) implies orphans@.contains(other) by {
                        if self@.nodes[other] < i {
                            let a = choose|a: int| 0 <= a < shorter.len() && shorter[a] == other;
                            assert(orphans@[a] == other);
                        } else {
                            assert(other == id);
                        }
                    }
                }
            }
            i += 1;
        }
        assert forall|id: NodeId|
            orphans@.contains(id) <==> self@.nodes.contains_key(id) && !ids.contains(id) by {
            if self@.nodes.contains_key(id) {
                assert(occupied(self@.wiring, self@.nodes[id] as int));
            }
        }
        orphans
    }

    /// Builds the tree of a plan, instruction by instruction in construction
    /// order; fails on the first instruction that cannot be constructed.
    pub fn new(proto_network: ProtoNetwork, typing_context: &TypingContext) -> (r: Result<
        Self,
        ConstructionError,
    >)
        ensures
            match BorrowTree::empty_view().applied(
                proto_network@.nodes,
                typing_context.records(),
                0,
            ) {
                Err(e) => r == Err::<Self, ConstructionError>(e),
                Ok(all) => r is Ok && r->Ok_0.wf() && r->Ok_0@ == all,
            },
    {
        let mut tree = BorrowTree::empty();
        assert(tree@ =~= BorrowTree::empty_view()) by {
            assert(tree@.units =~= Seq::<TypeErasedNode>::empty());
            assert(tree@.wiring =~= Seq::<Option<WiringView>>::empty());
        }
        match tree.apply(&proto_network.nodes, typing_context) {
            Ok(()) => Ok(tree),
            Err(e) => Err(e),
        }
    }

    /// Reconciles the tree with a new plan and returns the orphans: the
    /// nodes that were listed and that the plan does not name.
    ///
    /// A node the tree lists is kept and its cache emptied; a node it does
    /// not list is constructed. Orphans stay listed; the source map forgets
    /// the paths that lead to them. On failure the tree is unchanged.
    pub fn update(&mut self, proto_network: ProtoNetwork, typing_context: &TypingContext) -> (r:
        Result<Vec<NodeId>, ConstructionError>)
        requires
            old(self).wf(),
        ensures
            final(self).wf(),
            match old(self)@.applied(proto_network@.nodes, typing_context.records(), 0) {
                Err(e) => r == Err::<Vec<NodeId>, ConstructionError>(e) && final(self)@ == old(
                    self,
                )@,
                Ok(all) => {
                    &&& r is Ok
                    &&& r->Ok_0@.no_duplicates()
                    &&& (forall|id: NodeId|
                        #[trigger] r->Ok_0@.contains(id) <==> old(self)@.nodes.contains_key(id)
                            && !proto_network.ids().contains(id))
                    &&& final(self)@ == all.without_paths_to(r->Ok_0@)
                },
            },
    {
        let orphans = self.orphans_of(&proto_network.nodes);
        let mut scratch = self.clone();
        match scratch.apply(&proto_network.nodes, typing_context) {
            Ok(()) => {
                scratch.source_map.remove_nodes(orphans.as_slice());
                *self = scratch;
                Ok(orphans)
            },
            Err(e) => Err(e),
        }
    }

    /// The last value observed by the node that realizes an author-level
    /// path: nothing where the path is not mapped or its node is not listed,
    /// and otherwise what the node last observed, if it observes at all.
    pub fn introspect(&self, node_path: &[NodeId]) -> (r: Option<Option<TaggedValue>>)
        requires
            self.wf(),
        ensures
            r == self@.introspected(node_path@),
    {
        let id = match self.source_map.get(node_path) {
            Some(id) => id,
            None => {
                return None;
            },
        };
        match self.get(id) {
            Some(container) => Some(serialize(&container.node)),
            None => None,
        }
    }

    /// Evaluates the node listed for `id` on an erased input; `None` where
    /// the node is not listed or the evaluation faults.
    pub fn eval_any(&mut self, id: NodeId, input: TaggedValue) -> (r: Option<TaggedValue>)
        requires
            old(self).wf(),
        ensures
            final(self).wf(),
            final(self)@ == old(self)@.evaluated(id, input).0,
            r == match old(self)@.evaluated(id, input).1 {
                Ok(v) => Some(v),
                Err(_) => None,
            },
    {
        match self.eval_erased(id, input) {
            Ok(v) => Some(v),
            Err(_) => None,
        }
    }

    /// Evaluates the node listed for `id` on an erased input.
    fn eval_erased(&mut self, id: NodeId, input: TaggedValue) -> (r: Result<TaggedValue, Fault>)
        requires
            old(self).wf(),
        ensures
            final(self).wf(),
            (final(self)@, r) == old(self)@.evaluated(id, input),
    {
        let slot = match self.nodes.get(&id) {
            Some(slot) => *slot,
            None => {
                return Err(Fault::NodeNotFound { node: id });
            },
        };
        let ghost before = self@;
        let r = self.eval_slot(slot, input);
        assert(self@ == TreeView { units: self@.units, ..before });
        r
    }

    /// Evaluates the node listed for `id` on the erased form of `input`.
    pub fn eval_tagged_value<I: DynAny>(&mut self, id: NodeId, input: I) -> (r: Result<
        TaggedValue,
        Fault,
    >)
        requires
            old(self).wf(),
        ensures
            final(self).wf(),
            (final(self)@, r) == old(self)@.evaluated(id, input.erased()),
    {
        self.eval_erased(id, input.upcast())
    }

    /// Evaluates the node listed for `id` on `input` and recovers a value of
    /// type `O` from the outcome; `None` where the node is not listed, the
    /// evaluation faults, or the outcome is of another type.
    pub fn eval<I: DynAny, O: DynAny>(&mut self, id: NodeId, input: I) -> (r: Option<O>)
        requires
            old(self).wf(),
        ensures
            final(self).wf(),
            final(self)@ == old(self)@.evaluated(id, input.erased()).0,
            r == match old(self)@.evaluated(id, input.erased()).1 {
                Ok(v) => match recovered::<O>(v) {
                    Ok(o) => Some(o),
                    Err(_) => None,
                },
                Err(_) => None,
            },
    {
        match self.eval_tagged_value(id, input) {
            Ok(v) => match O::downcast(v) {
                Ok(o) => Some(o),
                Err(_) => None,
            },
            Err(_) => None,
        }
    }

    /// The content of a tree without nodes.
    pub open spec fn empty_view() -> TreeView {
        TreeView {
            nodes: Map::empty(),
            units: Seq::empty(),
            wiring: Seq::empty(),
            source_map: Map::empty(),
        }
    }
}

impl Clone for BorrowTree {
    fn clone(&self) -> (r: Self)
        ensures
            self.wf() ==> r.wf() && r@ == self@,
    {
        let mut units: Vec<TypeErasedNode> = Vec::new();
        let mut i: usize = 0;
        while i < self.units.len()
            invariant
                i <= self.units@.len(),
                units@ == self.units@.take(i as int),
            decreases self.units.len() - i,
        {
            units.push(self.units[i]);
            assert(units@ =~= self.units@.take(i + 1));
            i += 1;
        }
        assert(units@ =~= self.units@);
        let mut wiring: Vec<Option<Wire>> = Vec::new();
        let mut j: usize = 0;
        while j < self.wiring.len()
            invariant
                j <= self.wiring@.len(),
                wiring@.len() == j,
                forall|a: int|
                    0 <= a < j ==> match (#[trigger] wiring@[a], self.wiring@[a]) {
                        (Some(x), Some(y)) => x@ == y@,
                        (None, None) => true,
                        _ => false,
                    },
            decreases self.wiring.len() - j,
        {
            let copy = match &self.wiring[j] {
                Some(w) => {
                    let dependencies = w.dependencies.clone();
                    assert(dependencies@ =~= w.dependencies@);
                    Some(Wire { id: w.id, dependencies, rank: w.rank })
                },
                None => None,
            };
            wiring.push(copy);
            j += 1;
        }
        let r = BorrowTree {
            nodes: self.nodes.clone(),
            units,
            wiring,
            source_map: self.source_map.clone(),
        };
        assert(r@.wiring =~= self@.wiring);
        r
    }
}

impl Default for BorrowTree {
    fn default() -> (r: Self)
        ensures
            r.wf(),
            r@ == BorrowTree::empty_view(),
    {
        let r = BorrowTree::empty();
        assert(r@.units =~= Seq::<TypeErasedNode>::empty());
        assert(r@.wiring =~= Seq::<Option<WiringView>>::empty());
        r
    }
}

/// Empties the cache of a unit; any other unit is as it was.
pub fn reset(unit: TypeErasedNode) -> (r: TypeErasedNode)
    ensures
        r == reset_unit(unit),
{
    match unit {
        TypeErasedNode::Cache(_) => TypeErasedNode::Cache(CacheSlot::Empty),
        other => other,
    }
}

/// The last value a unit observed, if it observes at all.
pub fn serialize(unit: &TypeErasedNode) -> (r: Option<TaggedValue>)
    ensures
        r == unit.observed(),
{
    match unit {
        TypeErasedNode::Monitor(CacheSlot::Populated(v)) => Some(*v),
        _ => None,
    }
}

/// The slots among `dependencies` from position `from` on.
pub open spec fn pending(dependencies: Seq<usize>, from: int) -> Set<int> {
    Set::new(
        |i: int| exists|k: int| from <= k < dependencies.len() && #[trigger] dependencies[k] == i,
    )
}

/// Whether `slot` is among `dependencies`.
fn holds_slot(dependencies: &Vec<usize>, slot: usize) -> (r: bool)
    ensures
        r == exists|k: int| 0 <= k < dependencies@.len() && dependencies@[k] == slot,
{
    let mut k: usize = 0;
    while k < dependencies.len()
        invariant
            k <= dependencies@.len(),
            forall|b: int| 0 <= b < k ==> dependencies@[b] != slot,
        decreases dependencies.len() - k,
    {
        if dependencies[k] == slot {
            return true;
        }
        k += 1;
    }
    false
}

/// Builds the unit of a constructor, with its cell empty.
fn build(constructor: NodeConstructor) -> (unit: TypeErasedNode)
    ensures
        unit == unit_of(constructor),
{
    match constructor {
        NodeConstructor::Identity => TypeErasedNode::Identity,
        NodeConstructor::Add => TypeErasedNode::Add,
        NodeConstructor::Cache => TypeErasedNode::Cache(CacheSlot::Empty),
        NodeConstructor::Monitor => TypeErasedNode::Monitor(CacheSlot::Empty),
        NodeConstructor::Compose => TypeErasedNode::Compose,
        NodeConstructor::Placeholder => TypeErasedNode::Placeholder,
    }
}

/// The fault of handing a value other than the unit value to a node that
/// takes the unit value.
fn unit_expected(node: NodeId, input: TaggedValue) -> (f: Fault)
    requires
        input != TaggedValue::Unit,
    ensures
        expect_unit(node, input) == Some(f),
{
    Fault::Downcast {
        node,
        error: DowncastError { expected: Primitive::Unit, found: input.primitive() },
    }
}

/// The sum of two erased 32-bit values.
fn add_values(node: NodeId, a: TaggedValue, b: TaggedValue) -> (r: Result<TaggedValue, Fault>)
    ensures
        r == sum(node, a, b),
{
    match (a, b) {
        (TaggedValue::U32(x), TaggedValue::U32(y)) => match x.checked_add(y) {
            Some(s) => Ok(TaggedValue::U32(s)),
            None => Err(Fault::Overflow { node }),
        },
        (TaggedValue::U32(_), _) => Err(
            Fault::Downcast {
                node,
                error: DowncastError { expected: Primitive::U32, found: b.primitive() },
            },
        ),
        _ => Err(
            Fault::Downcast {
                node,
                error: DowncastError { expected: Primitive::U32, found: a.primitive() },
            },
        ),
    }
}

} // verus!
