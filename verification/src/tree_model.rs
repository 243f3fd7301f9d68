//! The mathematical model of the execution tree: what a tree holds, what
//! its operations make of it, and why evaluation and update keep their
//! promises.

use vstd::prelude::*;
use crate::arena::{
    agrees, caches_valid, child, closed_under_dependencies, denote, lemma_caches_frame,
    lemma_denote_frame, lemma_denote_shape, lemma_step_sound, occupied, rank_of, same_shape, step,
    Fault, TypeErasedNode, Units, Wiring, WiringView,
};
use crate::borrow_tree::{ConstructionError, NodeContainer};
use crate::cache::CacheSlot;
use crate::proto::{ConstructionArgsView, NodeConstructor, ProtoNodeView};
use crate::typing::{chosen_in, NodeRecordView};
use crate::value::TaggedValue;
use crate::NodeId;

verus! {

/// The mathematical content of a [`BorrowTree`].
pub ghost struct TreeView {
    /// The slot of each node the tree lists.
    pub nodes: Map<NodeId, usize>,
    /// The unit in each slot of the arena.
    pub units: Units,
    /// The wiring of each slot of the arena.
    pub wiring: Wiring,
    /// The node that realizes each author-level path.
    pub source_map: Map<Seq<NodeId>, NodeId>,
}

impl TreeView {
    /// Every occupied slot is wired to as many dependencies as its unit
    /// takes, each of them occupied and of lower rank.
    pub open spec fn wired(self) -> bool {
        &&& self.units.len() == self.wiring.len()
        &&& (forall|i: int| #[trigger]
            occupied(self.wiring, i) ==> self.wiring[i]->Some_0.dependencies.len()
                == self.units[i].arity())
        &&& forall|i: int, k: int|
            occupied(self.wiring, i) && 0 <= k < self.wiring[i]->Some_0.dependencies.len()
                ==> (#[trigger] child(self.wiring, i, k)) is Some
    }

    /// Every listed node is in the slot it is listed for.
    pub open spec fn listing_ok(self) -> bool {
        forall|id: NodeId| #[trigger]
            self.nodes.contains_key(id) ==> occupied(self.wiring, self.nodes[id] as int)
                && self.wiring[self.nodes[id] as int]->Some_0.id == id
    }

    /// The tree is sound: properly wired, consistently listed, and every
    /// populated cache holds what its dependency yields.
    pub open spec fn sound(self) -> bool {
        &&& self.wired()
        &&& self.listing_ok()
        &&& caches_valid(self.wiring, self.units)
    }

    /// Whether the tree lists the node in `slot`.
    pub open spec fn lists(self, slot: int) -> bool {
        occupied(self.wiring, slot) && self.nodes.contains_key(self.wiring[slot]->Some_0.id)
            && self.nodes[self.wiring[slot]->Some_0.id] == slot
    }

    /// Whether some node in the arena was built from the node in `slot`.
    pub open spec fn has_dependent(self, slot: int) -> bool {
        exists|i: int, k: int|
            occupied(self.wiring, i) && 0 <= k < self.wiring[i]->Some_0.dependencies.len()
                && #[trigger] self.wiring[i]->Some_0.dependencies[k] == slot
    }

    /// Whether something holds the node in `slot`: the tree lists it, or a
    /// node in the arena was built from it.
    pub open spec fn held(self, slot: int) -> bool {
        self.lists(slot) || self.has_dependent(slot)
    }

    /// Every node in the arena is held, but for those in the slots `except`.
    pub open spec fn compact_but(self, except: Set<int>) -> bool {
        forall|i: int| #[trigger] occupied(self.wiring, i) && !except.contains(i) ==> self.held(i)
    }

    /// The tree is sound and, but for the slots `except`, holds no node that
    /// nothing holds.
    pub open spec fn wf_but(self, except: Set<int>) -> bool {
        self.sound() && self.compact_but(except)
    }

    /// The tree is well formed: it is sound, and a node is in the arena
    /// exactly as long as the tree lists it or a node was built from it.
    pub open spec fn wf(self) -> bool {
        self.wf_but(Set::empty())
    }

    /// The live node listed for `id`.
    pub open spec fn container(self, id: NodeId) -> NodeContainer {
        NodeContainer { node: self.units[self.nodes[id] as int] }
    }

    /// What the node listed for `id` yields for `input`.
    pub open spec fn value_of(self, id: NodeId, input: TaggedValue) -> Result<TaggedValue, Fault> {
        if self.nodes.contains_key(id) {
            denote(self.wiring, self.units, self.nodes[id] as int, input)
        } else {
            Err(Fault::NodeNotFound { node: id })
        }
    }

    /// The tree after the node listed for `id` has been evaluated on `input`,
    /// with the outcome.
    pub open spec fn evaluated(self, id: NodeId, input: TaggedValue) -> (
        TreeView,
        Result<TaggedValue, Fault>,
    ) {
        if self.nodes.contains_key(id) {
            let (units, r) = step(self.wiring, self.units, self.nodes[id] as int, input);
            (TreeView { units, ..self }, r)
        } else {
            (self, Err(Fault::NodeNotFound { node: id }))
        }
    }

    /// What introspection finds for `path`: nothing where the path is not
    /// mapped or its node is not listed, and otherwise what the node last
    /// observed, if it observes at all.
    pub open spec fn introspected(self, path: Seq<NodeId>) -> Option<Option<TaggedValue>> {
        if self.source_map.contains_key(path) && self.nodes.contains_key(self.source_map[path]) {
            Some(self.container(self.source_map[path]).node.observed())
        } else {
            None
        }
    }
}

/// The first of `deps`, from position `from` on, that `nodes` does not list.
pub open spec fn first_unlisted(nodes: Map<NodeId, usize>, deps: Seq<NodeId>, from: int) -> Option<
    NodeId,
>
    decreases deps.len() - from,
{
    if from < 0 || from >= deps.len() {
        None
    } else if !nodes.contains_key(deps[from]) {
        Some(deps[from])
    } else {
        first_unlisted(nodes, deps, from + 1)
    }
}

/// The unit a constructor builds, with its cell empty.
pub open spec fn unit_of(constructor: NodeConstructor) -> TypeErasedNode {
    match constructor {
        NodeConstructor::Identity => TypeErasedNode::Identity,
        NodeConstructor::Add => TypeErasedNode::Add,
        NodeConstructor::Cache => TypeErasedNode::Cache(CacheSlot::Empty),
        NodeConstructor::Monitor => TypeErasedNode::Monitor(CacheSlot::Empty),
        NodeConstructor::Compose => TypeErasedNode::Compose,
        NodeConstructor::Placeholder => TypeErasedNode::Placeholder,
    }
}

/// The first vacant slot at position `from` or later, or the length of the
/// arena where there is none.
pub open spec fn vacancy_from(wiring: Wiring, from: int) -> int
    decreases wiring.len() - from,
{
    if from < 0 || from >= wiring.len() {
        wiring.len() as int
    } else if wiring[from] is None {
        from
    } else {
        vacancy_from(wiring, from + 1)
    }
}

/// The least rank above the ranks of all of `deps`.
pub open spec fn rank_above(wiring: Wiring, deps: Seq<usize>) -> nat
    decreases deps.len(),
{
    if deps.len() == 0 {
        0
    } else {
        let rest = rank_above(wiring, deps.drop_last());
        let last = rank_of(wiring, deps.last() as int) + 1;
        if last > rest {
            last
        } else {
            rest
        }
    }
}

/// The rank above a sequence of dependencies exceeds the rank of each.
pub proof fn lemma_rank_above(wiring: Wiring, deps: Seq<usize>, k: int)
    requires
        0 <= k < deps.len(),
    ensures
        rank_of(wiring, deps[k] as int) < rank_above(wiring, deps),
    decreases deps.len(),
{
    if k < deps.len() - 1 {
        lemma_rank_above(wiring, deps.drop_last(), k);
    }
}

/// The vacancy found is within the arena or just past it, and vacant.
pub proof fn lemma_vacancy(wiring: Wiring, from: int)
    requires
        0 <= from <= wiring.len(),
    ensures
        from <= vacancy_from(wiring, from) <= wiring.len(),
        !occupied(wiring, vacancy_from(wiring, from)),
    decreases wiring.len() - from,
{
    if from < wiring.len() && wiring[from] is Some {
        lemma_vacancy(wiring, from + 1);
    }
}

impl TreeView {
    /// What a node is built from: the unit and the slots of its
    /// dependencies, or the reason it cannot be built.
    ///
    /// A literal becomes a constant unit. A source fragment is refused. Any
    /// other instruction needs each of its dependencies listed, a chosen
    /// constructor, and as many dependencies as the constructor takes.
    pub open spec fn footing(
        self,
        id: NodeId,
        node: ProtoNodeView,
        chosen: Option<NodeConstructor>,
    ) -> Result<(TypeErasedNode, Seq<usize>), ConstructionError> {
        match node.construction_args {
            ConstructionArgsView::Value(v) => Ok((TypeErasedNode::Value(v), Seq::<usize>::empty())),
            ConstructionArgsView::Inline(_) => Err(
                ConstructionError::InlineNotSupported { node: id },
            ),
            ConstructionArgsView::Nodes(ids) => {
                if let Some(dependency) = first_unlisted(self.nodes, node.dependencies(), 0) {
                    Err(ConstructionError::MissingDependency { node: id, dependency })
                } else {
                    match chosen {
                        None => Err(ConstructionError::MissingConstructor { node: id }),
                        Some(c) => if c.arity() != ids.len() {
                            Err(
                                ConstructionError::ArityMismatch {
                                    node: id,
                                    expected: c.arity() as usize,
                                    found: ids.len() as usize,
                                },
                            )
                        } else {
                            Ok((unit_of(c), Seq::new(ids.len(), |j: int| self.nodes[ids[j].0])))
                        },
                    }
                }
            },
        }
    }

    /// The tree after `unit`, wired to `deps`, has been put in the first
    /// vacant slot and listed for `id`.
    pub open spec fn installed(self, id: NodeId, unit: TypeErasedNode, deps: Seq<usize>)
        -> TreeView {
        let slot = vacancy_from(self.wiring, 0);
        let wire = WiringView { id, dependencies: deps, rank: rank_above(self.wiring, deps) };
        TreeView {
            nodes: self.nodes.insert(id, slot as usize),
            units: if slot < self.units.len() {
                self.units.update(slot, unit)
            } else {
                self.units.push(unit)
            },
            wiring: if slot < self.wiring.len() {
                self.wiring.update(slot, Some(wire))
            } else {
                self.wiring.push(Some(wire))
            },
            source_map: self.source_map,
        }
    }

    /// The tree with the slot vacated.
    pub open spec fn vacated(self, slot: int) -> TreeView {
        TreeView { wiring: self.wiring.update(slot, None), ..self }
    }

    /// The arena holds a part of what `old` held, unchanged: units may have
    /// left, none has come or changed.
    pub open spec fn retains(self, old: TreeView) -> bool {
        &&& self.units == old.units
        &&& self.wiring.len() == old.wiring.len()
        &&& forall|i: int| #[trigger]
            occupied(self.wiring, i) ==> occupied(old.wiring, i) && self.wiring[i] == old.wiring[i]
    }
}

/// Installing a fresh unit on occupied dependencies keeps the tree sound
/// and leaves every node that was there as it was.
pub proof fn lemma_installed_sound(old: TreeView, id: NodeId, unit: TypeErasedNode, deps: Seq<usize>)
    requires
        old.sound(),
        old.wiring.len() <= usize::MAX,
        deps.len() == unit.arity(),
        forall|k: int| 0 <= k < deps.len() ==> occupied(old.wiring, #[trigger] deps[k] as int),
        unit.cached() is None,
    ensures
        old.installed(id, unit, deps).sound(),
        agrees(
            old.wiring,
            old.units,
            old.installed(id, unit, deps).wiring,
            old.installed(id, unit, deps).units,
        ),
        old.installed(id, unit, deps).lists(vacancy_from(old.wiring, 0)),
{
    let new = old.installed(id, unit, deps);
    let slot = vacancy_from(old.wiring, 0);
    lemma_vacancy(old.wiring, 0);
    assert forall|i: int| #[trigger] occupied(old.wiring, i) implies occupied(new.wiring, i)
        && new.wiring[i] == old.wiring[i] && i < old.units.len() && i < new.units.len()
        && new.units[i] == old.units[i] by {}
    assert forall|i: int, k: int|
        occupied(new.wiring, i) && 0 <= k < new.wiring[i]->Some_0.dependencies.len() implies (#[trigger] child(
        new.wiring,
        i,
        k,
    )) is Some by {
        if i == slot {
            lemma_rank_above(old.wiring, deps, k);
            assert(occupied(old.wiring, deps[k] as int));
        } else {
            assert(occupied(old.wiring, i));
            assert(child(old.wiring, i, k) is Some);
        }
    }
    assert forall|i: int| #[trigger] occupied(new.wiring, i) implies new.wiring[i]->Some_0.dependencies.len()
        == new.units[i].arity() by {
        if i != slot {
            assert(occupied(old.wiring, i));
        }
    }
    assert(new.wired());
    assert forall|other: NodeId| #[trigger] new.nodes.contains_key(other) implies occupied(
        new.wiring,
        new.nodes[other] as int,
    ) && new.wiring[new.nodes[other] as int]->Some_0.id == other by {
        if other != id {
            assert(old.nodes.contains_key(other));
        }
    }
    assert(closed_under_dependencies(old.wiring));
    assert forall|i: int|
        0 <= i < new.units.len() && occupied(new.wiring, i) && (#[trigger] new.units[i]).cached() is Some implies child(
        new.wiring,
        i,
        0,
    ) is Some && denote(new.wiring, new.units, child(new.wiring, i, 0)->Some_0, TaggedValue::Unit)
        == Ok::<TaggedValue, Fault>(new.units[i].cached()->Some_0) by {
        assert(i != slot);
        assert(occupied(old.wiring, i));
        assert(old.units[i].cached() is Some);
        lemma_caches_frame(old.wiring, old.units, new.wiring, new.units, i);
    }
}

/// The node that was listed for `id` is the only one that installing a
/// node for `id` leaves without a holder.
pub proof fn lemma_installed_compact(
    old: TreeView,
    id: NodeId,
    unit: TypeErasedNode,
    deps: Seq<usize>,
    except: Set<int>,
)
    requires
        old.sound(),
        old.compact_but(except),
        old.wiring.len() <= usize::MAX,
    ensures
        old.installed(id, unit, deps).compact_but(
            if old.nodes.contains_key(id) {
                except.insert(old.nodes[id] as int)
            } else {
                except
            },
        ),
{
    let new = old.installed(id, unit, deps);
    let slot = vacancy_from(old.wiring, 0);
    let wider = if old.nodes.contains_key(id) {
        except.insert(old.nodes[id] as int)
    } else {
        except
    };
    lemma_vacancy(old.wiring, 0);
    assert forall|i: int| #[trigger] occupied(new.wiring, i) && !wider.contains(i) implies new.held(
        i,
    ) by {
        if i == slot {
            assert(new.lists(slot));
        } else {
            assert(occupied(old.wiring, i));
            assert(old.held(i));
            if old.lists(i) {
                assert(old.wiring[i]->Some_0.id != id);
                assert(new.lists(i));
            } else {
                let (j, k) = choose|j: int, k: int|
                    occupied(old.wiring, j) && 0 <= k < old.wiring[j]->Some_0.dependencies.len()
                        && #[trigger] old.wiring[j]->Some_0.dependencies[k] == i;
                assert(occupied(new.wiring, j));
                assert(new.wiring[j]->Some_0.dependencies[k] == i);
            }
        }
    }
}

impl TreeView {
    /// The slots of the nodes that the node in `slot` was built from.
    pub open spec fn dependencies_of(self, slot: int) -> Set<int> {
        Set::new(
            |i: int|
                occupied(self.wiring, slot) && exists|k: int|
                    0 <= k < self.wiring[slot]->Some_0.dependencies.len()
                        && #[trigger] self.wiring[slot]->Some_0.dependencies[k] == i,
        )
    }
}

/// The nodes that a vacated node was built from are the only ones that
/// vacating it leaves without a holder.
pub proof fn lemma_vacated_compact(old: TreeView, slot: int, except: Set<int>)
    requires
        occupied(old.wiring, slot),
        old.compact_but(except.insert(slot)),
    ensures
        old.vacated(slot).compact_but(except.union(old.dependencies_of(slot))),
{
    let new = old.vacated(slot);
    let wider = except.union(old.dependencies_of(slot));
    assert forall|i: int| #[trigger] occupied(new.wiring, i) && !wider.contains(i) implies new.held(
        i,
    ) by {
        assert(occupied(old.wiring, i));
        assert(i != slot);
        assert(old.held(i));
        if old.lists(i) {
            assert(new.lists(i));
        } else {
            let (j, k) = choose|j: int, k: int|
                occupied(old.wiring, j) && 0 <= k < old.wiring[j]->Some_0.dependencies.len()
                    && #[trigger] old.wiring[j]->Some_0.dependencies[k] == i;
            if j == slot {
                assert(old.dependencies_of(slot).contains(i));
            }
            assert(occupied(new.wiring, j));
            assert(new.wiring[j]->Some_0.dependencies[k] == i);
        }
    }
}

/// Vacating a slot that is neither listed nor depended upon keeps the tree
/// sound.
pub proof fn lemma_vacated_sound(old: TreeView, slot: int)
    requires
        old.sound(),
        occupied(old.wiring, slot),
        !old.lists(slot),
        !old.has_dependent(slot),
    ensures
        old.vacated(slot).sound(),
        old.vacated(slot).retains(old),
{
    let new = old.vacated(slot);
    assert forall|i: int, k: int|
        occupied(new.wiring, i) && 0 <= k < new.wiring[i]->Some_0.dependencies.len() implies (#[trigger] child(
        new.wiring,
        i,
        k,
    )) is Some by {
        assert(occupied(old.wiring, i));
        assert(child(old.wiring, i, k) is Some);
        assert(old.wiring[i]->Some_0.dependencies[k] != slot);
    }
    assert forall|i: int| #[trigger] occupied(new.wiring, i) implies new.wiring[i]->Some_0.dependencies.len()
        == new.units[i].arity() by {
        assert(occupied(old.wiring, i));
    }
    assert(new.wired());
    assert forall|other: NodeId| #[trigger] new.nodes.contains_key(other) implies occupied(
        new.wiring,
        new.nodes[other] as int,
    ) && new.wiring[new.nodes[other] as int]->Some_0.id == other by {
        assert(old.nodes.contains_key(other));
    }
    assert(closed_under_dependencies(new.wiring));
    assert(agrees(new.wiring, new.units, old.wiring, old.units));
    assert forall|i: int|
        0 <= i < new.units.len() && occupied(new.wiring, i) && (#[trigger] new.units[i]).cached() is Some implies child(
        new.wiring,
        i,
        0,
    ) is Some && denote(new.wiring, new.units, child(new.wiring, i, 0)->Some_0, TaggedValue::Unit)
        == Ok::<TaggedValue, Fault>(new.units[i].cached()->Some_0) by {
        assert(occupied(old.wiring, i));
        assert(old.units[i].cached() is Some);
        assert(new.wiring[i]->Some_0.dependencies.len() == 1);
        assert(child(new.wiring, i, 0) is Some);
        lemma_caches_frame(new.wiring, new.units, old.wiring, old.units, i);
    }
}

/// The unit after a reset: a cache is emptied, every other unit is as it
/// was.
pub open spec fn reset_unit(unit: TypeErasedNode) -> TypeErasedNode {
    match unit {
        TypeErasedNode::Cache(_) => TypeErasedNode::Cache(CacheSlot::Empty),
        other => other,
    }
}

impl TreeView {
    /// The tree with the cache of the node listed for `id` emptied.
    pub open spec fn reset_at(self, id: NodeId) -> TreeView {
        TreeView {
            units: self.units.update(
                self.nodes[id] as int,
                reset_unit(self.units[self.nodes[id] as int]),
            ),
            ..self
        }
    }

    /// The tree after one instruction of a plan has been applied: a node that
    /// is listed is kept and reset, any other is constructed, listed, and
    /// recorded in the source map under its author-level path.
    pub open spec fn applied_one(
        self,
        id: NodeId,
        node: ProtoNodeView,
        chosen: Option<NodeConstructor>,
    ) -> Result<TreeView, ConstructionError> {
        if self.nodes.contains_key(id) {
            Ok(self.reset_at(id))
        } else {
            match self.footing(id, node, chosen) {
                Err(e) => Err(e),
                Ok((unit, deps)) => Ok(
                    TreeView {
                        source_map: self.source_map.insert(node.document_node_path, id),
                        ..self.installed(id, unit, deps)
                    },
                ),
            }
        }
    }

    /// The tree after the instructions from position `from` on have been
    /// applied in order, or the first failure.
    pub open spec fn applied(
        self,
        nodes: Seq<(NodeId, ProtoNodeView)>,
        records: Map<NodeId, NodeRecordView>,
        from: int,
    ) -> Result<TreeView, ConstructionError>
        decreases nodes.len() - from,
    {
        if from < 0 || from >= nodes.len() {
            Ok(self)
        } else {
            match self.applied_one(nodes[from].0, nodes[from].1, chosen_in(records, nodes[from].0)) {
                Err(e) => Err(e),
                Ok(next) => next.applied(nodes, records, from + 1),
            }
        }
    }

    /// The tree with every source-map entry dropped whose node is among
    /// `orphans`.
    pub open spec fn without_paths_to(self, orphans: Seq<NodeId>) -> TreeView {
        TreeView {
            source_map: Map::new(
                |p: Seq<NodeId>| self.source_map.contains_key(p) && !orphans.contains(self.source_map[p]),
                |p: Seq<NodeId>| self.source_map[p],
            ),
            ..self
        }
    }
}

/// Emptying the cache of a listed node keeps the tree well formed.
pub proof fn lemma_reset_wf(old: TreeView, id: NodeId)
    requires
        old.wf(),
        old.nodes.contains_key(id),
    ensures
        old.reset_at(id).wf(),
{
    let new = old.reset_at(id);
    let slot = old.nodes[id] as int;
    assert(occupied(old.wiring, slot));
    assert(same_shape(old.units, new.units));
    lemma_wired_shape(old, new.units);
    lemma_same_holders(old, new);
    assert forall|i: int|
        0 <= i < new.units.len() && occupied(new.wiring, i) && (#[trigger] new.units[i]).cached() is Some implies child(
        new.wiring,
        i,
        0,
    ) is Some && denote(new.wiring, new.units, child(new.wiring, i, 0)->Some_0, TaggedValue::Unit)
        == Ok::<TaggedValue, Fault>(new.units[i].cached()->Some_0) by {
        assert(i != slot);
        assert(old.units[i].cached() is Some);
        crate::arena::lemma_denote_shape(
            old.wiring,
            old.units,
            new.units,
            child(old.wiring, i, 0)->Some_0,
            TaggedValue::Unit,
        );
    }
}

/// Who holds a node depends on the listing and the wiring alone.
pub proof fn lemma_same_holders(before: TreeView, after: TreeView)
    requires
        before.nodes == after.nodes,
        before.wiring == after.wiring,
    ensures
        forall|except: Set<int>| #[trigger]
            before.compact_but(except) ==> after.compact_but(except),
{
    assert forall|except: Set<int>| #[trigger] before.compact_but(except) implies after.compact_but(
        except,
    ) by {
        assert forall|i: int| #[trigger]
            occupied(after.wiring, i) && !except.contains(i) implies after.held(i) by {
            assert(before.held(i));
            if before.lists(i) {
                assert(after.lists(i));
            } else {
                let (j, k) = choose|j: int, k: int|
                    occupied(before.wiring, j) && 0 <= k
                        < before.wiring[j]->Some_0.dependencies.len()
                        && #[trigger] before.wiring[j]->Some_0.dependencies[k] == i;
                assert(after.wiring[j]->Some_0.dependencies[k] == i);
            }
        }
    }
}

/// Changing cells only keeps a wiring proper.
pub proof fn lemma_wired_shape(before: TreeView, units: Units)
    requires
        before.wired(),
        same_shape(before.units, units),
    ensures
        (TreeView { units, ..before }).wired(),
{
    let after = TreeView { units, ..before };
    assert forall|i: int| #[trigger] occupied(after.wiring, i) implies after.wiring[i]->Some_0.dependencies.len()
        == after.units[i].arity() by {
        assert(before.units[i].shape() == units[i].shape());
    }
}

/// Evaluation yields what the node denotes and leaves every node denoting
/// what it did: the cells repeat work, they do not alter results.
pub proof fn lemma_evaluation_sound(tree: TreeView, id: NodeId, input: TaggedValue)
    requires
        tree.wf(),
    ensures
        tree.evaluated(id, input).1 == tree.value_of(id, input),
        tree.evaluated(id, input).0.wf(),
        tree.evaluated(id, input).0.nodes == tree.nodes,
        tree.evaluated(id, input).0.wiring == tree.wiring,
        forall|other: NodeId, x: TaggedValue|
            #[trigger] tree.evaluated(id, input).0.value_of(other, x) == tree.value_of(other, x),
{
    let after = tree.evaluated(id, input).0;
    if tree.nodes.contains_key(id) {
        lemma_step_sound(tree.wiring, tree.units, tree.nodes[id] as int, input);
        lemma_wired_shape(tree, after.units);
        assert(after == TreeView { units: after.units, ..tree });
        lemma_same_holders(tree, after);
        assert forall|other: NodeId, x: TaggedValue|
            #[trigger] after.value_of(other, x) == tree.value_of(other, x) by {
            if tree.nodes.contains_key(other) {
                lemma_denote_shape(tree.wiring, tree.units, after.units, tree.nodes[other] as int, x);
            }
        }
    }
}

/// Evaluating the same tree on the same input twice, with no update in
/// between, yields identical outcomes.
pub proof fn lemma_evaluation_repeatable(tree: TreeView, id: NodeId, input: TaggedValue)
    requires
        tree.wf(),
    ensures
        tree.evaluated(id, input).0.evaluated(id, input).1 == tree.evaluated(id, input).1,
{
    lemma_evaluation_sound(tree, id, input);
    lemma_evaluation_sound(tree.evaluated(id, input).0, id, input);
}

/// A populated cache answers with the value it holds.
pub proof fn lemma_cache_answers(tree: TreeView, id: NodeId)
    requires
        tree.wf(),
        tree.nodes.contains_key(id),
        tree.container(id).node.cached() is Some,
    ensures
        tree.evaluated(id, TaggedValue::Unit) == (
            tree,
            Ok::<TaggedValue, Fault>(tree.container(id).node.cached()->Some_0),
        ),
{
    assert(occupied(tree.wiring, tree.nodes[id] as int));
}

/// Where every one of `deps` from position `from` on is listed, none is
/// found unlisted, and the other way round.
pub proof fn lemma_first_unlisted(nodes: Map<NodeId, usize>, deps: Seq<NodeId>, from: int)
    requires
        0 <= from,
    ensures
        first_unlisted(nodes, deps, from) is None <==> forall|j: int|
            from <= j < deps.len() ==> nodes.contains_key(#[trigger] deps[j]),
    decreases deps.len() - from,
{
    if from < deps.len() {
        lemma_first_unlisted(nodes, deps, from + 1);
        if nodes.contains_key(deps[from]) {
            assert forall|j: int| from <= j < deps.len() && (forall|j: int|
                from + 1 <= j < deps.len() ==> nodes.contains_key(
                    #[trigger] deps[j],
                )) implies nodes.contains_key(#[trigger] deps[j]) by {}
        }
    }
}

/// Applying one instruction keeps the tree well formed, lists the node, and
/// leaves every node that was listed in its slot, denoting what it did; its
/// unit is as it was, but for the emptied cache of the node the instruction
/// names.
pub proof fn lemma_applied_one(
    tree: TreeView,
    id: NodeId,
    node: ProtoNodeView,
    chosen: Option<NodeConstructor>,
)
    requires
        tree.wf(),
        tree.applied_one(id, node, chosen) is Ok,
        tree.applied_one(id, node, chosen)->Ok_0.wiring.len() <= usize::MAX,
    ensures
        ({
            let next = tree.applied_one(id, node, chosen)->Ok_0;
            &&& next.wf()
            &&& next.nodes.dom() == tree.nodes.dom().insert(id)
            &&& (forall|other: NodeId| #[trigger]
                tree.nodes.contains_key(other) ==> next.nodes[other] == tree.nodes[other]
                    && next.wiring[next.nodes[other] as int] == tree.wiring[tree.nodes[other] as int]
                    && next.container(other).node == if other == id {
                    reset_unit(tree.container(other).node)
                } else {
                    tree.container(other).node
                })
            &&& (forall|other: NodeId, x: TaggedValue|
                tree.nodes.contains_key(other) ==> #[trigger] next.value_of(other, x)
                    == tree.value_of(other, x))
            &&& (!tree.nodes.contains_key(id) ==> next.container(id).node == tree.footing(
                id,
                node,
                chosen,
            )->Ok_0.0 && next.container(id).node.cached() is None)
        }),
{
    let next = tree.applied_one(id, node, chosen)->Ok_0;
    if tree.nodes.contains_key(id) {
        lemma_reset_wf(tree, id);
        assert(next.nodes.dom() =~= tree.nodes.dom().insert(id));
        assert(occupied(tree.wiring, tree.nodes[id] as int));
        assert forall|other: NodeId, x: TaggedValue|
            tree.nodes.contains_key(other) implies #[trigger] next.value_of(other, x)
            == tree.value_of(other, x) by {
            lemma_denote_shape(tree.wiring, tree.units, next.units, tree.nodes[other] as int, x);
        }
        assert forall|other: NodeId| #[trigger] tree.nodes.contains_key(other) implies next.nodes[other]
            == tree.nodes[other] && next.wiring[next.nodes[other] as int]
            == tree.wiring[tree.nodes[other] as int] && next.container(other).node == if other
            == id {
            reset_unit(tree.container(other).node)
        } else {
            tree.container(other).node
        } by {
            assert(occupied(tree.wiring, tree.nodes[other] as int));
            if other != id && tree.nodes[other] == tree.nodes[id] {
                assert(tree.wiring[tree.nodes[other] as int]->Some_0.id == other);
            }
        }
    } else {
        let (unit, deps) = tree.footing(id, node, chosen)->Ok_0;
        let built = tree.installed(id, unit, deps);
        lemma_vacancy(tree.wiring, 0);
        if let ConstructionArgsView::Nodes(ids) = node.construction_args {
            lemma_first_unlisted(tree.nodes, node.dependencies(), 0);
            assert forall|k: int| 0 <= k < deps.len() implies occupied(
                tree.wiring,
                #[trigger] deps[k] as int,
            ) by {
                assert(tree.nodes.contains_key(node.dependencies()[k]));
            }
        }
        lemma_installed_sound(tree, id, unit, deps);
        lemma_installed_compact(tree, id, unit, deps, Set::empty());
        assert(next.wf()) by {
            assert(next == TreeView { source_map: next.source_map, ..built });
            lemma_same_holders(built, next);
        }
        assert(next.nodes.dom() =~= tree.nodes.dom().insert(id));
        assert(closed_under_dependencies(tree.wiring));
        assert forall|other: NodeId, x: TaggedValue|
            tree.nodes.contains_key(other) implies #[trigger] next.value_of(other, x)
            == tree.value_of(other, x) by {
            assert(occupied(tree.wiring, tree.nodes[other] as int));
            lemma_denote_frame(
                tree.wiring,
                tree.units,
                next.wiring,
                next.units,
                tree.nodes[other] as int,
                x,
            );
        }
        assert forall|other: NodeId| #[trigger] tree.nodes.contains_key(other) implies next.nodes[other]
            == tree.nodes[other] && next.wiring[next.nodes[other] as int]
            == tree.wiring[tree.nodes[other] as int] && next.container(other).node
            == tree.container(other).node by {
            assert(occupied(tree.wiring, tree.nodes[other] as int));
        }
    }
}

/// Applying a plan never shrinks the arena.
pub proof fn lemma_applied_grows(
    tree: TreeView,
    nodes: Seq<(NodeId, ProtoNodeView)>,
    records: Map<NodeId, NodeRecordView>,
    from: int,
)
    requires
        0 <= from,
        tree.applied(nodes, records, from) is Ok,
    ensures
        tree.wiring.len() <= tree.applied(nodes, records, from)->Ok_0.wiring.len(),
    decreases nodes.len() - from,
{
    if from < nodes.len() {
        let next = tree.applied_one(
            nodes[from].0,
            nodes[from].1,
            chosen_in(records, nodes[from].0),
        )->Ok_0;
        lemma_vacancy(tree.wiring, 0);
        lemma_applied_grows(next, nodes, records, from + 1);
    }
}

/// Whether the plan names `id` at position `from` or later.
pub open spec fn named_from(nodes: Seq<(NodeId, ProtoNodeView)>, id: NodeId, from: int) -> bool {
    exists|j: int| from <= j < nodes.len() && (#[trigger] nodes[j]).0 == id
}

/// Applying a plan keeps the tree well formed, lists exactly the nodes that
/// were listed and those the plan names, and leaves every node that was
/// listed in its slot, denoting what it did. A listed node the plan does not
/// name keeps its unit, cell and all; one the plan names has its cache
/// emptied.
pub proof fn lemma_applied(
    tree: TreeView,
    nodes: Seq<(NodeId, ProtoNodeView)>,
    records: Map<NodeId, NodeRecordView>,
    from: int,
)
    requires
        tree.wf(),
        0 <= from,
        tree.applied(nodes, records, from) is Ok,
        tree.applied(nodes, records, from)->Ok_0.wiring.len() <= usize::MAX,
    ensures
        ({
            let all = tree.applied(nodes, records, from)->Ok_0;
            &&& all.wf()
            &&& (forall|id: NodeId|
                all.nodes.contains_key(id) <==> #[trigger] tree.nodes.contains_key(id)
                    || named_from(nodes, id, from))
            &&& (forall|id: NodeId| #[trigger]
                tree.nodes.contains_key(id) ==> all.nodes[id] == tree.nodes[id]
                    && all.container(id).node == if named_from(nodes, id, from) {
                    reset_unit(tree.container(id).node)
                } else {
                    tree.container(id).node
                })
            &&& (forall|id: NodeId, x: TaggedValue|
                tree.nodes.contains_key(id) ==> #[trigger] all.value_of(id, x) == tree.value_of(
                    id,
                    x,
                ))
        }),
    decreases nodes.len() - from,
{
    let all = tree.applied(nodes, records, from)->Ok_0;
    if from < nodes.len() {
        let id0 = nodes[from].0;
        let chosen = chosen_in(records, id0);
        let next = tree.applied_one(id0, nodes[from].1, chosen)->Ok_0;
        lemma_applied_grows(next, nodes, records, from + 1);
        lemma_applied_one(tree, id0, nodes[from].1, chosen);
        lemma_applied(next, nodes, records, from + 1);
        assert forall|id: NodeId|
            all.nodes.contains_key(id) <==> #[trigger] tree.nodes.contains_key(id) || named_from(
                nodes,
                id,
                from,
            ) by {
            assert(next.nodes.contains_key(id) <==> tree.nodes.contains_key(id) || id == id0) by {
                assert(next.nodes.dom().contains(id) <==> tree.nodes.dom().insert(id0).contains(
                    id,
                ));
            }
            if named_from(nodes, id, from + 1) {
                let j = choose|j: int| from + 1 <= j < nodes.len() && (#[trigger] nodes[j]).0 == id;
                assert(from <= j < nodes.len() && nodes[j].0 == id);
            }
            if named_from(nodes, id, from) && id != id0 {
                let j = choose|j: int| from <= j < nodes.len() && (#[trigger] nodes[j]).0 == id;
                assert(from + 1 <= j < nodes.len() && nodes[j].0 == id);
            }
            if id == id0 {
                assert(nodes[from].0 == id);
            }
        }
        assert forall|id: NodeId| #[trigger] tree.nodes.contains_key(id) implies all.nodes[id]
            == tree.nodes[id] && all.container(id).node == if named_from(nodes, id, from) {
            reset_unit(tree.container(id).node)
        } else {
            tree.container(id).node
        } by {
            assert(next.nodes.dom().contains(id));
            assert(next.nodes.contains_key(id));
            if named_from(nodes, id, from + 1) {
                let j = choose|j: int| from + 1 <= j < nodes.len() && (#[trigger] nodes[j]).0 == id;
                assert(from <= j < nodes.len() && nodes[j].0 == id);
            }
            if named_from(nodes, id, from) && id != id0 {
                let j = choose|j: int| from <= j < nodes.len() && (#[trigger] nodes[j]).0 == id;
                assert(from + 1 <= j < nodes.len() && nodes[j].0 == id);
            }
            if id == id0 {
                assert(nodes[from].0 == id);
            }
        }
        assert forall|id: NodeId, x: TaggedValue|
            tree.nodes.contains_key(id) implies #[trigger] all.value_of(id, x) == tree.value_of(
            id,
            x,
        ) by {
            assert(next.nodes.dom().contains(id));
            assert(next.nodes.contains_key(id));
            assert(next.value_of(id, x) == tree.value_of(id, x));
        }
    }
}

/// After a plan has been applied, a node that was listed and that the plan
/// does not name still holds what its cache held, a node the plan names has
/// an empty cache, so that no value from before is handed out for it, and
/// either way the node yields what it yielded before.
pub proof fn lemma_update_cache_correct(
    tree: TreeView,
    nodes: Seq<(NodeId, ProtoNodeView)>,
    records: Map<NodeId, NodeRecordView>,
    id: NodeId,
    input: TaggedValue,
)
    requires
        tree.wf(),
        tree.nodes.contains_key(id),
        tree.applied(nodes, records, 0) is Ok,
        tree.applied(nodes, records, 0)->Ok_0.wiring.len() <= usize::MAX,
    ensures
        ({
            let all = tree.applied(nodes, records, 0)->Ok_0;
            &&& all.nodes.contains_key(id)
            &&& !named_from(nodes, id, 0) ==> all.container(id) == tree.container(id)
            &&& named_from(nodes, id, 0) ==> all.container(id).node.cached() is None
            &&& all.evaluated(id, input).1 == tree.value_of(id, input)
        }),
{
    let all = tree.applied(nodes, records, 0)->Ok_0;
    lemma_applied(tree, nodes, records, 0);
    lemma_evaluation_sound(all, id, input);
    assert(all.value_of(id, input) == tree.value_of(id, input));
}

/// After a plan has been applied, a node that it names and that was not
/// listed before is built from the first instruction that names it, with an
/// empty cell, and yields what that construction denotes.
pub proof fn lemma_update_constructs(
    tree: TreeView,
    nodes: Seq<(NodeId, ProtoNodeView)>,
    records: Map<NodeId, NodeRecordView>,
    from: int,
    k: int,
    input: TaggedValue,
)
    requires
        tree.wf(),
        0 <= from <= k < nodes.len(),
        !tree.nodes.contains_key(nodes[k].0),
        forall|j: int| from <= j < k ==> (#[trigger] nodes[j]).0 != nodes[k].0,
        tree.applied(nodes, records, from) is Ok,
        tree.applied(nodes, records, from)->Ok_0.wiring.len() <= usize::MAX,
    ensures
        ({
            let all = tree.applied(nodes, records, from)->Ok_0;
            let id = nodes[k].0;
            &&& all.nodes.contains_key(id)
            &&& all.container(id).node.shape() == match nodes[k].1.construction_args {
                ConstructionArgsView::Value(v) => TypeErasedNode::Value(v),
                _ => unit_of(chosen_in(records, id)->Some_0),
            }
            &&& all.container(id).node.cached() is None
            &&& all.evaluated(id, input).1 == all.value_of(id, input)
        }),
    decreases k - from,
{
    let all = tree.applied(nodes, records, from)->Ok_0;
    let id = nodes[k].0;
    let id0 = nodes[from].0;
    let chosen = chosen_in(records, id0);
    let next = tree.applied_one(id0, nodes[from].1, chosen)->Ok_0;
    lemma_applied_grows(next, nodes, records, from + 1);
    lemma_applied_one(tree, id0, nodes[from].1, chosen);
    lemma_applied(next, nodes, records, from + 1);
    lemma_applied(tree, nodes, records, from);
    lemma_evaluation_sound(all, id, input);
    if from == k {
        assert(next.nodes.dom().contains(id));
        assert(next.nodes.contains_key(id));
    } else {
        assert(!next.nodes.contains_key(id)) by {
            assert(next.nodes.dom().contains(id) == tree.nodes.dom().insert(id0).contains(id));
        }
        lemma_update_constructs(next, nodes, records, from + 1, k, input);
    }
}

/// A rank that no node of the arena from position `from` on exceeds.
pub open spec fn highest_rank(wiring: Wiring, from: int) -> nat
    decreases wiring.len() - from,
{
    if from < 0 || from >= wiring.len() {
        0
    } else {
        let rest = highest_rank(wiring, from + 1);
        if rank_of(wiring, from) > rest {
            rank_of(wiring, from)
        } else {
            rest
        }
    }
}

/// No node at position `from` or later exceeds the highest rank from there.
pub proof fn lemma_highest_rank(wiring: Wiring, from: int, i: int)
    requires
        0 <= from <= i < wiring.len(),
    ensures
        rank_of(wiring, i) <= highest_rank(wiring, from),
    decreases wiring.len() - from,
{
    if from < i {
        lemma_highest_rank(wiring, from + 1, i);
    }
}

/// Whatever holds a node in one of two well-formed parts of an arena with
/// the same listing holds it in the other.
proof fn lemma_retained_alike(old: TreeView, a: TreeView, b: TreeView, i: int)
    requires
        a.retains(old),
        b.retains(old),
        a.nodes == b.nodes,
        a.wf(),
        b.wf(),
        occupied(a.wiring, i),
    ensures
        occupied(b.wiring, i),
    decreases highest_rank(old.wiring, 0) - rank_of(old.wiring, i),
{
    assert(a.held(i));
    if a.lists(i) {
        assert(b.nodes.contains_key(a.wiring[i]->Some_0.id));
    } else {
        let (j, k) = choose|j: int, k: int|
            occupied(a.wiring, j) && 0 <= k < a.wiring[j]->Some_0.dependencies.len()
                && #[trigger] a.wiring[j]->Some_0.dependencies[k] == i;
        assert(child(a.wiring, j, k) is Some);
        assert(rank_of(old.wiring, i) < rank_of(old.wiring, j));
        lemma_highest_rank(old.wiring, 0, j);
        lemma_retained_alike(old, a, b, j);
        assert(b.wiring[j] == a.wiring[j]);
        assert(child(b.wiring, j, k) is Some);
    }
}

/// What is left of an arena after nodes have gone is determined by the
/// listing: two well-formed trees that each hold a part of the same arena,
/// unchanged, and list the same nodes hold the same part.
pub proof fn lemma_retained_unique(old: TreeView, a: TreeView, b: TreeView)
    requires
        a.retains(old),
        b.retains(old),
        a.nodes == b.nodes,
        a.wf(),
        b.wf(),
    ensures
        a.wiring == b.wiring,
        a.units == b.units,
{
    assert forall|i: int| 0 <= i < a.wiring.len() implies a.wiring[i] == b.wiring[i] by {
        if occupied(a.wiring, i) {
            lemma_retained_alike(old, a, b, i);
        }
        if occupied(b.wiring, i) {
            lemma_retained_alike(old, b, a, i);
        }
    }
    assert(a.wiring =~= b.wiring);
}

/// Downcast safety in the tree: a node that takes the unit value and is
/// handed a value of another type reports the mismatch, names itself, and is
/// left as it was.
pub proof fn lemma_unit_expected(tree: TreeView, id: NodeId, input: TaggedValue)
    requires
        tree.wf(),
        tree.nodes.contains_key(id),
        tree.container(id).node is Add || tree.container(id).node is Cache,
        input != TaggedValue::Unit,
    ensures
        tree.evaluated(id, input) == (
            tree,
            Err::<TaggedValue, Fault>(
                Fault::Downcast {
                    node: id,
                    error: crate::value::DowncastError {
                        expected: crate::types::Primitive::Unit,
                        found: input.tag(),
                    },
                },
            ),
        ),
{
    assert(occupied(tree.wiring, tree.nodes[id] as int));
}

} // verus!
