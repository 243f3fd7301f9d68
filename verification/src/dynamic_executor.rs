//! The executor: a typing context and an execution tree kept in step, with
//! the two-generation rule for nodes that have left the plan.

use vstd::prelude::*;
use crate::arena::Fault;
use crate::borrow_tree::{BorrowTree, ConstructionError};
use crate::tree_model::{lemma_applied, named_from, TreeView};
use crate::proto::ProtoNetwork;
use crate::registry::NodeRegistry;
use crate::source_map::contains_id;
use crate::types::Type;
use crate::typing::{infer_all, NodeRecordView, TypeError, TypingContext};
use crate::value::{DynAny, TaggedValue};
use crate::NodeId;

verus! {

/// Why a plan was not taken over.
#[derive(Debug, PartialEq)]
pub enum ExecutorError {
    /// The plan does not type-check; nothing was constructed.
    Type(TypeError),
    /// A node of the plan could not be constructed.
    Construction(ConstructionError),
}

/// The nodes that become orphans when a tree that lists `listed` is updated
/// to a plan that names `plan`: those listed that the plan does not name.
pub open spec fn orphans_after(listed: Set<NodeId>, plan: Seq<NodeId>) -> Set<NodeId> {
    Set::new(|id: NodeId| listed.contains(id) && !plan.contains(id))
}

/// The nodes that are freed by such an update: those that were orphans
/// already and are orphans again.
pub open spec fn freed_after(listed: Set<NodeId>, orphaned: Set<NodeId>, plan: Seq<NodeId>) -> Set<
    NodeId,
> {
    Set::new(|id: NodeId| orphaned.contains(id) && orphans_after(listed, plan).contains(id))
}

/// The nodes listed after such an update: those listed before and those the
/// plan names, but for the freed ones.
pub open spec fn listed_after(listed: Set<NodeId>, orphaned: Set<NodeId>, plan: Seq<NodeId>) -> Set<
    NodeId,
> {
    Set::new(
        |id: NodeId|
            (listed.contains(id) || plan.contains(id)) && !freed_after(listed, orphaned, plan).contains(
                id,
            ),
    )
}

/// The two-generation rule. A node that a plan names and the next two plans
/// do not name appears among the orphans of the update that removes it and
/// is still listed after that update; after the following update it is no
/// longer listed.
pub proof fn lemma_two_generation_orphans(
    listed: Set<NodeId>,
    orphaned: Set<NodeId>,
    named: Seq<NodeId>,
    removing: Seq<NodeId>,
    following: Seq<NodeId>,
    id: NodeId,
)
    requires
        named.contains(id),
        !removing.contains(id),
        !following.contains(id),
    ensures
        ({
            let listed0 = listed_after(listed, orphaned, named);
            let orphaned0 = orphans_after(listed, named);
            let listed1 = listed_after(listed0, orphaned0, removing);
            let orphaned1 = orphans_after(listed0, removing);
            let listed2 = listed_after(listed1, orphaned1, following);
            &&& listed0.contains(id)
            &&& orphaned1.contains(id)
            &&& listed1.contains(id)
            &&& !listed2.contains(id)
        }),
{
}

/// A node that a plan names again in time is not freed: an orphan of one
/// update that the next plan names stays listed.
pub proof fn lemma_orphan_revived(
    listed: Set<NodeId>,
    orphaned: Set<NodeId>,
    plan: Seq<NodeId>,
    id: NodeId,
)
    requires
        plan.contains(id),
    ensures
        listed_after(listed, orphaned, plan).contains(id),
        !orphans_after(listed, plan).contains(id),
{
}

/// The mathematical content of a [`DynamicExecutor`].
pub ghost struct ExecutorView {
    /// The designated output of the plan last taken over.
    pub output: NodeId,
    /// The execution tree.
    pub tree: TreeView,
    /// The record of each typed node.
    pub records: Map<NodeId, NodeRecordView>,
    /// The orphans of the last update.
    pub orphaned_nodes: Seq<NodeId>,
}

/// Evaluates a plan and keeps it up to date across edits.
#[derive(Clone)]
pub struct DynamicExecutor {
    output: NodeId,
    tree: BorrowTree,
    typing_context: TypingContext,
    // The orphans of the last update stay in the tree for one more update, so
    // that they can still be introspected.
    orphaned_nodes: Vec<NodeId>,
}

impl View for DynamicExecutor {
    type V = ExecutorView;

    closed spec fn view(&self) -> ExecutorView {
        ExecutorView {
            output: self.output,
            tree: self.tree@,
            records: self.typing_context.records(),
            orphaned_nodes: self.orphaned_nodes@,
        }
    }
}

impl DynamicExecutor {
    /// The invariant of the executor; every operation keeps it.
    pub closed spec fn wf(&self) -> bool {
        self.tree.wf()
    }

    /// The registry that plans are typed against.
    pub closed spec fn registry(&self) -> NodeRegistry {
        self.typing_context.registry()
    }

    /// What the invariant says of the executor's content.
    pub proof fn lemma_wf(&self)
        requires
            self.wf(),
        ensures
            self@.tree.wf(),
    {
        self.tree.lemma_wf();
    }

    /// Type-checks a plan against the registry and builds its tree.
    ///
    /// Fails with the first node that cannot be typed, before anything is
    /// constructed, or else with the first node that cannot be constructed.
    pub fn new(proto_network: ProtoNetwork, registry: NodeRegistry) -> (r: Result<
        Self,
        ExecutorError,
    >)
        ensures
            match infer_all(registry, Map::empty(), proto_network@.nodes, 0) {
                Err(e) => r is Err && r->Err_0 == ExecutorError::Type(e),
                Ok(records) => match BorrowTree::empty_view().applied(
                    proto_network@.nodes,
                    records,
                    0,
                ) {
                    Err(e) => r is Err && r->Err_0 == ExecutorError::Construction(e),
                    Ok(tree) => r is Ok && r->Ok_0.wf() && r->Ok_0.registry() == registry
                        && r->Ok_0@ == (ExecutorView {
                        output: proto_network.output,
                        tree,
                        records,
                        orphaned_nodes: Seq::empty(),
                    }),
                },
            },
    {
        let mut typing_context = TypingContext::new(registry);
        match typing_context.update(&proto_network) {
            Ok(()) => {},
            Err(e) => {
                return Err(ExecutorError::Type(e));
            },
        }
        let output = proto_network.output;
        let tree = match BorrowTree::new(proto_network, &typing_context) {
            Ok(tree) => tree,
            Err(e) => {
                return Err(ExecutorError::Construction(e));
            },
        };
        Ok(DynamicExecutor { tree, output, typing_context, orphaned_nodes: Vec::new() })
    }

    /// Takes over a new plan.
    ///
    /// The plan is type-checked first; where that fails nothing is
    /// constructed. Then the tree is reconciled with the plan. The nodes that
    /// thereby become orphans stay in the tree; those that were orphans of
    /// the update before and are orphans again are freed. On failure the
    /// executor is unchanged.
    pub fn update(&mut self, proto_network: ProtoNetwork) -> (r: Result<(), ExecutorError>)
        requires
            old(self).wf(),
        ensures
            final(self).wf(),
            final(self).registry() == old(self).registry(),
            match infer_all(old(self).registry(), old(self)@.records, proto_network@.nodes, 0) {
                Err(e) => r is Err && r->Err_0 == ExecutorError::Type(e) && final(self)@ == old(self)@,
                Ok(records) => match old(self)@.tree.applied(proto_network@.nodes, records, 0) {
                    Err(e) => r is Err && r->Err_0 == ExecutorError::Construction(e) && final(self)@ == old(self)@,
                    Ok(tree) => {
                        &&& r is Ok
                        &&& final(self)@.output == proto_network.output
                        &&& final(self)@.records == records
                        &&& final(self)@.orphaned_nodes.no_duplicates()
                        &&& final(self)@.orphaned_nodes.to_set() == orphans_after(
                            old(self)@.tree.nodes.dom(),
                            proto_network.ids(),
                        )
                        &&& final(self)@.tree.nodes == tree.nodes.remove_keys(
                            freed_after(
                                old(self)@.tree.nodes.dom(),
                                old(self)@.orphaned_nodes.to_set(),
                                proto_network.ids(),
                            ),
                        )
                        &&& final(self)@.tree.nodes.dom() == listed_after(
                            old(self)@.tree.nodes.dom(),
                            old(self)@.orphaned_nodes.to_set(),
                            proto_network.ids(),
                        )
                        &&& final(self)@.tree.source_map == tree.without_paths_to(
                            final(self)@.orphaned_nodes,
                        ).source_map
                        &&& final(self)@.tree.retains(tree)
                    },
                },
            },
    {
        let ghost before = self@;
        let ghost base = self.typing_context.records();
        let ghost plan = proto_network@.nodes;
        proof {
            self.tree.lemma_wf();
        }
        let added = match self.typing_context.extend(&proto_network) {
            Ok(added) => added,
            Err(e) => {
                return Err(ExecutorError::Type(e));
            },
        };
        let output = proto_network.output;
        let ghost ids = proto_network.ids();
        let ghost typed = self.typing_context.records();
        let new_orphans = match self.tree.update(proto_network, &self.typing_context) {
            Ok(orphans) => orphans,
            Err(e) => {
                self.typing_context.retract(&added, Ghost(base));
                return Err(ExecutorError::Construction(e));
            },
        };
        let slots = self.tree.slots();
        let ghost reconciled = self.tree@;
        let ghost listed = before.tree.nodes.dom();
        assert forall|id: NodeId|
            new_orphans@.to_set().contains(id) == orphans_after(listed, ids).contains(id) by {
            assert(new_orphans@.to_set().contains(id) == new_orphans@.contains(id));
            assert(listed.contains(id) == before.tree.nodes.contains_key(id));
        }
        assert(new_orphans@.to_set() =~= orphans_after(listed, ids));
        self.output = output;
        let mut j: usize = 0;
        while j < self.orphaned_nodes.len()
            invariant
                j <= self.orphaned_nodes@.len(),
                self.tree.wf(),
                self.orphaned_nodes@ == before.orphaned_nodes,
                self.typing_context.records() == typed,
                self.typing_context.registry() == old(self).typing_context.registry(),
                self.output == output,
                new_orphans@.to_set() == orphans_after(listed, ids),
                self.tree@.source_map == reconciled.source_map,
                self.tree@.retains(reconciled),
                self.tree@.nodes == reconciled.nodes.remove_keys(
                    Set::new(
                        |id: NodeId|
                            before.orphaned_nodes.take(j as int).contains(id)
                                && new_orphans@.contains(id),
                    ),
                ),
            decreases self.orphaned_nodes.len() - j,
        {
            let node_id = self.orphaned_nodes[j];
            let ghost current = self.tree@;
            if contains_id(new_orphans.as_slice(), node_id) {
                self.tree.free_node(node_id);
            }
            proof {
                let shorter = before.orphaned_nodes.take(j as int);
                let longer = before.orphaned_nodes.take(j + 1);
                assert(longer =~= shorter.push(node_id));
                assert forall|id: NodeId| longer.contains(id) <==> shorter.contains(id) || id
                    == node_id by {
                    if shorter.contains(id) {
                        let a = choose|a: int| 0 <= a < shorter.len() && shorter[a] == id;
                        assert(longer[a] == id);
                    }
                    if id == node_id {
                        assert(longer[j as int] == id);
                    }
                }
                assert(self.tree@.nodes =~= reconciled.nodes.remove_keys(
                    Set::new(|id: NodeId| longer.contains(id) && new_orphans@.contains(id)),
                ));
                assert(self.tree@.retains(reconciled)) by {
                    assert forall|i: int| #[trigger]
                        crate::arena::occupied(self.tree@.wiring, i) implies crate::arena::occupied(
                        reconciled.wiring,
                        i,
                    ) && self.tree@.wiring[i] == reconciled.wiring[i] by {
                        assert(crate::arena::occupied(current.wiring, i));
                    }
                }
            }
            j += 1;
        }
        proof {
            assert(before.orphaned_nodes.take(before.orphaned_nodes.len() as int)
                =~= before.orphaned_nodes);
            assert(Set::new(
                |id: NodeId| before.orphaned_nodes.contains(id) && new_orphans@.contains(id),
            ) =~= freed_after(listed, before.orphaned_nodes.to_set(), ids));
        }
        proof {
            let all = before.tree.applied(plan, typed, 0)->Ok_0;
            assert(all.wiring == reconciled.wiring);
            lemma_applied(before.tree, plan, typed, 0);
            assert forall|id: NodeId| named_from(plan, id, 0) == ids.contains(id) by {
                if named_from(plan, id, 0) {
                    let j = choose|j: int| 0 <= j < plan.len() && (#[trigger] plan[j]).0 == id;
                    assert(ids[j] == id);
                }
                if ids.contains(id) {
                    let j = choose|j: int| 0 <= j < ids.len() && ids[j] == id;
                    assert(plan[j].0 == id);
                }
            }
            assert(self.tree@.nodes.dom() =~= listed_after(
                listed,
                before.orphaned_nodes.to_set(),
                ids,
            )) by {
                assert forall|id: NodeId|
                    self.tree@.nodes.dom().contains(id) == listed_after(
                        listed,
                        before.orphaned_nodes.to_set(),
                        ids,
                    ).contains(id) by {
                    assert(all.nodes.contains_key(id) <==> before.tree.nodes.contains_key(id)
                        || named_from(plan, id, 0));
                    assert(reconciled.nodes == all.nodes);
                }
            }
        }
        self.orphaned_nodes = new_orphans;
        Ok(())
    }

    /// Whether the tree lists the node.
    pub fn contains(&self, id: NodeId) -> (r: bool)
        requires
            self.wf(),
        ensures
            r == self@.tree.nodes.contains_key(id),
    {
        self.tree.get(id).is_some()
    }

    /// The orphans of the last update.
    pub fn orphaned_nodes(&self) -> (r: &Vec<NodeId>)
        ensures
            r@ == self@.orphaned_nodes,
    {
        &self.orphaned_nodes
    }

    /// The last value observed by the node that realizes an author-level
    /// path.
    pub fn introspect(&self, node_path: &[NodeId]) -> (r: Option<Option<TaggedValue>>)
        requires
            self.wf(),
        ensures
            r == self@.tree.introspected(node_path@),
    {
        self.tree.introspect(node_path)
    }

    /// The type the plan's output node takes, if that node has been typed.
    pub fn input_type(&self) -> (r: Option<Type>)
        ensures
            r == if self@.records.contains_key(self@.output) {
                Some(self@.records[self@.output].types.input)
            } else {
                None
            },
    {
        match self.typing_context.type_of(self.output) {
            Some(node_io) => Some(node_io.input.clone()),
            None => None,
        }
    }

    /// The type the plan's output node produces, if that node has been
    /// typed.
    pub fn output_type(&self) -> (r: Option<Type>)
        ensures
            r == if self@.records.contains_key(self@.output) {
                Some(self@.records[self@.output].types.output)
            } else {
                None
            },
    {
        match self.typing_context.type_of(self.output) {
            Some(node_io) => Some(node_io.output.clone()),
            None => None,
        }
    }

    /// Evaluates the plan's output node on the erased form of `input`.
    pub fn execute<I: DynAny>(&mut self, input: I) -> (r: Result<TaggedValue, Fault>)
        requires
            old(self).wf(),
        ensures
            final(self).wf(),
            final(self).registry() == old(self).registry(),
            final(self)@.output == old(self)@.output,
            final(self)@.records == old(self)@.records,
            final(self)@.orphaned_nodes == old(self)@.orphaned_nodes,
            (final(self)@.tree, r) == old(self)@.tree.evaluated(
                old(self)@.output,
                input.erased(),
            ),
    {
        self.tree.eval_tagged_value(self.output, input)
    }
}

impl Default for DynamicExecutor {
    /// An executor over an empty registry, without a plan.
    fn default() -> (r: Self)
        ensures
            r.wf(),
            r.registry().entries@.len() == 0,
            r@ == (ExecutorView {
                output: 0,
                tree: BorrowTree::empty_view(),
                records: Map::empty(),
                orphaned_nodes: Seq::empty(),
            }),
    {
        DynamicExecutor {
            output: 0,
            tree: BorrowTree::default(),
            typing_context: TypingContext::default(),
            orphaned_nodes: Vec::new(),
        }
    }
}

} // verus!
