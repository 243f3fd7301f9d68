//! Building a construction plan instruction by instruction, such that the
//! invariant of a plan holds of what is built.

use vstd::prelude::*;
use crate::flatten::CompileError;
use crate::proto::{
    appears_before, plan_ids, plan_view, producers_precede, ConstructionArgs, ProtoNetwork,
    ProtoNode, ProtoNodeView,
};
use crate::NodeId;

verus! {

/// The mathematical content of a [`PlanBuilder`].
pub ghost struct PlanBuilderView {
    /// The instructions so far, in construction order.
    pub nodes: Seq<(NodeId, ProtoNodeView)>,
    /// The instructions so far that take an input of the network.
    pub inputs: Seq<NodeId>,
}

/// The first of `deps`, from position `from` on, that is not among `ids`.
pub open spec fn first_absent(ids: Seq<NodeId>, deps: Seq<NodeId>, from: int) -> Option<NodeId>
    decreases deps.len() - from,
{
    if from < 0 || from >= deps.len() {
        None
    } else if !ids.contains(deps[from]) {
        Some(deps[from])
    } else {
        first_absent(ids, deps, from + 1)
    }
}

impl PlanBuilderView {
    /// The plan without instructions.
    pub open spec fn empty() -> PlanBuilderView {
        PlanBuilderView { nodes: Seq::empty(), inputs: Seq::empty() }
    }

    /// The plan after an instruction has been appended, or the reason it
    /// cannot be: its identifier is taken, or it depends on an instruction
    /// that the plan does not hold yet. `culprit` is the node that the
    /// failure is reported for.
    pub open spec fn pushed(self, id: NodeId, node: ProtoNodeView, culprit: NodeId) -> Result<
        PlanBuilderView,
        CompileError,
    > {
        if plan_ids(self.nodes).contains(id) {
            Err(CompileError::IdCollision { node: culprit })
        } else if let Some(reference) = first_absent(plan_ids(self.nodes), node.dependencies(), 0) {
            Err(CompileError::DanglingReference { node: culprit, reference })
        } else {
            Ok(
                PlanBuilderView {
                    nodes: self.nodes.push((id, node)),
                    inputs: if node.input is Network {
                        self.inputs.push(id)
                    } else {
                        self.inputs
                    },
                },
            )
        }
    }

    /// The invariant of a plan under construction.
    pub open spec fn wf(self) -> bool {
        plan_ids(self.nodes).no_duplicates() && producers_precede(self.nodes)
    }
}

/// Where every one of `deps` from position `from` on is among `ids`, none
/// is found absent, and the other way round.
pub proof fn lemma_first_absent(ids: Seq<NodeId>, deps: Seq<NodeId>, from: int)
    requires
        0 <= from,
    ensures
        first_absent(ids, deps, from) is None <==> forall|j: int|
            from <= j < deps.len() ==> ids.contains(#[trigger] deps[j]),
    decreases deps.len() - from,
{
    if from < deps.len() {
        lemma_first_absent(ids, deps, from + 1);
    }
}

/// Appending an instruction keeps the invariant of a plan.
pub proof fn lemma_pushed_wf(plan: PlanBuilderView, id: NodeId, node: ProtoNodeView, culprit: NodeId)
    requires
        plan.wf(),
        plan.pushed(id, node, culprit) is Ok,
    ensures
        plan.pushed(id, node, culprit)->Ok_0.wf(),
{
    let next = plan.pushed(id, node, culprit)->Ok_0;
    let ids = plan_ids(plan.nodes);
    assert(plan_ids(next.nodes) =~= ids.push(id));
    assert forall|a: int, b: int|
        0 <= a < plan_ids(next.nodes).len() && 0 <= b < plan_ids(next.nodes).len() && a
            != b implies plan_ids(next.nodes)[a] != plan_ids(next.nodes)[b] by {
        if a == ids.len() {
            assert(ids[b] == plan_ids(next.nodes)[b]);
        } else if b == ids.len() {
            assert(ids[a] == plan_ids(next.nodes)[a]);
        } else {
            assert(ids[a] == plan_ids(next.nodes)[a]);
            assert(ids[b] == plan_ids(next.nodes)[b]);
        }
    }
    lemma_first_absent(ids, node.dependencies(), 0);
    assert forall|k: int, j: int|
        0 <= k < next.nodes.len() && 0 <= j < next.nodes[k].1.dependencies().len() implies appears_before(
        next.nodes,
        k,
        #[trigger] next.nodes[k].1.dependencies()[j],
    ) by {
        if k < plan.nodes.len() {
            assert(next.nodes[k] == plan.nodes[k]);
            let dep = plan.nodes[k].1.dependencies()[j];
            assert(appears_before(plan.nodes, k, dep));
            let i = choose|i: int| 0 <= i < k && i < plan.nodes.len() && (#[trigger] plan.nodes[i]).0 == dep;
            assert(next.nodes[i] == plan.nodes[i]);
        } else {
            let dep = node.dependencies()[j];
            assert(ids.contains(dep));
            let i = choose|i: int| 0 <= i < ids.len() && ids[i] == dep;
            assert(next.nodes[i].0 == dep);
        }
    }
}

/// A construction plan under construction.
#[derive(Debug)]
pub struct PlanBuilder {
    nodes: Vec<(NodeId, ProtoNode)>,
    inputs: Vec<NodeId>,
}

impl View for PlanBuilder {
    type V = PlanBuilderView;

    closed spec fn view(&self) -> PlanBuilderView {
        PlanBuilderView { nodes: plan_view(self.nodes@), inputs: self.inputs@ }
    }
}

impl PlanBuilder {
    /// A plan without instructions.
    pub fn new() -> (r: Self)
        ensures
            r@ == PlanBuilderView::empty(),
            r@.wf(),
    {
        let r = PlanBuilder { nodes: Vec::new(), inputs: Vec::new() };
        assert(plan_view(r.nodes@) =~= Seq::<(NodeId, ProtoNodeView)>::empty());
        assert(plan_ids(r@.nodes) =~= Seq::<NodeId>::empty());
        r
    }

    /// Whether the plan holds an instruction with the identifier `id`.
    pub fn contains(&self, id: NodeId) -> (r: bool)
        ensures
            r == plan_ids(self@.nodes).contains(id),
    {
        let mut i: usize = 0;
        while i < self.nodes.len()
            invariant
                i <= self.nodes@.len(),
                forall|j: int| 0 <= j < i ==> plan_ids(self@.nodes)[j] != id,
            decreases self.nodes.len() - i,
        {
            if self.nodes[i].0 == id {
                assert(plan_ids(self@.nodes)[i as int] == id);
                return true;
            }
            i += 1;
        }
        false
    }

    fn missing(&self, node: &ProtoNode) -> (r: Option<NodeId>)
        ensures
            r == first_absent(plan_ids(self@.nodes), node@.dependencies(), 0),
    {
        match &node.construction_args {
            ConstructionArgs::Nodes(ids) => {
                let mut j: usize = 0;
                while j < ids.len()
                    invariant
                        j <= ids@.len(),
                        node@.dependencies() == ids@.map_values(|p: (NodeId, bool)| p.0),
                        first_absent(plan_ids(self@.nodes), node@.dependencies(), 0)
                            == first_absent(
                            plan_ids(self@.nodes),
                            node@.dependencies(),
                            j as int,
                        ),
                    decreases ids.len() - j,
                {
                    if !self.contains(ids[j].0) {
                        return Some(ids[j].0);
                    }
                    j += 1;
                }
                None
            },
            _ => None,
        }
    }

    /// Appends an instruction, unless its identifier is taken or it depends
    /// on an instruction that the plan does not hold yet.
    pub fn push(&mut self, id: NodeId, node: ProtoNode, culprit: NodeId) -> (r: Result<
        (),
        CompileError,
    >)
        requires
            old(self)@.wf(),
        ensures
            final(self)@.wf(),
            match old(self)@.pushed(id, node@, culprit) {
                Ok(next) => r is Ok && final(self)@ == next,
                Err(e) => r == Err::<(), CompileError>(e) && final(self)@ == old(self)@,
            },
    {
        if self.contains(id) {
            return Err(CompileError::IdCollision { node: culprit });
        }
        match self.missing(&node) {
            Some(reference) => {
                return Err(CompileError::DanglingReference { node: culprit, reference });
            },
            None => {},
        }
        let ghost before = self@;
        proof {
            lemma_pushed_wf(before, id, node@, culprit);
        }
        if node.input.is_network() {
            self.inputs.push(id);
        }
        self.nodes.push((id, node));
        assert(plan_view(self.nodes@) =~= before.nodes.push((id, node@)));
        Ok(())
    }

    /// The plan with `output` as its designated output, unless the plan
    /// holds no instruction with that identifier.
    pub fn finish(self, output: NodeId, culprit: NodeId) -> (r: Result<ProtoNetwork, CompileError>)
        requires
            self@.wf(),
        ensures
            match finished(self@, output, culprit) {
                Ok(plan) => r is Ok && r->Ok_0@ == plan && plan.well_formed(),
                Err(e) => r == Err::<ProtoNetwork, CompileError>(e),
            },
    {
        if !self.contains(output) {
            return Err(CompileError::DanglingReference { node: culprit, reference: output });
        }
        Ok(ProtoNetwork { inputs: self.inputs, output, nodes: self.nodes })
    }
}

/// The plan that a finished construction yields, unless the designated
/// output is none of its instructions.
pub open spec fn finished(plan: PlanBuilderView, output: NodeId, culprit: NodeId) -> Result<
    crate::proto::ProtoNetworkView,
    CompileError,
> {
    if plan_ids(plan.nodes).contains(output) {
        Ok(crate::proto::ProtoNetworkView { inputs: plan.inputs, output, nodes: plan.nodes })
    } else {
        Err(CompileError::DanglingReference { node: culprit, reference: output })
    }
}

} // verus!
