//! The mathematical model of the arena of live nodes and the meaning of
//! evaluating a node in it.
//!
//! A slot of the arena holds a unit together with its wiring: the identifier
//! it was built for and the slots of the units it depends on. Evaluation is
//! given twice: operationally by [`step`], which threads the cache and
//! monitor cells through the evaluation, and by [`denote`], which ignores the
//! cells. The two agree wherever every populated cache holds what its
//! producer yields.

use vstd::prelude::*;
use crate::cache::CacheSlot;
use crate::types::Primitive;
use crate::value::{DowncastError, TaggedValue};
use crate::NodeId;

verus! {

/// A live, type-erased unit.
#[derive(Clone, Copy, Debug, PartialEq, Eq)]
pub enum TypeErasedNode {
    /// Produces a constant, whatever it is handed.
    Value(TaggedValue),
    /// Hands its input through.
    Identity,
    /// Adds the 32-bit outputs of its two dependencies.
    Add,
    /// Remembers what its dependency produced.
    Cache(CacheSlot<TaggedValue>),
    /// Hands its input through and remembers the last one.
    Monitor(CacheSlot<TaggedValue>),
    /// Feeds the output of its first dependency to its second.
    Compose,
    /// Reserves a slot and must never be evaluated.
    Placeholder,
}

/// A fault of one evaluation. Every variant names the node it arose in.
#[derive(Clone, Copy, Debug, PartialEq, Eq, Structural)]
pub enum Fault {
    /// An erased value did not have the type its consumer expects.
    Downcast { node: NodeId, error: DowncastError },
    /// The sum of two values does not fit in 32 bits.
    Overflow { node: NodeId },
    /// A placeholder was evaluated.
    Placeholder { node: NodeId },
    /// The node, or one it depends on, is not there.
    NodeNotFound { node: NodeId },
}

impl TypeErasedNode {
    /// The unit with its cell emptied.
    pub open spec fn shape(self) -> TypeErasedNode {
        match self {
            TypeErasedNode::Cache(_) => TypeErasedNode::Cache(CacheSlot::Empty),
            TypeErasedNode::Monitor(_) => TypeErasedNode::Monitor(CacheSlot::Empty),
            other => other,
        }
    }

    /// The number of dependencies the unit is wired to.
    pub open spec fn arity(self) -> nat {
        match self {
            TypeErasedNode::Add => 2,
            TypeErasedNode::Cache(_) => 1,
            TypeErasedNode::Compose => 2,
            _ => 0,
        }
    }

    /// The value a populated cache unit holds.
    pub open spec fn cached(self) -> Option<TaggedValue> {
        match self {
            TypeErasedNode::Cache(CacheSlot::Populated(v)) => Some(v),
            _ => None,
        }
    }

    /// The last value a monitor unit observed.
    pub open spec fn observed(self) -> Option<TaggedValue> {
        match self {
            TypeErasedNode::Monitor(CacheSlot::Populated(v)) => Some(v),
            _ => None,
        }
    }
}

/// The wiring of one slot.
pub ghost struct WiringView {
    /// The identifier the unit was built for.
    pub id: NodeId,
    /// The slots of the units it depends on, in parameter order.
    pub dependencies: Seq<usize>,
    /// A number larger than that of every dependency.
    pub rank: nat,
}

/// The wiring of an arena, slot by slot; a vacant slot has none.
pub type Wiring = Seq<Option<WiringView>>;

/// The units of an arena, slot by slot.
pub type Units = Seq<TypeErasedNode>;

/// Whether the slot holds a node.
pub open spec fn occupied(wiring: Wiring, slot: int) -> bool {
    0 <= slot < wiring.len() && wiring[slot] is Some
}

/// The rank of the node in the slot.
pub open spec fn rank_of(wiring: Wiring, slot: int) -> nat {
    if occupied(wiring, slot) {
        wiring[slot]->Some_0.rank
    } else {
        0
    }
}

/// The slot of the `k`-th dependency of the node in `slot`, where it is
/// occupied and of lower rank.
pub open spec fn child(wiring: Wiring, slot: int, k: int) -> Option<int> {
    if occupied(wiring, slot) && 0 <= k < wiring[slot]->Some_0.dependencies.len() && occupied(
        wiring,
        wiring[slot]->Some_0.dependencies[k] as int,
    ) && rank_of(wiring, wiring[slot]->Some_0.dependencies[k] as int) < rank_of(wiring, slot) {
        Some(wiring[slot]->Some_0.dependencies[k] as int)
    } else {
        None
    }
}

/// The fault of handing `input` to a node that takes the unit value.
pub open spec fn expect_unit(node: NodeId, input: TaggedValue) -> Option<Fault> {
    if input == TaggedValue::Unit {
        None
    } else {
        Some(
            Fault::Downcast {
                node,
                error: DowncastError { expected: Primitive::Unit, found: input.tag() },
            },
        )
    }
}

/// The sum of two erased 32-bit values, or the fault of forming it.
pub open spec fn sum(node: NodeId, a: TaggedValue, b: TaggedValue) -> Result<TaggedValue, Fault> {
    match (a, b) {
        (TaggedValue::U32(x), TaggedValue::U32(y)) => if x + y <= u32::MAX {
            Ok(TaggedValue::U32((x + y) as u32))
        } else {
            Err(Fault::Overflow { node })
        },
        (TaggedValue::U32(_), _) => Err(
            Fault::Downcast {
                node,
                error: DowncastError { expected: Primitive::U32, found: b.tag() },
            },
        ),
        _ => Err(
            Fault::Downcast {
                node,
                error: DowncastError { expected: Primitive::U32, found: a.tag() },
            },
        ),
    }
}

/// What the node in `slot` yields for `input` when no cell is consulted.
pub open spec fn denote(wiring: Wiring, units: Units, slot: int, input: TaggedValue) -> Result<
    TaggedValue,
    Fault,
>
    decreases rank_of(wiring, slot),
{
    if !occupied(wiring, slot) || slot >= units.len() {
        Err(Fault::NodeNotFound { node: 0 })
    } else {
        let node = wiring[slot]->Some_0.id;
        match units[slot] {
            TypeErasedNode::Value(v) => Ok(v),
            TypeErasedNode::Identity => Ok(input),
            TypeErasedNode::Monitor(_) => Ok(input),
            TypeErasedNode::Placeholder => Err(Fault::Placeholder { node }),
            TypeErasedNode::Cache(_) => match expect_unit(node, input) {
                Some(fault) => Err(fault),
                None => match child(wiring, slot, 0) {
                    Some(d) => denote(wiring, units, d, TaggedValue::Unit),
                    None => Err(Fault::NodeNotFound { node }),
                },
            },
            TypeErasedNode::Add => match expect_unit(node, input) {
                Some(fault) => Err(fault),
                None => match (child(wiring, slot, 0), child(wiring, slot, 1)) {
                    (Some(d0), Some(d1)) => match denote(wiring, units, d0, TaggedValue::Unit) {
                        Err(e) => Err(e),
                        Ok(a) => match denote(wiring, units, d1, TaggedValue::Unit) {
                            Err(e) => Err(e),
                            Ok(b) => sum(node, a, b),
                        },
                    },
                    _ => Err(Fault::NodeNotFound { node }),
                },
            },
            TypeErasedNode::Compose => match (child(wiring, slot, 0), child(wiring, slot, 1)) {
                (Some(d0), Some(d1)) => match denote(wiring, units, d0, input) {
                    Err(e) => Err(e),
                    Ok(x) => denote(wiring, units, d1, x),
                },
                _ => Err(Fault::NodeNotFound { node }),
            },
        }
    }
}

/// Evaluating the node in `slot` on `input`: the units afterwards and the
/// outcome.
///
/// A populated cache answers from its cell; an empty one evaluates its
/// dependency and, where that succeeds, keeps the value. A monitor keeps the
/// input it is handed. Dependencies are evaluated in parameter order and the
/// first fault ends the evaluation.
pub open spec fn step(wiring: Wiring, units: Units, slot: int, input: TaggedValue) -> (
    Units,
    Result<TaggedValue, Fault>,
)
    decreases rank_of(wiring, slot),
{
    if !occupied(wiring, slot) || slot >= units.len() {
        (units, Err(Fault::NodeNotFound { node: 0 }))
    } else {
        let node = wiring[slot]->Some_0.id;
        match units[slot] {
            TypeErasedNode::Value(v) => (units, Ok(v)),
            TypeErasedNode::Identity => (units, Ok(input)),
            TypeErasedNode::Monitor(_) => (
                units.update(slot, TypeErasedNode::Monitor(CacheSlot::Populated(input))),
                Ok(input),
            ),
            TypeErasedNode::Placeholder => (units, Err(Fault::Placeholder { node })),
            TypeErasedNode::Cache(cell) => match expect_unit(node, input) {
                Some(fault) => (units, Err(fault)),
                None => match cell {
                    CacheSlot::Populated(v) => (units, Ok(v)),
                    CacheSlot::Empty => match child(wiring, slot, 0) {
                        Some(d) => {
                            let (after, r) = step(wiring, units, d, TaggedValue::Unit);
                            match r {
                                Ok(v) => (
                                    after.update(
                                        slot,
                                        TypeErasedNode::Cache(CacheSlot::Populated(v)),
                                    ),
                                    Ok(v),
                                ),
                                Err(e) => (after, Err(e)),
                            }
                        },
                        None => (units, Err(Fault::NodeNotFound { node })),
                    },
                },
            },
            TypeErasedNode::Add => match expect_unit(node, input) {
                Some(fault) => (units, Err(fault)),
                None => match (child(wiring, slot, 0), child(wiring, slot, 1)) {
                    (Some(d0), Some(d1)) => {
                        let (first, r0) = step(wiring, units, d0, TaggedValue::Unit);
                        match r0 {
                            Err(e) => (first, Err(e)),
                            Ok(a) => {
                                let (second, r1) = step(wiring, first, d1, TaggedValue::Unit);
                                match r1 {
                                    Err(e) => (second, Err(e)),
                                    Ok(b) => (second, sum(node, a, b)),
                                }
                            },
                        }
                    },
                    _ => (units, Err(Fault::NodeNotFound { node })),
                },
            },
            TypeErasedNode::Compose => match (child(wiring, slot, 0), child(wiring, slot, 1)) {
                (Some(d0), Some(d1)) => {
                    let (first, r0) = step(wiring, units, d0, input);
                    match r0 {
                        Err(e) => (first, Err(e)),
                        Ok(x) => step(wiring, first, d1, x),
                    }
                },
                _ => (units, Err(Fault::NodeNotFound { node })),
            },
        }
    }
}

/// The two sequences hold the same units up to the contents of their cells.
pub open spec fn same_shape(a: Units, b: Units) -> bool {
    &&& a.len() == b.len()
    &&& forall|i: int| 0 <= i < a.len() ==> (#[trigger] a[i]).shape() == b[i].shape()
}

/// Every populated cache holds what its dependency yields.
pub open spec fn caches_valid(wiring: Wiring, units: Units) -> bool {
    forall|i: int|
        0 <= i < units.len() && occupied(wiring, i) && (#[trigger] units[i]).cached() is Some
            ==> child(wiring, i, 0) is Some && denote(
            wiring,
            units,
            child(wiring, i, 0)->Some_0,
            TaggedValue::Unit,
        ) == Ok::<TaggedValue, Fault>(units[i].cached()->Some_0)
}

/// `after` arises from `before` by filling cells: the shapes are the same,
/// a populated cache keeps its value, and a cache populated since holds what
/// its dependency yields.
pub open spec fn extends(wiring: Wiring, before: Units, after: Units) -> bool {
    &&& same_shape(before, after)
    &&& (forall|i: int|
        0 <= i < before.len() && (#[trigger] before[i]).cached() is Some ==> after[i] == before[i])
    &&& forall|i: int|
        0 <= i < after.len() && occupied(wiring, i) && (#[trigger] after[i]).cached() is Some
            && before[i].cached() is None ==> child(wiring, i, 0) is Some && denote(
            wiring,
            before,
            child(wiring, i, 0)->Some_0,
            TaggedValue::Unit,
        ) == Ok::<TaggedValue, Fault>(after[i].cached()->Some_0)
}

/// What a node yields without its cells depends on the shapes alone.
pub proof fn lemma_denote_shape(wiring: Wiring, a: Units, b: Units, slot: int, input: TaggedValue)
    requires
        same_shape(a, b),
    ensures
        denote(wiring, a, slot, input) == denote(wiring, b, slot, input),
    decreases rank_of(wiring, slot),
{
    if occupied(wiring, slot) && slot < a.len() {
        assert(a[slot].shape() == b[slot].shape());
        match a[slot] {
            TypeErasedNode::Cache(_) => {
                if expect_unit(wiring[slot]->Some_0.id, input) is None {
                    if let Some(d) = child(wiring, slot, 0) {
                        lemma_denote_shape(wiring, a, b, d, TaggedValue::Unit);
                    }
                }
            },
            TypeErasedNode::Add => {
                if expect_unit(wiring[slot]->Some_0.id, input) is None {
                    if let (Some(d0), Some(d1)) = (child(wiring, slot, 0), child(wiring, slot, 1)) {
                        lemma_denote_shape(wiring, a, b, d0, TaggedValue::Unit);
                        lemma_denote_shape(wiring, a, b, d1, TaggedValue::Unit);
                    }
                }
            },
            TypeErasedNode::Compose => {
                if let (Some(d0), Some(d1)) = (child(wiring, slot, 0), child(wiring, slot, 1)) {
                    lemma_denote_shape(wiring, a, b, d0, input);
                    if let Ok(x) = denote(wiring, a, d0, input) {
                        lemma_denote_shape(wiring, a, b, d1, x);
                    }
                }
            },
            _ => {},
        }
    }
}

/// Filling cells twice in a row is filling cells.
pub proof fn lemma_extends_transitive(wiring: Wiring, a: Units, b: Units, c: Units)
    requires
        extends(wiring, a, b),
        extends(wiring, b, c),
    ensures
        extends(wiring, a, c),
{
    assert forall|i: int| 0 <= i < a.len() implies (#[trigger] a[i]).shape() == c[i].shape() by {
        assert(a[i].shape() == b[i].shape());
        assert(b[i].shape() == c[i].shape());
    }
    assert forall|i: int| 0 <= i < a.len() && (#[trigger] a[i]).cached() is Some implies c[i]
        == a[i] by {
        assert(b[i] == a[i]);
        assert(b[i].cached() is Some);
    }
    assert forall|i: int|
        0 <= i < c.len() && occupied(wiring, i) && (#[trigger] c[i]).cached() is Some
            && a[i].cached() is None implies child(wiring, i, 0) is Some && denote(
        wiring,
        a,
        child(wiring, i, 0)->Some_0,
        TaggedValue::Unit,
    ) == Ok::<TaggedValue, Fault>(c[i].cached()->Some_0) by {
        if b[i].cached() is Some {
            assert(c[i] == b[i]);
        } else {
            lemma_denote_shape(wiring, a, b, child(wiring, i, 0)->Some_0, TaggedValue::Unit);
        }
    }
}

/// Filling cells keeps every cache valid.
pub proof fn lemma_extends_valid(wiring: Wiring, before: Units, after: Units)
    requires
        caches_valid(wiring, before),
        extends(wiring, before, after),
    ensures
        caches_valid(wiring, after),
{
    assert forall|i: int|
        0 <= i < after.len() && occupied(wiring, i) && (#[trigger] after[i]).cached() is Some implies child(
        wiring,
        i,
        0,
    ) is Some && denote(wiring, after, child(wiring, i, 0)->Some_0, TaggedValue::Unit) == Ok::<
        TaggedValue,
        Fault,
    >(after[i].cached()->Some_0) by {
        if before[i].cached() is Some {
            assert(after[i] == before[i]);
        }
        lemma_denote_shape(wiring, before, after, child(wiring, i, 0)->Some_0, TaggedValue::Unit);
    }
}

/// Where every populated cache is valid, evaluation yields what the node
/// denotes, and it only fills cells.
pub proof fn lemma_step_sound(wiring: Wiring, units: Units, slot: int, input: TaggedValue)
    requires
        caches_valid(wiring, units),
    ensures
        step(wiring, units, slot, input).1 == denote(wiring, units, slot, input),
        extends(wiring, units, step(wiring, units, slot, input).0),
        caches_valid(wiring, step(wiring, units, slot, input).0),
    decreases rank_of(wiring, slot),
{
    let after = step(wiring, units, slot, input).0;
    if occupied(wiring, slot) && slot < units.len() {
        let node = wiring[slot]->Some_0.id;
        match units[slot] {
            TypeErasedNode::Monitor(_) => {
                assert(extends(wiring, units, after));
            },
            TypeErasedNode::Cache(cell) => {
                if expect_unit(node, input) is None {
                    match cell {
                        CacheSlot::Populated(v) => {
                            assert(units[slot].cached() is Some);
                        },
                        CacheSlot::Empty => {
                            if let Some(d) = child(wiring, slot, 0) {
                                lemma_step_sound(wiring, units, d, TaggedValue::Unit);
                                let (mid, r) = step(wiring, units, d, TaggedValue::Unit);
                                if let Ok(v) = r {
                                    assert(after == mid.update(
                                        slot,
                                        TypeErasedNode::Cache(CacheSlot::Populated(v)),
                                    ));
                                    assert(units[slot].shape() == mid[slot].shape());
                                    assert(extends(wiring, mid, after)) by {
                                        if mid[slot].cached() is Some {
                                            assert(mid[slot].cached()->Some_0 == v);
                                            assert(mid[slot] == TypeErasedNode::Cache(
                                                CacheSlot::Populated(v),
                                            ));
                                            assert(after =~= mid);
                                        }
                                        lemma_denote_shape(wiring, units, mid, d, TaggedValue::Unit);
                                    }
                                    lemma_extends_transitive(wiring, units, mid, after);
                                }
                            }
                        },
                    }
                }
            },
            TypeErasedNode::Add => {
                if expect_unit(node, input) is None {
                    if let (Some(d0), Some(d1)) = (child(wiring, slot, 0), child(wiring, slot, 1)) {
                        lemma_step_sound(wiring, units, d0, TaggedValue::Unit);
                        let (first, r0) = step(wiring, units, d0, TaggedValue::Unit);
                        if r0 is Ok {
                            lemma_step_sound(wiring, first, d1, TaggedValue::Unit);
                            let (second, r1) = step(wiring, first, d1, TaggedValue::Unit);
                            lemma_denote_shape(wiring, units, first, d1, TaggedValue::Unit);
                            lemma_extends_transitive(wiring, units, first, second);
                        }
                    }
                }
            },
            TypeErasedNode::Compose => {
                if let (Some(d0), Some(d1)) = (child(wiring, slot, 0), child(wiring, slot, 1)) {
                    lemma_step_sound(wiring, units, d0, input);
                    let (first, r0) = step(wiring, units, d0, input);
                    if let Ok(x) = r0 {
                        lemma_step_sound(wiring, first, d1, x);
                        let (second, r1) = step(wiring, first, d1, x);
                        lemma_denote_shape(wiring, units, first, d1, x);
                        lemma_extends_transitive(wiring, units, first, second);
                    }
                }
            },
            _ => {},
        }
    }
    lemma_extends_valid(wiring, units, after);
}

/// Every dependency of an occupied slot is occupied and of lower rank.
pub open spec fn closed_under_dependencies(wiring: Wiring) -> bool {
    forall|i: int, k: int|
        occupied(wiring, i) && 0 <= k < wiring[i]->Some_0.dependencies.len() ==> (#[trigger] child(
            wiring,
            i,
            k,
        )) is Some
}

/// The second arena holds, in every slot the first one occupies, what the
/// first one holds there.
pub open spec fn agrees(w1: Wiring, u1: Units, w2: Wiring, u2: Units) -> bool {
    forall|i: int| #[trigger]
        occupied(w1, i) ==> occupied(w2, i) && w2[i] == w1[i] && i < u1.len() && i < u2.len()
            && u2[i] == u1[i]
}

/// What a node yields depends only on the slots it reaches: an arena that
/// agrees with a closed one on its occupied slots gives the same values there.
pub proof fn lemma_denote_frame(
    w1: Wiring,
    u1: Units,
    w2: Wiring,
    u2: Units,
    slot: int,
    input: TaggedValue,
)
    requires
        closed_under_dependencies(w1),
        agrees(w1, u1, w2, u2),
        occupied(w1, slot),
    ensures
        denote(w2, u2, slot, input) == denote(w1, u1, slot, input),
    decreases rank_of(w1, slot),
{
    assert(occupied(w2, slot) && w2[slot] == w1[slot] && u2[slot] == u1[slot]);
    let deps = w1[slot]->Some_0.dependencies;
    assert forall|k: int| child(w2, slot, k) == child(w1, slot, k) by {
        if 0 <= k < deps.len() {
            assert(child(w1, slot, k) is Some);
            assert(occupied(w1, deps[k] as int));
        }
    }
    match u1[slot] {
        TypeErasedNode::Cache(_) => {
            if let Some(d) = child(w1, slot, 0) {
                lemma_denote_frame(w1, u1, w2, u2, d, TaggedValue::Unit);
            }
        },
        TypeErasedNode::Add => {
            if let (Some(d0), Some(d1)) = (child(w1, slot, 0), child(w1, slot, 1)) {
                lemma_denote_frame(w1, u1, w2, u2, d0, TaggedValue::Unit);
                lemma_denote_frame(w1, u1, w2, u2, d1, TaggedValue::Unit);
            }
        },
        TypeErasedNode::Compose => {
            if let (Some(d0), Some(d1)) = (child(w1, slot, 0), child(w1, slot, 1)) {
                lemma_denote_frame(w1, u1, w2, u2, d0, input);
                if let Ok(x) = denote(w1, u1, d0, input) {
                    lemma_denote_frame(w1, u1, w2, u2, d1, x);
                }
            }
        },
        _ => {},
    }
}

/// Valid caches stay valid in an arena that agrees with a closed one on its
/// occupied slots, as far as those slots go.
pub proof fn lemma_caches_frame(w1: Wiring, u1: Units, w2: Wiring, u2: Units, i: int)
    requires
        closed_under_dependencies(w1),
        agrees(w1, u1, w2, u2),
        occupied(w1, i),
        u1[i].cached() is Some,
        child(w1, i, 0) is Some,
    ensures
        child(w2, i, 0) == child(w1, i, 0),
        denote(w2, u2, child(w1, i, 0)->Some_0, TaggedValue::Unit) == denote(
            w1,
            u1,
            child(w1, i, 0)->Some_0,
            TaggedValue::Unit,
        ),
{
    let d = child(w1, i, 0)->Some_0;
    assert(occupied(w1, d));
    assert(occupied(w2, i) && w2[i] == w1[i]);
    lemma_denote_frame(w1, u1, w2, u2, d, TaggedValue::Unit);
}

} // verus!
