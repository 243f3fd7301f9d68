//! The source map: which node currently realizes each author-level path.

use vstd::prelude::*;
use crate::NodeId;

verus! {

/// Whether two paths hold the same identifiers.
pub fn same_path(a: &[NodeId], b: &[NodeId]) -> (r: bool)
    ensures
        r == (a@ == b@),
{
    if a.len() != b.len() {
        return false;
    }
    let mut i: usize = 0;
    while i < a.len()
        invariant
            i <= a.len(),
            a.len() == b.len(),
            forall|j: int| 0 <= j < i ==> a@[j] == b@[j],
        decreases a.len() - i,
    {
        if a[i] != b[i] {
            return false;
        }
        i += 1;
    }
    assert(a@ =~= b@);
    true
}

/// Whether `id` occurs in `ids`.
pub fn contains_id(ids: &[NodeId], id: NodeId) -> (r: bool)
    ensures
        r == ids@.contains(id),
{
    let mut i: usize = 0;
    while i < ids.len()
        invariant
            i <= ids.len(),
            forall|j: int| 0 <= j < i ==> ids@[j] != id,
        decreases ids.len() - i,
    {
        if ids[i] == id {
            return true;
        }
        i += 1;
    }
    false
}

/// A map from author-level paths to node identifiers.
#[derive(Debug)]
pub struct SourceMap {
    entries: Vec<(Vec<NodeId>, NodeId)>,
}

impl View for SourceMap {
    type V = Map<Seq<NodeId>, NodeId>;

    closed spec fn view(&self) -> Map<Seq<NodeId>, NodeId> {
        Map::new(
            |path: Seq<NodeId>| self.position(path) is Some,
            |path: Seq<NodeId>| self.entries@[self.position(path)->Some_0].1,
        )
    }
}

impl SourceMap {
    /// No path is recorded twice.
    pub closed spec fn wf(self) -> bool {
        forall|i: int, j: int|
            0 <= i < j < self.entries@.len() ==> (#[trigger] self.entries@[i]).0@
                != (#[trigger] self.entries@[j]).0@
    }

    spec fn position(self, path: Seq<NodeId>) -> Option<int> {
        if exists|i: int| 0 <= i < self.entries@.len() && (#[trigger] self.entries@[i]).0@ == path {
            Some(choose|i: int| 0 <= i < self.entries@.len() && (#[trigger] self.entries@[i]).0@ == path)
        } else {
            None
        }
    }

    /// A map without entries.
    pub fn new() -> (r: Self)
        ensures
            r.wf(),
            r@ == Map::<Seq<NodeId>, NodeId>::empty(),
    {
        let r = SourceMap { entries: Vec::new() };
        assert(r@ =~= Map::<Seq<NodeId>, NodeId>::empty());
        r
    }

    fn find(&self, path: &[NodeId]) -> (r: Option<usize>)
        requires
            self.wf(),
        ensures
            match r {
                Some(i) => i < self.entries@.len() && self.entries@[i as int].0@ == path@
                    && self.position(path@) == Some(i as int),
                None => self.position(path@) is None,
            },
    {
        let mut i: usize = 0;
        while i < self.entries.len()
            invariant
                i <= self.entries.len(),
                self.wf(),
                forall|j: int| 0 <= j < i ==> (#[trigger] self.entries@[j]).0@ != path@,
            decreases self.entries.len() - i,
        {
            if same_path(self.entries[i].0.as_slice(), path) {
                assert(self.entries@[i as int].0@ == path@);
                return Some(i);
            }
            i += 1;
        }
        None
    }

    /// The node recorded for `path`, if any.
    pub fn get(&self, path: &[NodeId]) -> (r: Option<NodeId>)
        requires
            self.wf(),
        ensures
            r == if self@.contains_key(path@) {
                Some(self@[path@])
            } else {
                None
            },
    {
        match self.find(path) {
            Some(i) => Some(self.entries[i].1),
            None => None,
        }
    }

    /// Records `id` for `path`, in place of what was recorded for it.
    pub fn insert(&mut self, path: Vec<NodeId>, id: NodeId)
        requires
            old(self).wf(),
        ensures
            final(self).wf(),
            final(self)@ == old(self)@.insert(path@, id),
    {
        let ghost before = *self;
        match self.find(path.as_slice()) {
            Some(i) => {
                self.entries[i] = (path, id);
                assert forall|p: Seq<NodeId>| self.position(p) == before.position(p) by {
                    if before.position(p) is Some {
                        let k = before.position(p)->Some_0;
                        assert(self.entries@[k].0@ == p);
                    }
                    if self.position(p) is Some {
                        let k = self.position(p)->Some_0;
                        assert(before.entries@[k].0@ == p);
                    }
                }
                assert(self@ =~= before@.insert(path@, id));
            },
            None => {
                self.entries.push((path, id));
                let ghost last = before.entries@.len() as int;
                assert(self.entries@[last].0@ == path@);
                assert forall|p: Seq<NodeId>| p != path@ implies self.position(p)
                    == before.position(p) by {
                    if before.position(p) is Some {
                        let k = before.position(p)->Some_0;
                        assert(self.entries@[k].0@ == p);
                    }
                    if self.position(p) is Some {
                        let k = self.position(p)->Some_0;
                        assert(before.entries@[k].0@ == p);
                    }
                }
                assert(self.position(path@) == Some(last));
                assert(self@ =~= before@.insert(path@, id));
            },
        }
    }

    /// Removes every entry whose node is among `ids`.
    pub fn remove_nodes(&mut self, ids: &[NodeId])
        requires
            old(self).wf(),
        ensures
            final(self).wf(),
            final(self)@ == Map::new(
                |p: Seq<NodeId>| old(self)@.contains_key(p) && !ids@.contains(old(self)@[p]),
                |p: Seq<NodeId>| old(self)@[p],
            ),
    {
        let ghost before = *self;
        let mut kept: Vec<(Vec<NodeId>, NodeId)> = Vec::new();
        let mut i: usize = 0;
        while i < self.entries.len()
            invariant
                i <= self.entries.len(),
                *self == before,
                before.wf(),
                forall|a: int, b: int|
                    0 <= a < b < kept@.len() ==> (#[trigger] kept@[a]).0@ != (#[trigger] kept@[b]).0@,
                forall|a: int|
                    0 <= a < kept@.len() ==> holds(
                        self.entries@,
                        i as int,
                        (#[trigger] kept@[a]).0@,
                        kept@[a].1,
                    ) && !ids@.contains(kept@[a].1),
                forall|j: int|
                    0 <= j < i && !ids@.contains((#[trigger] self.entries@[j]).1) ==> holds(
                        kept@,
                        kept@.len() as int,
                        self.entries@[j].0@,
                        self.entries@[j].1,
                    ),
            decreases self.entries.len() - i,
        {
            if !contains_id(ids, self.entries[i].1) {
                let path = self.entries[i].0.clone();
                assert(path@ =~= self.entries@[i as int].0@);
                let ghost shorter = kept@;
                kept.push((path, self.entries[i].1));
                let ghost last = shorter.len() as int;
                assert(kept@[last].0@ == self.entries@[i as int].0@);
                assert forall|a: int| 0 <= a < kept@.len() implies holds(
                    self.entries@,
                    i + 1,
                    (#[trigger] kept@[a]).0@,
                    kept@[a].1,
                ) && !ids@.contains(kept@[a].1) by {
                    if a < last {
                        assert(kept@[a] == shorter[a]);
                        let j = witness(self.entries@, i as int, shorter[a].0@, shorter[a].1);
                        assert(self.entries@[j].0@ == kept@[a].0@);
                    } else {
                        assert(self.entries@[i as int].0@ == kept@[a].0@);
                    }
                }
                assert forall|a: int, b: int| 0 <= a < b < kept@.len() implies (#[trigger] kept@[a]).0@
                    != (#[trigger] kept@[b]).0@ by {
                    assert(kept@[a] == shorter[a]);
                    if b == last {
                        let j = witness(self.entries@, i as int, shorter[a].0@, shorter[a].1);
                        assert(self.entries@[j].0@ != self.entries@[i as int].0@);
                    } else {
                        assert(kept@[b] == shorter[b]);
                    }
                }
                assert forall|j: int|
                    0 <= j < i + 1 && !ids@.contains((#[trigger] self.entries@[j]).1) implies holds(
                    kept@,
                    kept@.len() as int,
                    self.entries@[j].0@,
                    self.entries@[j].1,
                ) by {
                    if j < i {
                        let a = witness(shorter, last, self.entries@[j].0@, self.entries@[j].1);
                        assert(kept@[a] == shorter[a]);
                    } else {
                        assert(kept@[last].0@ == self.entries@[j].0@);
                    }
                }
            }
            i += 1;
        }
        self.entries = kept;
        assert forall|p: Seq<NodeId>|
            (self.position(p) is Some) == (before.position(p) is Some && !ids@.contains(
                before.entries@[before.position(p)->Some_0].1,
            )) && (self.position(p) is Some ==> self.entries@[self.position(p)->Some_0].1
                == before.entries@[before.position(p)->Some_0].1) by {
            if self.position(p) is Some {
                let a = self.position(p)->Some_0;
                let j = witness(
                    before.entries@,
                    before.entries@.len() as int,
                    kept@[a].0@,
                    kept@[a].1,
                );
                assert(before.entries@[j].0@ == p);
                let k = before.position(p)->Some_0;
                assert(before.entries@[k].0@ == p);
                assert(j == k);
            }
            if before.position(p) is Some && !ids@.contains(
                before.entries@[before.position(p)->Some_0].1,
            ) {
                let k = before.position(p)->Some_0;
                let a = witness(
                    kept@,
                    kept@.len() as int,
                    before.entries@[k].0@,
                    before.entries@[k].1,
                );
                assert(self.entries@[a].0@ == p);
            }
        }
        assert(self@ =~= Map::new(
            |p: Seq<NodeId>| before@.contains_key(p) && !ids@.contains(before@[p]),
            |p: Seq<NodeId>| before@[p],
        ));
    }
}

/// Whether one of the first `upto` entries records `id` for `path`.
spec fn holds(entries: Seq<(Vec<NodeId>, NodeId)>, upto: int, path: Seq<NodeId>, id: NodeId) -> bool {
    exists|j: int| 0 <= j < upto && j < entries.len() && (#[trigger] entries[j]).0@ == path && entries[j].1 == id
}

/// The position of an entry that [`holds`] speaks of.
spec fn witness(entries: Seq<(Vec<NodeId>, NodeId)>, upto: int, path: Seq<NodeId>, id: NodeId) -> int {
    choose|j: int| 0 <= j < upto && j < entries.len() && (#[trigger] entries[j]).0@ == path && entries[j].1 == id
}

impl Clone for SourceMap {
    fn clone(&self) -> (r: Self)
        ensures
            self.wf() ==> r.wf() && r@ == self@,
    {
        let mut entries: Vec<(Vec<NodeId>, NodeId)> = Vec::new();
        let mut i: usize = 0;
        while i < self.entries.len()
            invariant
                i <= self.entries.len(),
                entries@.len() == i,
                forall|j: int|
                    0 <= j < i ==> (#[trigger] entries@[j]).0@ == self.entries@[j].0@ && entries@[j].1
                        == self.entries@[j].1,
            decreases self.entries.len() - i,
        {
            let path = self.entries[i].0.clone();
            assert(path@ =~= self.entries@[i as int].0@);
            entries.push((path, self.entries[i].1));
            i += 1;
        }
        let r = SourceMap { entries };
        assert forall|p: Seq<NodeId>| self.wf() implies r.position(p) == self.position(p) by {
            if self.position(p) is Some {
                let k = self.position(p)->Some_0;
                assert(r.entries@[k].0@ == p);
            }
            if r.position(p) is Some {
                let k = r.position(p)->Some_0;
                assert(self.entries@[k].0@ == p);
            }
        }
        assert(self.wf() ==> r@ =~= self@);
        r
    }
}

} // verus!
