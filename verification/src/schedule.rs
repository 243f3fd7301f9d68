//! The second pass of the compiler: the flat nodes are linked to their
//! producers and put in construction order, every producer before its
//! consumers.

use vstd::prelude::*;
use crate::flatten::{CompileError, FlatInput, FlatInputView, FlatNode, FlatNodeView, nodes_view};
use crate::source_map::same_path;
use crate::NodeId;

verus! {

/// The identifier a path ends in; 0 for the empty path.
pub open spec fn leaf(path: Seq<NodeId>) -> NodeId {
    if path.len() == 0 {
        0
    } else {
        path.last()
    }
}

/// The first position at or after `from` of a flat node with the given path.
pub open spec fn index_of(flat: Seq<FlatNodeView>, path: Seq<NodeId>, from: int) -> Option<int>
    decreases flat.len() - from,
{
    if from < 0 || from >= flat.len() {
        None
    } else if flat[from].path == path {
        Some(from)
    } else {
        index_of(flat, path, from + 1)
    }
}

/// The producers of the first `upto` inputs of a node, by their positions
/// among the flat nodes; an input that is no reference has none. Fails on the
/// first reference to a path that no flat node has.
pub open spec fn links_of(flat: Seq<FlatNodeView>, node: FlatNodeView, upto: int) -> Result<
    Seq<Option<usize>>,
    CompileError,
>
    decreases upto,
{
    if upto <= 0 || upto > node.inputs.len() {
        Ok(Seq::empty())
    } else {
        match links_of(flat, node, upto - 1) {
            Err(e) => Err(e),
            Ok(rest) => match node.inputs[upto - 1] {
                FlatInputView::Producer(path) => match index_of(flat, path, 0) {
                    Some(j) => Ok(rest.push(Some(j as usize))),
                    None => Err(
                        CompileError::DanglingReference {
                            node: leaf(node.path),
                            reference: leaf(path),
                        },
                    ),
                },
                _ => Ok(rest.push(None)),
            },
        }
    }
}

/// The links of the first `upto` flat nodes, or the first failure.
pub open spec fn linked(flat: Seq<FlatNodeView>, upto: int) -> Result<
    Seq<Seq<Option<usize>>>,
    CompileError,
>
    decreases upto,
{
    if upto <= 0 || upto > flat.len() {
        Ok(Seq::empty())
    } else {
        match linked(flat, upto - 1) {
            Err(e) => Err(e),
            Ok(rest) => match links_of(flat, flat[upto - 1], flat[upto - 1].inputs.len() as int) {
                Err(e) => Err(e),
                Ok(links) => Ok(rest.push(links)),
            },
        }
    }
}

/// Whether every producer of node `i` has been placed.
pub open spec fn producers_placed(links: Seq<Seq<Option<usize>>>, placed: Seq<bool>, i: int) -> bool {
    forall|k: int|
        0 <= k < links[i].len() ==> match #[trigger] links[i][k] {
            Some(j) => j < placed.len() && placed[j as int],
            None => true,
        }
}

/// The state in which none of `n` nodes has been placed.
pub open spec fn none_placed(n: nat) -> Seq<bool> {
    Seq::new(n, |i: int| false)
}

/// The first node at or after `from` that has not been placed and whose
/// producers all have.
pub open spec fn first_ready(links: Seq<Seq<Option<usize>>>, placed: Seq<bool>, from: int) -> Option<
    int,
>
    decreases links.len() - from,
{
    if from < 0 || from >= links.len() || from >= placed.len() {
        None
    } else if !placed[from] && producers_placed(links, placed, from) {
        Some(from)
    } else {
        first_ready(links, placed, from + 1)
    }
}

/// The first node at or after `from` that has not been placed.
pub open spec fn first_waiting(placed: Seq<bool>, from: int) -> Option<int>
    decreases placed.len() - from,
{
    if from < 0 || from >= placed.len() {
        None
    } else if !placed[from] {
        Some(from)
    } else {
        first_waiting(placed, from + 1)
    }
}

/// The construction order of the nodes that have not been placed, over
/// `rounds` rounds: in each round the first node is placed whose producers
/// have all been placed. Where no node is ready the first node that waits is
/// reported; it depends on itself.
pub open spec fn scheduled(links: Seq<Seq<Option<usize>>>, placed: Seq<bool>, rounds: nat) -> Result<
    Seq<usize>,
    usize,
>
    decreases rounds,
{
    if rounds == 0 {
        Ok(Seq::empty())
    } else {
        match first_ready(links, placed, 0) {
            None => Err(
                match first_waiting(placed, 0) {
                    Some(i) => i as usize,
                    None => 0,
                },
            ),
            Some(i) => match scheduled(links, placed.update(i, true), (rounds - 1) as nat) {
                Err(stuck) => Err(stuck),
                Ok(rest) => Ok(seq![i as usize] + rest),
            },
        }
    }
}

/// Whether `order` places every producer before its consumers: each
/// producer of the node at a position is the node at an earlier position.
pub open spec fn producers_first(links: Seq<Seq<Option<usize>>>, order: Seq<usize>) -> bool {
    forall|p: int, k: int|
        0 <= p < order.len() && order[p] < links.len() && 0 <= k < links[order[p] as int].len()
            && (#[trigger] links[order[p] as int][k]) is Some ==> exists|q: int|
            0 <= q < p && #[trigger] order[q] == links[order[p] as int][k]->Some_0
}

/// The position of the flat node with the given path.
pub fn position_of(flat: &Vec<FlatNode>, path: &Vec<NodeId>) -> (r: Option<usize>)
    ensures
        match r {
            Some(j) => index_of(nodes_view(flat@), path@, 0) == Some(j as int) && j < flat@.len(),
            None => index_of(nodes_view(flat@), path@, 0) is None,
        },
{
    let mut j: usize = 0;
    while j < flat.len()
        invariant
            j <= flat@.len(),
            index_of(nodes_view(flat@), path@, 0) == index_of(nodes_view(flat@), path@, j as int),
        decreases flat.len() - j,
    {
        if same_path(flat[j].path.as_slice(), path.as_slice()) {
            return Some(j);
        }
        j += 1;
    }
    None
}

/// The last identifier of a path; 0 for the empty path.
pub fn last_of(path: &Vec<NodeId>) -> (r: NodeId)
    ensures
        r == leaf(path@),
{
    if path.len() == 0 {
        0
    } else {
        path[path.len() - 1]
    }
}

fn link_node(flat: &Vec<FlatNode>, node: &FlatNode) -> (r: Result<
    Vec<Option<usize>>,
    CompileError,
>)
    ensures
        match links_of(nodes_view(flat@), node@, node@.inputs.len() as int) {
            Ok(links) => r is Ok && r->Ok_0@ == links && links.len() == node.inputs@.len()
                && forall|k: int|
                0 <= k < links.len() && (#[trigger] links[k]) is Some ==> links[k]->Some_0
                    < flat@.len(),
            Err(e) => r == Err::<Vec<Option<usize>>, CompileError>(e),
        },
{
    let mut links: Vec<Option<usize>> = Vec::new();
    let mut k: usize = 0;
    while k < node.inputs.len()
        invariant
            k <= node.inputs@.len(),
            node@.inputs.len() == node.inputs@.len(),
            links_of(nodes_view(flat@), node@, k as int) == Ok::<
                Seq<Option<usize>>,
                CompileError,
            >(links@),
            links@.len() == k,
            forall|a: int|
                0 <= a < links@.len() && (#[trigger] links@[a]) is Some ==> links@[a]->Some_0
                    < flat@.len(),
        decreases node.inputs.len() - k,
    {
        assert(node@.inputs[k as int] == node.inputs@[k as int]@);
        match &node.inputs[k] {
            FlatInput::Producer(path) => match position_of(flat, path) {
                Some(j) => {
                    links.push(Some(j));
                },
                None => {
                    proof {
                        lemma_links_fail(
                            nodes_view(flat@),
                            node@,
                            k + 1,
                            node@.inputs.len() as int,
                        );
                    }
                    return Err(
                        CompileError::DanglingReference {
                            node: last_of(&node.path),
                            reference: last_of(path),
                        },
                    );
                },
            },
            _ => {
                links.push(None);
            },
        }
        k += 1;
    }
    Ok(links)
}

/// A failure among the first inputs is the failure of all of them.
proof fn lemma_links_fail(flat: Seq<FlatNodeView>, node: FlatNodeView, failed: int, upto: int)
    requires
        0 < failed <= upto <= node.inputs.len(),
        links_of(flat, node, failed) is Err,
    ensures
        links_of(flat, node, upto) == links_of(flat, node, failed),
    decreases upto - failed,
{
    if failed < upto {
        lemma_links_fail(flat, node, failed, upto - 1);
    }
}

/// A failure among the first nodes is the failure of all of them.
proof fn lemma_linked_fail(flat: Seq<FlatNodeView>, failed: int, upto: int)
    requires
        0 < failed <= upto <= flat.len(),
        linked(flat, failed) is Err,
    ensures
        linked(flat, upto) == linked(flat, failed),
    decreases upto - failed,
{
    if failed < upto {
        lemma_linked_fail(flat, failed, upto - 1);
    }
}

/// The content of a table of links.
pub open spec fn links_view(links: Seq<Vec<Option<usize>>>) -> Seq<Seq<Option<usize>>> {
    links.map_values(|l: Vec<Option<usize>>| l@)
}

/// Whether a table of links belongs to `n` nodes: it has a row for each, and
/// every link is the position of one of them.
pub open spec fn links_fit(links: Seq<Seq<Option<usize>>>, n: nat) -> bool {
    &&& links.len() == n
    &&& (forall|i: int, k: int|
        0 <= i < links.len() && 0 <= k < links[i].len() && (#[trigger] links[i][k]) is Some
            ==> links[i][k]->Some_0 < n)
}

/// Links every flat node to the producers of its inputs.
pub fn link(flat: &Vec<FlatNode>) -> (r: Result<Vec<Vec<Option<usize>>>, CompileError>)
    ensures
        match linked(nodes_view(flat@), flat@.len() as int) {
            Ok(links) => r is Ok && links_view(r->Ok_0@) == links && links_fit(links, flat@.len())
                && forall|i: int|
                0 <= i < links.len() ==> (#[trigger] links[i]).len() == flat@[i].inputs@.len(),
            Err(e) => r == Err::<Vec<Vec<Option<usize>>>, CompileError>(e),
        },
{
    let mut table: Vec<Vec<Option<usize>>> = Vec::new();
    let mut i: usize = 0;
    assert(links_view(table@) =~= Seq::<Seq<Option<usize>>>::empty());
    while i < flat.len()
        invariant
            i <= flat@.len(),
            nodes_view(flat@).len() == flat@.len(),
            linked(nodes_view(flat@), i as int) == Ok::<Seq<Seq<Option<usize>>>, CompileError>(
                links_view(table@),
            ),
            table@.len() == i,
            forall|a: int, k: int|
                0 <= a < table@.len() && 0 <= k < table@[a]@.len() && (#[trigger] table@[a]@[k]) is Some
                    ==> table@[a]@[k]->Some_0 < flat@.len(),
            forall|a: int| 0 <= a < table@.len() ==> (#[trigger] table@[a])@.len() == flat@[a].inputs@.len(),
        decreases flat.len() - i,
    {
        let ghost before = links_view(table@);
        assert(nodes_view(flat@)[i as int] == flat@[i as int]@);
        match link_node(flat, &flat[i]) {
            Ok(links) => {
                table.push(links);
                assert(links_view(table@) =~= before.push(links@));
            },
            Err(e) => {
                proof {
                    lemma_linked_fail(nodes_view(flat@), i + 1, flat@.len() as int);
                }
                return Err(e);
            },
        }
        i += 1;
    }
    proof {
        let links = links_view(table@);
        assert forall|a: int, k: int|
            0 <= a < links.len() && 0 <= k < links[a].len() && (#[trigger] links[a][k]) is Some implies links[a][k]->Some_0
            < flat@.len() by {
            assert(links[a] == table@[a]@);
            assert(table@[a]@[k] is Some);
        }
        assert forall|a: int| 0 <= a < links.len() implies (#[trigger] links[a]).len()
            == flat@[a].inputs@.len() by {
            assert(links[a] == table@[a]@);
        }
    }
    Ok(table)
}

fn is_ready(links: &Vec<Vec<Option<usize>>>, placed: &Vec<bool>, i: usize) -> (r: bool)
    requires
        i < links@.len(),
        placed@.len() == links@.len(),
    ensures
        r == (!placed@[i as int] && producers_placed(links_view(links@), placed@, i as int)),
{
    if placed[i] {
        return false;
    }
    let row = &links[i];
    assert(links_view(links@)[i as int] == row@);
    let mut k: usize = 0;
    while k < row.len()
        invariant
            k <= row@.len(),
            i < links@.len(),
            links_view(links@)[i as int] == row@,
            forall|a: int|
                0 <= a < k ==> match #[trigger] row@[a] {
                    Some(j) => j < placed@.len() && placed@[j as int],
                    None => true,
                },
        decreases row.len() - k,
    {
        match row[k] {
            Some(j) => {
                if j >= placed.len() || !placed[j] {
                    assert(!producers_placed(links_view(links@), placed@, i as int)) by {
                        assert(links_view(links@)[i as int][k as int] == Some(j));
                    }
                    return false;
                }
            },
            None => {},
        }
        k += 1;
    }
    true
}

fn next_ready(links: &Vec<Vec<Option<usize>>>, placed: &Vec<bool>) -> (r: Option<usize>)
    requires
        placed@.len() == links@.len(),
    ensures
        match r {
            Some(i) => first_ready(links_view(links@), placed@, 0) == Some(i as int) && i
                < links@.len() && !placed@[i as int] && producers_placed(
                links_view(links@),
                placed@,
                i as int,
            ),
            None => first_ready(links_view(links@), placed@, 0) is None,
        },
{
    let mut i: usize = 0;
    while i < links.len()
        invariant
            i <= links@.len(),
            placed@.len() == links@.len(),
            links_view(links@).len() == links@.len(),
            first_ready(links_view(links@), placed@, 0) == first_ready(
                links_view(links@),
                placed@,
                i as int,
            ),
        decreases links.len() - i,
    {
        if is_ready(links, placed, i) {
            return Some(i);
        }
        i += 1;
    }
    None
}

fn next_waiting(placed: &Vec<bool>) -> (r: usize)
    ensures
        r == match first_waiting(placed@, 0) {
            Some(i) => i as usize,
            None => 0,
        },
{
    let mut i: usize = 0;
    while i < placed.len()
        invariant
            i <= placed@.len(),
            first_waiting(placed@, 0) == first_waiting(placed@, i as int),
        decreases placed.len() - i,
    {
        if !placed[i] {
            return i;
        }
        i += 1;
    }
    0
}

/// Puts the nodes in construction order: in every round the first node is
/// placed whose producers have all been placed.
///
/// On success every node is placed once and every producer stands before its
/// consumers. Where the nodes depend on each other in a circle the first node
/// that could not be placed is returned.
pub fn schedule(links: &Vec<Vec<Option<usize>>>) -> (r: Result<Vec<usize>, usize>)
    ensures
        match scheduled(links_view(links@), none_placed(links@.len()), links@.len()) {
            Ok(order) => r is Ok && r->Ok_0@ == order,
            Err(stuck) => r == Err::<Vec<usize>, usize>(stuck),
        },
        r is Ok ==> r->Ok_0@.len() == links@.len() && r->Ok_0@.no_duplicates() && (forall|p: int|
            0 <= p < r->Ok_0@.len() ==> (#[trigger] r->Ok_0@[p]) < links@.len())
            && producers_first(links_view(links@), r->Ok_0@),
{
    let n = links.len();
    let ghost table = links_view(links@);
    let mut placed: Vec<bool> = Vec::new();
    let mut i: usize = 0;
    while i < n
        invariant
            i <= n,
            placed@.len() == i,
            forall|a: int| 0 <= a < i ==> !(#[trigger] placed@[a]),
        decreases n - i,
    {
        placed.push(false);
        i += 1;
    }
    assert(placed@ =~= none_placed(n as nat));
    let ghost start = placed@;
    let mut order: Vec<usize> = Vec::new();
    let mut round: usize = 0;
    assert(Seq::<usize>::empty() + scheduled(table, placed@, n as nat)->Ok_0 =~= scheduled(
        table,
        placed@,
        n as nat,
    )->Ok_0);
    while round < n
        invariant
            round <= n,
            n == links@.len(),
            table == links_view(links@),
            placed@.len() == n,
            order@.len() == round,
            start == none_placed(n as nat),
            match scheduled(table, placed@, (n - round) as nat) {
                Ok(rest) => scheduled(table, start, n as nat) == Ok::<Seq<usize>, usize>(
                    order@ + rest,
                ),
                Err(stuck) => scheduled(table, start, n as nat) == Err::<Seq<usize>, usize>(stuck),
            },
            forall|p: int| 0 <= p < order@.len() ==> (#[trigger] order@[p]) < n,
            forall|j: int|
                0 <= j < n ==> (#[trigger] placed@[j] <==> exists|q: int|
                    0 <= q < order@.len() && order@[q] == j),
            order@.no_duplicates(),
            producers_first(table, order@),
        decreases n - round,
    {
        let ghost before = placed@;
        let ghost so_far = order@;
        match next_ready(links, &placed) {
            None => {
                return Err(next_waiting(&placed));
            },
            Some(i) => {
                placed[i] = true;
                order.push(i);
                proof {
                    assert(placed@ =~= before.update(i as int, true));
                    let later = scheduled(table, placed@, (n - round - 1) as nat);
                    match later {
                        Ok(rest) => {
                            assert(so_far + (seq![i] + rest) =~= order@ + rest);
                        },
                        Err(_) => {},
                    }
                    assert(order@[round as int] == i);
                    assert forall|j: int| 0 <= j < n implies (#[trigger] placed@[j] <==> exists|
                        q: int,
                    |
                        0 <= q < order@.len() && order@[q] == j) by {
                        if j == i {
                            assert(order@[round as int] == j);
                        } else {
                            if before[j] {
                                let q = choose|q: int| 0 <= q < so_far.len() && so_far[q] == j;
                                assert(order@[q] == j);
                            }
                            if exists|q: int| 0 <= q < order@.len() && order@[q] == j {
                                let q = choose|q: int| 0 <= q < order@.len() && order@[q] == j;
                                assert(q < round);
                                assert(so_far[q] == j);
                            }
                        }
                    }
                    assert(order@.no_duplicates()) by {
                        assert forall|a: int, b: int|
                            0 <= a < order@.len() && 0 <= b < order@.len() && a != b implies order@[a]
                            != order@[b] by {
                            if a == round {
                                assert(so_far[b] == order@[b]);
                            } else if b == round {
                                assert(so_far[a] == order@[a]);
                            } else {
                                assert(so_far[a] == order@[a] && so_far[b] == order@[b]);
                            }
                        }
                    }
                    assert(producers_first(table, order@)) by {
                        assert forall|p: int, k: int|
                            0 <= p < order@.len() && order@[p] < table.len() && 0 <= k
                                < table[order@[p] as int].len()
                                && (#[trigger] table[order@[p] as int][k]) is Some implies exists|
                            q: int,
                        |
                            0 <= q < p && #[trigger] order@[q] == table[order@[p] as int][k]->Some_0 by {
                            if p < round {
                                assert(so_far[p] == order@[p]);
                                let q = choose|q: int|
                                    0 <= q < p && #[trigger] so_far[q]
                                        == table[so_far[p] as int][k]->Some_0;
                                assert(order@[q] == so_far[q]);
                            } else {
                                let j = table[i as int][k]->Some_0;
                                assert(before[j as int]);
                                let q = choose|q: int| 0 <= q < so_far.len() && so_far[q] == j;
                                assert(order@[q] == j);
                            }
                        }
                    }
                }
            },
        }
        round += 1;
    }
    proof {
        assert(order@ + Seq::<usize>::empty() =~= order@);
    }
    Ok(order)
}

} // verus!
