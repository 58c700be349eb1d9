//! Who is told that work is to stop.

use vstd::prelude::*;

verus! {

/// A token: whoever holds it can stop the work, and hears when it is to stop.
#[derive(Clone, Copy, Debug, PartialEq, Eq, Structural)]
pub struct CancelNode {
    /// The token from which it was made.
    pub parent: Option<usize>,
    /// Whether its work is to stop.
    pub cancelled: bool,
    /// Whether anybody holds it.
    pub live: bool,
}

/// The token from which the token at `i` was made, where there is one.
pub open spec fn parent_of(nodes: Seq<CancelNode>, i: int) -> Option<int> {
    match nodes[i].parent {
        Some(p) => Some(p as int),
        None => None,
    }
}

/// Whether the token at `i` hears of it when the work of the one at `from` stops: it is held, and
/// so is each one on the way from it to the one at `from`.
pub open spec fn hears(nodes: Seq<CancelNode>, from: int, i: int) -> bool
    decreases i,
    when 0 <= i < nodes.len()
{
    nodes[i].live && match parent_of(nodes, i) {
        Some(p) => p == from || (0 <= p < i && hears(nodes, from, p)),
        None => false,
    }
}

/// What holds of all tokens: a token comes after the one from which it was made, and where the
/// work of that one is to stop, so is its own, as long as it is held.
pub open spec fn tokens_valid(nodes: Seq<CancelNode>) -> bool {
    forall|i: int|
        0 <= i < nodes.len() && (#[trigger] nodes[i]).parent is Some ==> {
            &&& 0 <= parent_of(nodes, i)->Some_0 < i
            &&& nodes[i].live && nodes[parent_of(nodes, i)->Some_0].cancelled ==> nodes[i].cancelled
        }
}

/// The tokens when the work of the one at `from` stops.
pub open spec fn after_cancel(nodes: Seq<CancelNode>, from: int) -> Seq<CancelNode> {
    Seq::new(
        nodes.len(),
        |i: int|
            if i == from || hears(nodes, from, i) {
                CancelNode { cancelled: true, ..nodes[i] }
            } else {
                nodes[i]
            },
    )
}

/// The tokens with one more, made from the one at `parent`.
pub open spec fn with_child(nodes: Seq<CancelNode>, parent: int) -> Seq<CancelNode> {
    nodes.push(
        CancelNode {
            parent: Some(parent as usize),
            cancelled: nodes[parent].cancelled,
            live: true,
        },
    )
}

/// The tokens when nobody holds the one at `i` any more.
pub open spec fn after_release(nodes: Seq<CancelNode>, i: int) -> Seq<CancelNode> {
    nodes.update(i, CancelNode { live: false, ..nodes[i] })
}

/// The tokens without those at the end that nobody holds.
pub open spec fn without_dead_end(nodes: Seq<CancelNode>) -> Seq<CancelNode>
    decreases nodes.len(),
{
    if nodes.len() > 0 && !nodes.last().live {
        without_dead_end(nodes.drop_last())
    } else {
        nodes
    }
}

/// All tokens.
#[derive(Debug)]
pub struct CancelTree {
    pub nodes: Vec<CancelNode>,
}

impl CancelTree {
    /// What holds of all tokens.
    pub open spec fn valid(self) -> bool {
        tokens_valid(self.nodes@)
    }

    /// No tokens.
    pub fn new() -> (r: CancelTree)
        ensures
            r.nodes@.len() == 0,
            r.valid(),
    {
        CancelTree { nodes: Vec::new() }
    }

    /// Makes a token of its own.
    pub fn root(&mut self) -> (r: usize)
        requires
            old(self).valid(),
        ensures
            r == old(self).nodes@.len(),
            final(self).nodes@ == old(self).nodes@.push(
                CancelNode { parent: None, cancelled: false, live: true },
            ),
            final(self).valid(),
    {
        let id: usize = self.nodes.len();
        self.nodes.push(CancelNode { parent: None, cancelled: false, live: true });
        id
    }

    /// Makes a token from the one at `parent`: it hears when the work of that one stops, and not
    /// the other way round.
    pub fn child(&mut self, parent: usize) -> (r: usize)
        requires
            old(self).valid(),
            parent < old(self).nodes@.len(),
        ensures
            r == old(self).nodes@.len(),
            final(self).nodes@ == with_child(old(self).nodes@, parent as int),
            final(self).valid(),
    {
        let id: usize = self.nodes.len();
        let cancelled: bool = self.nodes[parent].cancelled;
        self.nodes.push(CancelNode { parent: Some(parent), cancelled, live: true });
        id
    }

    /// Whether the work of the token at `id` is to stop.
    pub fn is_cancelled(&self, id: usize) -> (r: bool)
        requires
            id < self.nodes@.len(),
        ensures
            r == self.nodes@[id as int].cancelled,
    {
        self.nodes[id].cancelled
    }

    /// Stops the work of the token at `id`, and that of each one that hears of it. Gives the
    /// tokens whose work was not to stop before.
    pub fn cancel(&mut self, id: usize) -> (r: Vec<usize>)
        requires
            old(self).valid(),
            id < old(self).nodes@.len(),
        ensures
            final(self).nodes@ == after_cancel(old(self).nodes@, id as int),
            final(self).valid(),
            forall|k: int|
                0 <= k < r@.len() ==> {
                    &&& (#[trigger] r@[k]) < old(self).nodes@.len()
                    &&& !old(self).nodes@[r@[k] as int].cancelled
                    &&& final(self).nodes@[r@[k] as int].cancelled
                },
            forall|i: int|
                #![trigger old(self).nodes@[i]]
                0 <= i < old(self).nodes@.len() && !old(self).nodes@[i].cancelled && (i == id
                    || hears(old(self).nodes@, id as int, i)) ==> r@.contains(i as usize),
    {
        let ghost start = self.nodes@;
        let mut told: Vec<usize> = Vec::new();
        let mut heard: Vec<bool> = Vec::new();
        let mut i: usize = 0;
        let total: usize = self.nodes.len();
        while i < total
            invariant
                tokens_valid(start),
                start == old(self).nodes@,
                start.len() == total,
                self.nodes@.len() == total,
                heard@.len() == i,
                i <= total,
                id < total,
                forall|k: int|
                    0 <= k < i ==> #[trigger] heard@[k] == (k == id || hears(start, id as int, k)),
                forall|k: int| 0 <= k < i ==> #[trigger] self.nodes@[k] == after_cancel(
                    start,
                    id as int,
                )[k],
                forall|k: int| i <= k < total ==> #[trigger] self.nodes@[k] == start[k],
                forall|k: int|
                    0 <= k < told@.len() ==> {
                        &&& (#[trigger] told@[k]) < i
                        &&& !start[told@[k] as int].cancelled
                        &&& (told@[k] == id || hears(start, id as int, told@[k] as int))
                    },
                forall|k: int|
                    #![trigger start[k]]
                    0 <= k < i && !start[k].cancelled && (k == id || hears(start, id as int, k))
                        ==> told@.contains(k as usize),
            decreases total - i,
        {
            let node: CancelNode = self.nodes[i];
            assert(node == start[i as int]);
            let hit: bool = i == id || (node.live && match node.parent {
                Some(p) => p == id || heard[p],
                None => false,
            });
            let ghost before = told@;
            if hit {
                if !node.cancelled {
                    told.push(i);
                    assert(told@[told@.len() - 1] == i);
                }
                let marked: CancelNode = CancelNode {
                    parent: node.parent,
                    cancelled: true,
                    live: node.live,
                };
                self.nodes.set(i, marked);
            }
            heard.push(hit);
            proof {
                assert forall|k: int|
                    #![trigger start[k]]
                    0 <= k < i + 1 && !start[k].cancelled && (k == id || hears(
                        start,
                        id as int,
                        k,
                    )) implies told@.contains(k as usize) by {
                    if k < i {
                        assert(before.contains(k as usize));
                        let at = choose|at: int|
                            0 <= at < before.len() && before[at] == k as usize;
                        assert(told@[at] == k as usize);
                    }
                }
            }
            i += 1;
        }
        proof {
            assert(self.nodes@ =~= after_cancel(start, id as int));
            cancel_keeps_valid(start, id as int);
        }
        told
    }

    /// Nobody holds the token at `id` any more.
    pub fn release(&mut self, id: usize)
        requires
            old(self).valid(),
            id < old(self).nodes@.len(),
        ensures
            final(self).nodes@ == without_dead_end(
                after_release(old(self).nodes@, id as int),
            ),
            final(self).valid(),
    {
        let ghost start = self.nodes@;
        let node: CancelNode = self.nodes[id];
        self.nodes.set(
            id,
            CancelNode { parent: node.parent, cancelled: node.cancelled, live: false },
        );
        let ghost released = self.nodes@;
        assert(released =~= after_release(start, id as int));
        proof {
            release_keeps_valid(start, id as int);
        }
        while self.nodes.len() > 0 && !self.nodes[self.nodes.len() - 1].live
            invariant
                tokens_valid(self.nodes@),
                without_dead_end(self.nodes@) == without_dead_end(released),
            decreases self.nodes@.len(),
        {
            let ghost before = self.nodes@;
            let _ = self.nodes.pop();
            assert(self.nodes@ =~= before.drop_last());
            assert forall|i: int|
                0 <= i < self.nodes@.len() && (#[trigger] self.nodes@[i]).parent is Some implies {
                &&& 0 <= parent_of(self.nodes@, i)->Some_0 < i
                &&& self.nodes@[i].live && self.nodes@[parent_of(
                    self.nodes@,
                    i,
                )->Some_0].cancelled ==> self.nodes@[i].cancelled
            } by {
                assert(before[i] == self.nodes@[i]);
            }
        }
    }
}

/// To stop the work of a token keeps what holds of all tokens.
pub proof fn cancel_keeps_valid(nodes: Seq<CancelNode>, from: int)
    requires
        tokens_valid(nodes),
        0 <= from < nodes.len(),
    ensures
        tokens_valid(after_cancel(nodes, from)),
{
    let after = after_cancel(nodes, from);
    assert forall|i: int| 0 <= i < after.len() && (#[trigger] after[i]).parent is Some implies {
        &&& 0 <= parent_of(after, i)->Some_0 < i
        &&& after[i].live && after[parent_of(after, i)->Some_0].cancelled ==> after[i].cancelled
    } by {
        assert(nodes[i].parent is Some);
        let p = parent_of(nodes, i)->Some_0;
        assert(0 <= p < i);
    }
}

/// That nobody holds a token any more keeps what holds of all tokens.
pub proof fn release_keeps_valid(nodes: Seq<CancelNode>, at: int)
    requires
        tokens_valid(nodes),
        0 <= at < nodes.len(),
    ensures
        tokens_valid(after_release(nodes, at)),
{
    let after = after_release(nodes, at);
    assert forall|i: int| 0 <= i < after.len() && (#[trigger] after[i]).parent is Some implies {
        &&& 0 <= parent_of(after, i)->Some_0 < i
        &&& after[i].live && after[parent_of(after, i)->Some_0].cancelled ==> after[i].cancelled
    } by {
        assert(nodes[i].parent is Some);
    }
}

/// A token that was made from another does not stop its work: only those that come after a token
/// can hear of it.
pub proof fn cancel_does_not_reach_up(nodes: Seq<CancelNode>, from: int, i: int)
    requires
        tokens_valid(nodes),
        0 <= from < nodes.len(),
        0 <= i < from,
    ensures
        after_cancel(nodes, from)[i] == nodes[i],
    decreases i,
{
    lemma_hears_only_above(nodes, from, i);
}

proof fn lemma_hears_only_above(nodes: Seq<CancelNode>, from: int, i: int)
    requires
        tokens_valid(nodes),
        0 <= from < nodes.len(),
        0 <= i < nodes.len(),
    ensures
        hears(nodes, from, i) ==> from < i,
    decreases i,
{
    if nodes[i].parent is Some {
        let p = parent_of(nodes, i)->Some_0;
        assert(0 <= p < i);
        lemma_hears_only_above(nodes, from, p);
    }
}

/// A token that is made from one whose work is to stop is itself to stop from the start.
pub proof fn child_of_cancelled_is_cancelled(nodes: Seq<CancelNode>, parent: int)
    requires
        tokens_valid(nodes),
        0 <= parent < nodes.len(),
        nodes[parent].cancelled,
    ensures
        with_child(nodes, parent).last().cancelled,
{
}

/// A token that is held, and each one on the way to the one from which it comes, hears when the
/// work of that one stops.
pub proof fn cancel_reaches_down(nodes: Seq<CancelNode>, from: int, i: int)
    requires
        tokens_valid(nodes),
        0 <= from < nodes.len(),
        0 <= i < nodes.len(),
        hears(nodes, from, i),
    ensures
        after_cancel(nodes, from)[i].cancelled,
{
}

/// To stop the work of a token again changes nothing.
pub proof fn cancel_twice_is_once(nodes: Seq<CancelNode>, from: int)
    requires
        tokens_valid(nodes),
        0 <= from < nodes.len(),
    ensures
        after_cancel(after_cancel(nodes, from), from) == after_cancel(nodes, from),
{
    let once = after_cancel(nodes, from);
    let twice = after_cancel(once, from);
    assert forall|i: int| 0 <= i < once.len() implies twice[i] == once[i] by {
        lemma_same_hearing(nodes, from, i);
    }
    assert(twice =~= once);
}

proof fn lemma_same_hearing(nodes: Seq<CancelNode>, from: int, i: int)
    requires
        tokens_valid(nodes),
        0 <= from < nodes.len(),
        0 <= i < nodes.len(),
    ensures
        hears(after_cancel(nodes, from), from, i) == hears(nodes, from, i),
    decreases i,
{
    if nodes[i].parent is Some {
        let p = parent_of(nodes, i)->Some_0;
        assert(0 <= p < i);
        lemma_same_hearing(nodes, from, p);
    }
}

} // verus!
