//! Search for a cycle in a directed graph.

use vstd::prelude::*;

verus! {

/// Whether the graph `g`, given by the successors of each node, has an edge from `i` to `j`.
pub open spec fn edge(g: Seq<Vec<usize>>, i: int, j: int) -> bool {
    0 <= i < g.len() && exists|k: int| 0 <= k < g[i]@.len() && #[trigger] g[i]@[k] == j
}

/// Whether every successor is a node.
pub open spec fn closed_graph(g: Seq<Vec<usize>>) -> bool {
    forall|i: int, k: int|
        0 <= i < g.len() && 0 <= k < g[i]@.len() ==> (#[trigger] g[i]@[k]) < g.len()
}

/// Whether `p` goes along edges.
pub open spec fn is_walk(g: Seq<Vec<usize>>, p: Seq<int>) -> bool {
    &&& p.len() > 0
    &&& forall|k: int| 0 <= k < p.len() - 1 ==> edge(g, #[trigger] p[k], p[k + 1])
}

/// Whether `p` is a way from `i` along at least one edge back to `i`.
pub open spec fn is_cycle(g: Seq<Vec<usize>>, p: Seq<int>, i: int) -> bool {
    is_walk(g, p) && p.len() > 1 && p[0] == i && p.last() == i
}

/// Whether a way leads from `i` along at least one edge back to `i`.
pub open spec fn on_cycle(g: Seq<Vec<usize>>, i: int) -> bool {
    exists|p: Seq<int>| is_cycle(g, p, i)
}

/// How far the search has come with a node.
#[derive(Clone, Copy, PartialEq, Eq, Structural)]
enum Mark {
    New,
    Open,
    Left,
}

/// How many nodes have not been entered.
spec fn untouched(marks: Seq<Mark>) -> nat
    decreases marks.len(),
{
    if marks.len() == 0 {
        0
    } else {
        untouched(marks.drop_last()) + if marks.last() == Mark::New {
            1nat
        } else {
            0
        }
    }
}

proof fn lemma_untouched(a: Seq<Mark>, b: Seq<Mark>)
    requires
        a.len() == b.len(),
        forall|i: int| 0 <= i < a.len() && b[i] == Mark::New ==> a[i] == Mark::New,
    ensures
        untouched(b) <= untouched(a),
        (exists|i: int| 0 <= i < a.len() && a[i] == Mark::New && b[i] != Mark::New) ==> untouched(b) < untouched(a),
    decreases a.len(),
{
    if a.len() > 0 {
        lemma_untouched(a.drop_last(), b.drop_last());
        if exists|i: int| 0 <= i < a.len() && a[i] == Mark::New && b[i] != Mark::New {
            let i = choose|i: int| 0 <= i < a.len() && a[i] == Mark::New && b[i] != Mark::New;
            if i < a.len() - 1 {
                assert(a.drop_last()[i] == Mark::New && b.drop_last()[i] != Mark::New);
            }
        }
    }
}

/// Whether `order` lists the nodes that were left, each after all its successors.
spec fn left_in_order(g: Seq<Vec<usize>>, marks: Seq<Mark>, order: Seq<int>) -> bool {
    &&& forall|i: int| 0 <= i < marks.len() ==> (#[trigger] marks[i] == Mark::Left) == order.contains(i)
    &&& forall|k: int, j: int|
        0 <= k < order.len() && edge(g, #[trigger] order[k], j) ==> #[trigger] order.take(
            k,
        ).contains(j)
}

proof fn lemma_descends(g: Seq<Vec<usize>>, order: Seq<int>, p: Seq<int>, k: int) -> (m: int)
    requires
        forall|k: int, j: int|
            0 <= k < order.len() && edge(g, #[trigger] order[k], j) ==> #[trigger] order.take(
                k,
            ).contains(j),
        is_walk(g, p),
        p.len() > 1,
        0 <= k < order.len(),
        order[k] == p[0],
    ensures
        0 <= m < k,
        order[m] == p.last(),
    decreases p.len(),
{
    assert(edge(g, p[0], p[0int + 1]));
    assert(order.take(k).contains(p[1]));
    let next = choose|n: int| 0 <= n < order.take(k).len() && order.take(k)[n] == p[1];
    assert(order[next] == p[1]);
    if p.len() == 2 {
        next
    } else {
        let rest = p.drop_first();
        assert forall|i: int| 0 <= i < rest.len() - 1 implies edge(
            g,
            #[trigger] rest[i],
            rest[i + 1],
        ) by {
            assert(rest[i] == p[i + 1]);
            assert(edge(g, p[i + 1], p[i + 1 + 1]));
        }
        lemma_descends(g, order, rest, next)
    }
}

proof fn lemma_no_cycle(g: Seq<Vec<usize>>, order: Seq<int>, p: Seq<int>, k: int)
    requires
        forall|k: int, j: int|
            0 <= k < order.len() && edge(g, #[trigger] order[k], j) ==> #[trigger] order.take(
                k,
            ).contains(j),
        is_walk(g, p),
        p.len() > 1,
        0 <= k < order.len(),
        order[k] == p[0],
    ensures
        p[0] != p.last(),
    decreases k,
{
    let m = lemma_descends(g, order, p, k);
    if p[0] == p.last() {
        lemma_no_cycle(g, order, p, m);
    }
}

/// Enters `node` after the nodes of `path`, and all that can be reached from it. `order` lists
/// the nodes that have been left. Returns a node on a cycle where one is met.
fn visit(
    g: &Vec<Vec<usize>>,
    node: usize,
    marks: &mut Vec<Mark>,
    Ghost(path): Ghost<Seq<int>>,
    Ghost(order): Ghost<Seq<int>>,
) -> (r: (Result<(), usize>, Ghost<Seq<int>>))
    requires
        closed_graph(g@),
        node < g@.len(),
        old(marks)@.len() == g@.len(),
        forall|i: int| 0 <= i < g@.len() ==> (#[trigger] old(marks)@[i] == Mark::Open) == path.contains(i),
        path.len() > 0 ==> is_walk(g@, path.push(node as int)),
        left_in_order(g@, old(marks)@, order),
    ensures
        final(marks)@.len() == g@.len(),
        match r.0 {
            Ok(()) => {
                &&& final(marks)@[node as int] == Mark::Left
                &&& forall|i: int|
                    0 <= i < g@.len() ==> (#[trigger] final(marks)@[i] == Mark::Open) == path.contains(i)
                &&& forall|i: int|
                    0 <= i < g@.len() && #[trigger] final(marks)@[i] == Mark::New ==> old(marks)@[i] == Mark::New
                &&& forall|i: int|
                    0 <= i < g@.len() && #[trigger] old(marks)@[i] == Mark::Left ==> final(marks)@[i] == Mark::Left
                &&& left_in_order(g@, final(marks)@, r.1@)
            },
            Err(x) => x < g@.len() && on_cycle(g@, x as int),
        },
    decreases untouched(old(marks)@),
{
    if marks[node] == Mark::Left {
        return (Ok(()), Ghost(order));
    }
    if marks[node] == Mark::Open {
        proof {
            assert(path.contains(node as int));
            let m = choose|m: int| 0 <= m < path.len() && path[m] == node as int;
            let all = path.push(node as int);
            let cycle = all.skip(m);
            assert forall|k: int| 0 <= k < cycle.len() - 1 implies edge(
                g@,
                #[trigger] cycle[k],
                cycle[k + 1],
            ) by {
                assert(cycle[k] == all[m + k]);
                assert(edge(g@, all[m + k], all[m + k + 1]));
            }
            assert(cycle.last() == node as int);
            assert(is_cycle(g@, cycle, node as int));
        }
        return (Err(node), Ghost(order));
    }
    let ghost entry = marks@;
    marks.set(node, Mark::Open);
    let ghost here = path.push(node as int);
    let ghost mut done = order;
    proof {
        lemma_untouched(entry, marks@);
        assert(entry[node as int] == Mark::New && marks@[node as int] != Mark::New) by {
            if entry[node as int] != Mark::New {
                assert(entry[node as int] != Mark::Open);
                assert(entry[node as int] != Mark::Left);
            }
        }
        assert(untouched(marks@) < untouched(entry));
        assert forall|i: int| 0 <= i < g@.len() implies (#[trigger] marks@[i] == Mark::Open)
            == here.contains(i) by {
            if i == node {
                assert(here.last() == i);
            } else {
                if path.contains(i) {
                    let m = choose|m: int| 0 <= m < path.len() && path[m] == i;
                    assert(here[m] == i);
                }
                if here.contains(i) {
                    let m = choose|m: int| 0 <= m < here.len() && here[m] == i;
                    assert(path[m] == i);
                }
                assert(entry[i] == marks@[i]);
            }
        }
        assert(left_in_order(g@, marks@, done)) by {
            assert(!order.contains(node as int)) by {
                assert(entry[node as int] != Mark::Left);
            }
        }
    }
    let mut k: usize = 0;
    while k < g[node].len()
        invariant
            node < g@.len(),
            closed_graph(g@),
            k <= g@[node as int]@.len(),
            marks@.len() == g@.len(),
            entry.len() == g@.len(),
            entry[node as int] == Mark::New,
            here == path.push(node as int),
            path.len() > 0 ==> is_walk(g@, here),
            untouched(marks@) < untouched(entry),
            untouched(entry) == untouched(old(marks)@),
            forall|i: int| 0 <= i < g@.len() ==> (#[trigger] marks@[i] == Mark::Open) == here.contains(i),
            forall|i: int| 0 <= i < g@.len() && #[trigger] marks@[i] == Mark::New ==> entry[i] == Mark::New,
            forall|i: int| 0 <= i < g@.len() && #[trigger] entry[i] == Mark::Left ==> marks@[i] == Mark::Left,
            left_in_order(g@, marks@, done),
            forall|j: int| 0 <= j < k ==> marks@[(#[trigger] g@[node as int]@[j]) as int] == Mark::Left,
        decreases g@[node as int]@.len() - k,
    {
        let next: usize = g[node][k];
        let ghost before = marks@;
        proof {
            assert(g@[node as int]@[k as int] == next);
            assert(edge(g@, node as int, next as int));
            let longer = here.push(next as int);
            assert forall|i: int| 0 <= i < longer.len() - 1 implies edge(
                g@,
                #[trigger] longer[i],
                longer[i + 1],
            ) by {
                if i < here.len() - 1 {
                    assert(longer[i] == here[i] && longer[i + 1] == here[i + 1]);
                    assert(edge(g@, here[i], here[i + 1]));
                } else {
                    assert(longer[i] == node as int && longer[i + 1] == next as int);
                }
            }
        }
        let r: (Result<(), usize>, Ghost<Seq<int>>) = visit(g, next, marks, Ghost(here), Ghost(done));
        match r.0 {
            Ok(()) => {},
            Err(x) => {
                return (Err(x), Ghost(done));
            },
        }
        proof {
            done = r.1@;
            lemma_untouched(before, marks@);
        }
        k += 1;
    }
    let ghost last = marks@;
    marks.set(node, Mark::Left);
    let ghost order2 = done.push(node as int);
    proof {
        assert forall|i: int| 0 <= i < g@.len() implies (#[trigger] marks@[i] == Mark::Open)
            == path.contains(i) by {
            if i == node {
                if path.contains(i) {
                    assert(entry[i] == Mark::Open);
                }
            } else {
                assert(marks@[i] == last[i]);
                if path.contains(i) {
                    let m = choose|m: int| 0 <= m < path.len() && path[m] == i;
                    assert(here[m] == i);
                }
                if here.contains(i) {
                    let m = choose|m: int| 0 <= m < here.len() && here[m] == i;
                    assert(path[m] == i);
                }
            }
        }
        assert forall|i: int| 0 <= i < marks@.len() implies (#[trigger] marks@[i] == Mark::Left)
            == order2.contains(i) by {
            if i == node {
                assert(order2.last() == i);
            } else {
                assert(marks@[i] == last[i]);
                if done.contains(i) {
                    let m = choose|m: int| 0 <= m < done.len() && done[m] == i;
                    assert(order2[m] == i);
                }
                if order2.contains(i) {
                    let m = choose|m: int| 0 <= m < order2.len() && order2[m] == i;
                    assert(done[m] == i);
                }
            }
        }
        assert forall|a: int, j: int|
            0 <= a < order2.len() && edge(g@, #[trigger] order2[a], j) implies #[trigger] order2.take(
            a,
        ).contains(j) by {
            if a < done.len() {
                assert(order2[a] == done[a]);
                assert(order2.take(a) =~= done.take(a));
                assert(done.take(a).contains(j));
            } else {
                assert(order2.take(a) =~= done);
                let m = choose|m: int| 0 <= m < g@[node as int]@.len() && #[trigger] g@[node as int]@[m] == j;
                assert(last[g@[node as int]@[m] as int] == Mark::Left);
                assert(done.contains(j));
            }
        }
    }
    (Ok(()), Ghost(order2))
}

/// Looks for a cycle in `g`, entering the nodes as `starts` lists them.
pub fn find_cycle(g: &Vec<Vec<usize>>, starts: &Vec<usize>) -> (r: Result<(), usize>)
    requires
        closed_graph(g@),
        forall|i: int| 0 <= i < starts@.len() ==> (#[trigger] starts@[i]) < g@.len(),
        forall|n: usize| n < g@.len() ==> starts@.contains(n),
    ensures
        match r {
            Ok(()) => forall|i: int| !on_cycle(g@, i),
            Err(x) => x < g@.len() && on_cycle(g@, x as int),
        },
{
    let mut marks: Vec<Mark> = Vec::new();
    let mut n: usize = 0;
    while n < g.len()
        invariant
            n <= g@.len(),
            marks@.len() == n,
            forall|i: int| 0 <= i < n ==> #[trigger] marks@[i] == Mark::New,
        decreases g@.len() - n,
    {
        marks.push(Mark::New);
        n += 1;
    }
    let ghost mut order: Seq<int> = Seq::empty();
    let mut s: usize = 0;
    while s < starts.len()
        invariant
            s <= starts@.len(),
            closed_graph(g@),
            forall|i: int| 0 <= i < starts@.len() ==> (#[trigger] starts@[i]) < g@.len(),
            marks@.len() == g@.len(),
            forall|i: int| 0 <= i < g@.len() ==> #[trigger] marks@[i] != Mark::Open,
            left_in_order(g@, marks@, order),
            forall|i: int| 0 <= i < s ==> marks@[(#[trigger] starts@[i]) as int] == Mark::Left,
        decreases starts@.len() - s,
    {
        let ghost none: Seq<int> = Seq::empty();
        let r: (Result<(), usize>, Ghost<Seq<int>>) = visit(
            g,
            starts[s],
            &mut marks,
            Ghost(none),
            Ghost(order),
        );
        match r.0 {
            Ok(()) => {},
            Err(x) => {
                return Err(x);
            },
        }
        proof {
            order = r.1@;
        }
        s += 1;
    }
    proof {
        assert forall|i: int| !on_cycle(g@, i) by {
            if on_cycle(g@, i) {
                let p = choose|p: Seq<int>| is_cycle(g@, p, i);
                assert(edge(g@, p[0], p[0int + 1]));
                assert(0 <= i < g@.len());
                assert(starts@.contains(i as usize));
                let m = choose|m: int| 0 <= m < starts@.len() && starts@[m] == i as usize;
                assert(marks@[starts@[m] as int] == Mark::Left);
                assert(order.contains(i));
                let k = choose|k: int| 0 <= k < order.len() && order[k] == i;
                lemma_no_cycle(g@, order, p, k);
            }
        }
    }
    Ok(())
}

} // verus!
