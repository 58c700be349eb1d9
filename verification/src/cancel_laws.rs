//! What holds of the tokens by which work is told to stop.

use crate::cancel::{
    after_cancel, after_release, cancel_does_not_reach_up, cancel_keeps_valid, hears, parent_of,
    tokens_valid, with_child, without_dead_end, CancelNode,
};
use vstd::prelude::*;

verus! {

/// To stop the work of a token touches nothing but whether work is to stop, lets nothing go on
/// that was to stop, and reaches the token itself and every held token of which the one from
/// which it was made stops by it.
pub proof fn cancel_passes_from_token_to_token(nodes: Seq<CancelNode>, from: int, i: int)
    requires
        tokens_valid(nodes),
        0 <= from < nodes.len(),
        0 <= i < nodes.len(),
    ensures
        ({
            let after = after_cancel(nodes, from);
            &&& after.len() == nodes.len()
            &&& after[i].parent == nodes[i].parent
            &&& after[i].live == nodes[i].live
            &&& nodes[i].cancelled ==> after[i].cancelled
            &&& after[from].cancelled
            &&& nodes[i].live && nodes[i].parent is Some
                && after[nodes[i].parent->Some_0 as int].cancelled ==> after[i].cancelled
        }),
{
    cancel_keeps_valid(nodes, from);
    let after = after_cancel(nodes, from);
    assert(after[i].parent == nodes[i].parent);
    assert(parent_of(after, i) == parent_of(nodes, i));
}

/// A token other than the one whose work is stopped stops by it only where it is held and the
/// one from which it was made is that one or stops by it too.
pub proof fn cancel_reaches_no_other_token(nodes: Seq<CancelNode>, from: int, i: int)
    requires
        tokens_valid(nodes),
        0 <= from < nodes.len(),
        0 <= i < nodes.len(),
        i != from,
        !nodes[i].cancelled,
        after_cancel(nodes, from)[i].cancelled,
    ensures
        nodes[i].live,
        nodes[i].parent is Some,
        ({
            let p = nodes[i].parent->Some_0 as int;
            0 <= p < i && after_cancel(nodes, from)[p].cancelled
        }),
{
    let p = parent_of(nodes, i)->Some_0;
    assert(0 <= p < i);
}

/// To let go of a token leaves every other token as it is: what is dropped from the end is held
/// by nobody, and what is last afterwards is held.
pub proof fn only_tokens_that_nobody_holds_are_dropped(nodes: Seq<CancelNode>, at: int, i: int)
    requires
        0 <= at < nodes.len(),
        0 <= i < nodes.len(),
    ensures
        ({
            let after = without_dead_end(after_release(nodes, at));
            &&& after.len() <= nodes.len()
            &&& after.len() > 0 ==> after.last().live
            &&& i != at && nodes[i].live ==> i < after.len()
            &&& i < after.len() && i != at ==> after[i] == nodes[i]
            &&& at < after.len() ==> !after[at].live && after[at].cancelled == nodes[at].cancelled
                && after[at].parent == nodes[at].parent
        }),
{
    lemma_dead_end(after_release(nodes, at));
    let released = after_release(nodes, at);
    let after = without_dead_end(released);
    if i != at && nodes[i].live && i >= after.len() {
        assert(!released[i].live);
    }
}

proof fn lemma_dead_end(nodes: Seq<CancelNode>)
    ensures
        without_dead_end(nodes).is_prefix_of(nodes),
        without_dead_end(nodes).len() > 0 ==> without_dead_end(nodes).last().live,
        forall|i: int|
            without_dead_end(nodes).len() <= i < nodes.len() ==> !(#[trigger] nodes[i]).live,
    decreases nodes.len(),
{
    if nodes.len() > 0 && !nodes.last().live {
        lemma_dead_end(nodes.drop_last());
        let rest = nodes.drop_last();
        assert forall|i: int| without_dead_end(nodes).len() <= i < nodes.len() implies !(
        #[trigger] nodes[i]).live by {
            if i < rest.len() {
                assert(rest[i] == nodes[i]);
            }
        }
    }
}

/// A token made from another stops with it and, alone, leaves that one as it is.
pub proof fn child_stops_with_its_parent(nodes: Seq<CancelNode>, parent: int)
    requires
        tokens_valid(nodes),
        0 <= parent < nodes.len() <= usize::MAX,
    ensures
        ({
            let with = with_child(nodes, parent);
            let child = nodes.len() as int;
            &&& with.len() == nodes.len() + 1
            &&& with.take(child) == nodes
            &&& with[child].cancelled == nodes[parent].cancelled
            &&& after_cancel(with, parent)[child].cancelled
            &&& after_cancel(with, child)[parent].cancelled == nodes[parent].cancelled
        }),
{
    let with = with_child(nodes, parent);
    let child = nodes.len() as int;
    assert(with.take(child) == nodes);
    assert(parent_of(with, child) == Some(parent));
    assert(hears(with, parent, child));
    assert forall|i: int| 0 <= i < with.len() && (#[trigger] with[i]).parent is Some implies {
        &&& 0 <= parent_of(with, i)->Some_0 < i
        &&& with[i].live && with[parent_of(with, i)->Some_0].cancelled ==> with[i].cancelled
    } by {
        if i < child {
            assert(with[i] == nodes[i]);
            assert(parent_of(with, i) == parent_of(nodes, i));
        }
    }
    cancel_does_not_reach_up(with, child, parent);
}

} // verus!
