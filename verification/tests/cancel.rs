use mink::cancel::CancelTree;

#[test]
fn cancel_wakes_cancelled() {
    let mut tokens = CancelTree::new();
    let token = tokens.root();
    assert!(!tokens.is_cancelled(token));
    assert_eq!(tokens.cancel(token), vec![token]);
    assert!(tokens.is_cancelled(token));
    // Nobody is left to be told.
    assert!(tokens.cancel(token).is_empty());
}

#[test]
fn linked_child_cancel_does_not_cancel_parent() {
    let mut tokens = CancelTree::new();
    let parent = tokens.root();
    let child = tokens.child(parent);
    tokens.cancel(child);
    assert!(tokens.is_cancelled(child));
    assert!(!tokens.is_cancelled(parent));
}

#[test]
fn linked_child_observes_parent_cancel() {
    let mut tokens = CancelTree::new();
    let parent = tokens.root();
    let child = tokens.child(parent);
    assert_eq!(tokens.cancel(parent), vec![parent, child]);
    assert!(tokens.is_cancelled(child));
}

#[test]
fn child_of_a_cancelled_token_is_cancelled() {
    let mut tokens = CancelTree::new();
    let parent = tokens.root();
    tokens.cancel(parent);
    let child = tokens.child(parent);
    assert!(tokens.is_cancelled(child));
}

#[test]
fn grandchild_hears_only_through_a_held_child() {
    let mut tokens = CancelTree::new();
    let parent = tokens.root();
    let child = tokens.child(parent);
    let grandchild = tokens.child(child);
    let other = tokens.root();
    tokens.release(child);
    tokens.cancel(parent);
    assert!(!tokens.is_cancelled(grandchild));
    assert!(!tokens.is_cancelled(other));
}

#[test]
fn released_tokens_leave_the_end() {
    let mut tokens = CancelTree::new();
    let parent = tokens.root();
    let child = tokens.child(parent);
    let grandchild = tokens.child(child);
    tokens.release(child);
    assert_eq!(tokens.nodes.len(), 3);
    tokens.release(grandchild);
    assert_eq!(tokens.nodes.len(), 1);
}
