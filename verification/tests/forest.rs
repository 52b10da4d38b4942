use widgets::tree::Forest;

#[test]
fn append_under_main_root_succeeds() {
    let mut forest = Forest::new(1);
    assert!(forest.append_node(1, 2));
    assert!(forest.append_node(2, 3));
}

#[test]
fn append_under_unknown_parent_fails() {
    let mut forest = Forest::new(1);
    assert!(!forest.append_node(7, 2));
    // the refused node was not added either
    assert!(!forest.append_node(2, 3));
}

#[test]
fn remove_subtree_forgets_all_descendants() {
    let mut forest = Forest::new(1);
    assert!(forest.append_node(1, 2));
    assert!(forest.append_node(2, 3));
    assert!(forest.append_node(3, 4));
    assert!(forest.append_node(1, 5));
    forest.remove_subtree(2);
    assert!(!forest.append_node(2, 10));
    assert!(!forest.append_node(3, 11));
    assert!(!forest.append_node(4, 12));
    // nodes outside the subtree stay
    assert!(forest.append_node(5, 13));
    assert!(forest.append_node(1, 14));
}

#[test]
fn remove_subtree_of_main_root_does_nothing() {
    let mut forest = Forest::new(1);
    assert!(forest.append_node(1, 2));
    forest.remove_subtree(1);
    assert!(forest.append_node(1, 3));
    assert!(forest.append_node(2, 4));
}

#[test]
fn remove_subtree_of_unknown_id_does_nothing() {
    let mut forest = Forest::new(1);
    assert!(forest.append_node(1, 2));
    forest.remove_subtree(42);
    assert!(forest.append_node(2, 3));
}

#[test]
fn detached_root_cannot_be_removed() {
    let mut forest = Forest::new(1);
    assert!(forest.append_node(1, 2));
    assert!(forest.append_node(2, 3));
    forest.detach_subtree(2);
    forest.remove_subtree(2);
    assert!(forest.append_node(2, 4));
    assert!(forest.append_node(3, 5));
}

#[test]
fn detached_subtree_keeps_its_nodes() {
    let mut forest = Forest::new(1);
    assert!(forest.append_node(1, 2));
    assert!(forest.append_node(2, 3));
    forest.detach_subtree(2);
    // a node below the detached root can still be removed
    forest.remove_subtree(3);
    assert!(!forest.append_node(3, 6));
    assert!(forest.append_node(2, 7));
}

#[test]
fn pending_root_cannot_be_detached_or_removed() {
    let mut forest = Forest::new(1);
    forest.new_pending_root(100);
    assert!(forest.append_node(100, 101));
    forest.detach_subtree(100);
    forest.remove_subtree(100);
    assert!(forest.append_node(100, 102));
    forest.remove_subtree(101);
    assert!(!forest.append_node(101, 103));
}

#[test]
fn replaced_pending_root_becomes_removable() {
    let mut forest = Forest::new(1);
    forest.new_pending_root(100);
    forest.new_pending_root(200);
    forest.remove_subtree(100);
    assert!(!forest.append_node(100, 101));
    assert!(forest.append_node(200, 201));
}

#[test]
fn append_then_remove_undoes_append() {
    let mut forest = Forest::new(1);
    assert!(forest.append_node(1, 2));
    forest.remove_subtree(2);
    assert!(!forest.append_node(2, 3));
    assert!(forest.append_node(1, 2));
    assert!(forest.append_node(2, 3));
}

#[test]
fn removing_a_subtree_twice_is_harmless() {
    let mut forest = Forest::new(1);
    assert!(forest.append_node(1, 2));
    assert!(forest.append_node(2, 3));
    forest.remove_subtree(3);
    forest.remove_subtree(3);
    forest.remove_subtree(2);
    forest.remove_subtree(2);
    assert!(forest.append_node(1, 4));
}

#[test]
fn detached_subtree_survives_removal_of_former_parent() {
    let mut forest = Forest::new(1);
    assert!(forest.append_node(1, 2));
    assert!(forest.append_node(2, 3));
    assert!(forest.append_node(3, 4));
    forest.detach_subtree(3);
    forest.remove_subtree(2);
    assert!(!forest.append_node(2, 5));
    assert!(forest.append_node(3, 6));
    assert!(forest.append_node(4, 7));
}

#[test]
fn detaching_main_root_or_unknown_id_does_nothing() {
    let mut forest = Forest::new(1);
    assert!(forest.append_node(1, 2));
    forest.detach_subtree(1);
    forest.detach_subtree(99);
    // node 2 is still attached below the main root: removing 1 is refused,
    // removing 2 works
    forest.remove_subtree(2);
    assert!(!forest.append_node(2, 3));
    assert!(forest.append_node(1, 3));
}

#[test]
fn detaching_twice_is_detaching_once() {
    let mut forest = Forest::new(1);
    assert!(forest.append_node(1, 2));
    assert!(forest.append_node(2, 3));
    forest.detach_subtree(2);
    forest.detach_subtree(2);
    forest.remove_subtree(2);
    assert!(forest.append_node(2, 4));
    assert!(forest.append_node(3, 5));
}
