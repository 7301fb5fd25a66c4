use rustlab::playground::binary_tree::TreeNode;
use rustlab::playground::graph::{get_ref_count, GraphNode};
use std::rc::Rc;

#[test]
fn test_create_node() {
    let node = TreeNode::new(10);
    assert_eq!(node.value, 10);
    assert!(node.left.is_none());
    assert!(node.right.is_none());
}

#[test]
fn test_insert_left_and_right() {
    let mut root = TreeNode::new(10);
    root.insert(5);
    root.insert(15);

    assert!(root.left.is_some());
    assert!(root.right.is_some());
    assert_eq!(root.left.as_ref().unwrap().value, 5);
    assert_eq!(root.right.as_ref().unwrap().value, 15);
}

#[test]
fn test_contains_value() {
    let mut root = TreeNode::new(10);
    root.insert(5);
    root.insert(15);
    root.insert(3);

    assert!(root.contains(10));
    assert!(root.contains(5));
    assert!(root.contains(15));
    assert!(root.contains(3));
    assert!(!root.contains(99));
}

#[test]
fn test_in_order_traversal() {
    let mut root = TreeNode::new(5);
    root.insert(3);
    root.insert(7);
    root.insert(1);
    root.insert(4);

    let sorted = root.in_order();
    assert_eq!(sorted, vec![1, 3, 4, 5, 7]);
}

#[test]
fn test_duplicate_insert_ignored() {
    let mut root = TreeNode::new(10);
    root.insert(10);
    root.insert(10);

    assert!(root.left.is_none());
    assert!(root.right.is_none());
}

#[test]
fn test_deep_tree() {
    let mut root = TreeNode::new(5);
    for i in 1..=10 {
        root.insert(i);
    }

    assert_eq!(root.in_order(), vec![1, 2, 3, 4, 5, 6, 7, 8, 9, 10]);
    assert!(root.contains(1));
    assert!(root.contains(10));
}

#[test]
fn tree_in_order_is_sorted_after_mixed_inserts() {
    let mut root = TreeNode::new(0);
    for v in [9, -4, 3, 3, -20, 15, 7] {
        root.insert(v);
    }
    assert_eq!(root.in_order(), vec![-20, -4, 0, 3, 7, 9, 15]);
    assert!(!root.contains(8));
}

#[test]
fn graph_test_create_node() {
    let node = GraphNode::new(10);
    assert_eq!(node.value, 10);
    assert!(node.parent.is_none());
}

#[test]
fn test_shared_parent() {
    let parent = GraphNode::new(1);
    let child1 = GraphNode::with_parent(2, Rc::clone(&parent));
    let child2 = GraphNode::with_parent(3, Rc::clone(&parent));

    assert_eq!(child1.parent.as_ref().unwrap().value, 1);
    assert_eq!(child2.parent.as_ref().unwrap().value, 1);

    assert!(Rc::ptr_eq(
        &child1.parent.as_ref().unwrap(),
        &child2.parent.as_ref().unwrap()
    ));
}

#[test]
fn test_ref_count_increases() {
    let node = GraphNode::new(42);
    assert_eq!(get_ref_count(&node), 1);

    let _alias = Rc::clone(&node);
    assert_eq!(get_ref_count(&node), 2);

    let _another = Rc::clone(&node);
    assert_eq!(get_ref_count(&node), 3);
}

#[test]
fn test_ref_count_decreases_on_drop() {
    let node = GraphNode::new(99);
    {
        let _temp = Rc::clone(&node);
        assert_eq!(get_ref_count(&node), 2);
    }

    assert_eq!(get_ref_count(&node), 1);
}

#[test]
fn test_graph_structure() {
    let root = GraphNode::new(1);
    let left = GraphNode::with_parent(2, Rc::clone(&root));
    let right = GraphNode::with_parent(3, Rc::clone(&root));

    assert_eq!(get_ref_count(&root), 3);
    assert_eq!(left.value, 2);
    assert_eq!(right.value, 3);
}
