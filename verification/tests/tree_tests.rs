use exec_runtime::error::ExecError;
use exec_runtime::test_tree::{
    LeafTestNode, ParentTestNode, TestError, TestResult, TestTree,
};

fn ok() -> TestResult {
    Ok(())
}

fn failed() -> TestResult {
    Err(TestError::ChildFailedError(Vec::new()))
}

#[test]
fn root_with_pending_children_has_no_result() {
    let mut tree = TestTree::new();
    let root = ParentTestNode::new_root(&mut tree, "all");
    let _a = ParentTestNode::new_child_leaf(&mut tree, root, "a").unwrap();
    let b = ParentTestNode::new_child_leaf(&mut tree, root, "b").unwrap();
    assert_eq!(ParentTestNode::get_result(&tree, root), None);
    LeafTestNode::update(&mut tree, b, ok());
    assert_eq!(ParentTestNode::get_result(&tree, root), None);
}

#[test]
fn root_passes_once_every_child_passed() {
    let mut tree = TestTree::new();
    let root = ParentTestNode::new_root(&mut tree, "all");
    let a = ParentTestNode::new_child_leaf(&mut tree, root, "a").unwrap();
    let b = ParentTestNode::new_child_leaf(&mut tree, root, "b").unwrap();
    LeafTestNode::update(&mut tree, a, ok());
    LeafTestNode::update(&mut tree, b, ok());
    assert_eq!(ParentTestNode::get_result(&tree, root), Some(Ok(())));
}

#[test]
fn failed_children_are_named_in_order() {
    // registration order differs from name order; the failure reports names
    // sorted by name, the order the name-keyed children collection walks in
    let mut tree = TestTree::new();
    let root = ParentTestNode::new_root(&mut tree, "all");
    let c = ParentTestNode::new_child_leaf(&mut tree, root, "gamma").unwrap();
    let a = ParentTestNode::new_child_leaf(&mut tree, root, "alpha").unwrap();
    let b = ParentTestNode::new_child_leaf(&mut tree, root, "beta").unwrap();
    LeafTestNode::update(&mut tree, a, failed());
    LeafTestNode::update(&mut tree, b, ok());
    LeafTestNode::update(&mut tree, c, failed());
    match ParentTestNode::get_result(&tree, root) {
        Some(Err(TestError::ChildFailedError(names))) => {
            assert_eq!(names, vec!["alpha".to_string(), "gamma".to_string()]);
        }
        other => panic!("expected a failure naming alpha and gamma, got {other:?}"),
    }
}

#[test]
fn failed_names_sort_even_when_registered_reversed() {
    let mut tree = TestTree::new();
    let root = ParentTestNode::new_root(&mut tree, "all");
    let b = ParentTestNode::new_child_leaf(&mut tree, root, "b").unwrap();
    let a = ParentTestNode::new_child_leaf(&mut tree, root, "a").unwrap();
    LeafTestNode::update(&mut tree, b, failed());
    LeafTestNode::update(&mut tree, a, failed());
    match ParentTestNode::get_result(&tree, root) {
        Some(Err(TestError::ChildFailedError(names))) => {
            assert_eq!(names, vec!["a".to_string(), "b".to_string()]);
        }
        other => panic!("expected a failure naming a and b, got {other:?}"),
    }
}

#[test]
fn finished_group_propagates_to_the_grandparent() {
    let mut tree = TestTree::new();
    let root = ParentTestNode::new_root(&mut tree, "suite");
    let group = ParentTestNode::new_child_parent(&mut tree, root, "ui").unwrap();
    let leaf = ParentTestNode::new_child_leaf(&mut tree, group, "stack").unwrap();
    assert_eq!(ParentTestNode::get_result(&tree, root), None);
    LeafTestNode::update(&mut tree, leaf, ok());
    // the group's aggregate was stored upward once its last child reported
    assert_eq!(ParentTestNode::get_result(&tree, group), Some(Ok(())));
    assert_eq!(ParentTestNode::get_result(&tree, root), Some(Ok(())));
}

#[test]
fn child_names_carry_the_parent_prefix() {
    let mut tree = TestTree::new();
    let root = ParentTestNode::new_root(&mut tree, "suite");
    let group = ParentTestNode::new_child_parent(&mut tree, root, "audio").unwrap();
    let leaf = ParentTestNode::new_child_leaf(&mut tree, group, "latency").unwrap();
    assert_eq!(tree.node_name(group).as_str(), "audio");
    assert_eq!(tree.node_name(leaf).as_str(), "latency");
    assert_eq!(tree.node_full_name(group).as_str(), "suite.audio");
    assert_eq!(tree.node_full_name(leaf).as_str(), "audio.latency");
    assert_eq!(tree.node_parent(leaf), Some(group));
    assert_eq!(tree.node_parent(root), None);
}

#[test]
fn duplicate_sibling_name_is_an_invariant_violation() {
    let mut tree = TestTree::new();
    let root = ParentTestNode::new_root(&mut tree, "suite");
    ParentTestNode::new_child_leaf(&mut tree, root, "same").unwrap();
    assert_eq!(
        ParentTestNode::new_child_leaf(&mut tree, root, "same"),
        Err(ExecError::InvariantViolation)
    );
    assert_eq!(
        ParentTestNode::new_child_parent(&mut tree, root, "same"),
        Err(ExecError::InvariantViolation)
    );
}

#[test]
fn a_failure_outranks_later_successes() {
    let mut tree = TestTree::new();
    let root = ParentTestNode::new_root(&mut tree, "suite");
    let a = ParentTestNode::new_child_leaf(&mut tree, root, "a").unwrap();
    let b = ParentTestNode::new_child_leaf(&mut tree, root, "b").unwrap();
    LeafTestNode::update(&mut tree, a, failed());
    LeafTestNode::update(&mut tree, b, ok());
    assert!(matches!(
        ParentTestNode::get_result(&tree, root),
        Some(Err(TestError::ChildFailedError(_)))
    ));
}
