use brainworms::scene_graph::node_indices_topological_sort;

#[test]
fn nodes_come_after_their_parents_breadth_first() {
    // 0 -> {3, 1}, 3 -> {2}, 4 is a lone root
    let children = vec![vec![3, 1], vec![], vec![], vec![2], vec![]];
    let (order, parents) = node_indices_topological_sort(&children);
    assert_eq!(order, vec![0, 4, 3, 1, 2]);
    assert_eq!(parents.len(), 3);
    assert_eq!(parents.get(&3), Some(&0));
    assert_eq!(parents.get(&1), Some(&0));
    assert_eq!(parents.get(&2), Some(&3));
    assert_eq!(parents.get(&0), None);
}

#[test]
fn roots_come_in_increasing_order() {
    let children = vec![vec![], vec![], vec![]];
    let (order, parents) = node_indices_topological_sort(&children);
    assert_eq!(order, vec![0, 1, 2]);
    assert!(parents.is_empty());
}

#[test]
fn a_cycle_without_a_root_is_left_out() {
    // 1 and 2 are each other's child; 0 is a root with child 3
    let children = vec![vec![3], vec![2], vec![1], vec![]];
    let (order, parents) = node_indices_topological_sort(&children);
    assert_eq!(order, vec![0, 3]);
    assert_eq!(parents.get(&1), Some(&2));
    assert_eq!(parents.get(&2), Some(&1));
}

#[test]
fn an_empty_scene_has_no_nodes() {
    let children: Vec<Vec<usize>> = Vec::new();
    let (order, parents) = node_indices_topological_sort(&children);
    assert!(order.is_empty());
    assert!(parents.is_empty());
}

#[test]
fn a_chain_is_walked_from_the_top() {
    let children = vec![vec![], vec![0], vec![1]];
    let (order, _) = node_indices_topological_sort(&children);
    assert_eq!(order, vec![2, 1, 0]);
}
