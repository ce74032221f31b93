use scoped_trace::capture::CaptureSet;
use scoped_trace::tree::CallTree;

fn set_of(captures: Vec<Vec<usize>>) -> CaptureSet {
    let mut set = CaptureSet::new();
    for c in captures {
        set.push(c);
    }
    set
}

fn addrs(tree: &CallTree) -> Vec<usize> {
    tree.nodes.iter().map(|n| n.addr).collect()
}

#[test]
fn identical_captures_share_one_path() {
    let tree = CallTree::from_captures(&set_of(vec![vec![3, 2, 1], vec![3, 2, 1]]));
    assert_eq!(addrs(&tree), vec![1, 2, 3]);
    assert_eq!(tree.roots, vec![0]);
    assert_eq!(tree.nodes[0].children, vec![1]);
    assert_eq!(tree.nodes[1].children, vec![2]);
    assert!(tree.nodes[2].children.is_empty());
}

#[test]
fn shared_prefix_branches_after_it() {
    // root-to-leaf: [1, 2, 4] and [1, 3, 5] share exactly one address
    let tree = CallTree::from_captures(&set_of(vec![vec![4, 2, 1], vec![5, 3, 1]]));
    assert_eq!(addrs(&tree), vec![1, 2, 4, 3, 5]);
    assert_eq!(tree.roots, vec![0]);
    assert_eq!(tree.nodes[0].children, vec![1, 3]);
    assert_eq!(tree.nodes[1].children, vec![2]);
    assert_eq!(tree.nodes[3].children, vec![4]);
}

#[test]
fn deeper_shared_prefix() {
    let tree = CallTree::from_captures(&set_of(vec![vec![7, 3, 2, 1], vec![8, 9, 3, 2, 1]]));
    assert_eq!(addrs(&tree), vec![1, 2, 3, 7, 9, 8]);
    assert_eq!(tree.nodes[2].children, vec![3, 4]);
    assert_eq!(tree.nodes[4].children, vec![5]);
}

#[test]
fn foo_with_bar_then_baz() {
    // foo (20) calls bar (30) then baz (40), below the root frame (10)
    let tree = CallTree::from_captures(&set_of(vec![vec![30, 20, 10], vec![40, 20, 10]]));
    assert_eq!(addrs(&tree), vec![10, 20, 30, 40]);
    assert_eq!(tree.nodes[1].children, vec![2, 3]);
    assert!(tree.nodes[2].children.is_empty());
    assert!(tree.nodes[3].children.is_empty());
    let labels = vec![
        vec!["root".to_string()],
        vec!["foo".to_string()],
        vec!["bar".to_string()],
        vec!["baz".to_string()],
    ];
    assert_eq!(
        tree.render(&labels),
        vec!["╼ root", "  └╼ foo", "     ├╼ bar", "     └╼ baz"]
    );
}

#[test]
fn distinct_outermost_frames_make_a_forest() {
    let tree = CallTree::from_captures(&set_of(vec![vec![2, 1], vec![4, 3], vec![5, 1]]));
    assert_eq!(addrs(&tree), vec![1, 2, 3, 4, 5]);
    assert_eq!(tree.roots, vec![0, 2]);
    assert_eq!(tree.nodes[0].children, vec![1, 4]);
}

#[test]
fn empty_captures_add_no_nodes() {
    let tree = CallTree::from_captures(&set_of(vec![]));
    assert!(tree.nodes.is_empty());
    assert!(tree.roots.is_empty());
    let tree = CallTree::from_captures(&set_of(vec![vec![], vec![]]));
    assert!(tree.nodes.is_empty());
    assert!(tree.render(&vec![]).is_empty());
}

#[test]
fn recursion_keeps_each_frame() {
    // the same address twice on one path is two nodes, one below the other
    let tree = CallTree::from_captures(&set_of(vec![vec![5, 5, 1]]));
    assert_eq!(addrs(&tree), vec![1, 5, 5]);
    assert_eq!(tree.nodes[1].children, vec![2]);
}
