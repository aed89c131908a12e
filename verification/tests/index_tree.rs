use rupta::util::index_tree::IndexTree;

#[test]
fn index_tree_tests() {
    let mut tree = IndexTree::<u32>::new_root(0);
    tree.add_child(0, 1);
    tree.add_child(0, 2);

    let node = tree.get(1).unwrap();
    assert_eq!(node.data, 1);
    tree.add_child(1, 12);
    tree.add_child(1, 14);
    tree.add_child(1, 15);
    tree.add_child(2, 21);
    tree.add_child(2, 25);
    tree.add_child(2, 27);

    assert_eq!(tree.count(), 9);
    assert_eq!(tree.get(4).unwrap().next_sibling, Some(5));
    let node = tree.find_child(1, |&data| data == 14).unwrap();
    assert_eq!(node, 4);
    tree.add_child(node, 143);
    tree.add_child(node, 147);
    let mut children = tree.children(node);
    assert_eq!(tree.get(children.next().unwrap()).unwrap().data, 143);
    assert_eq!(tree.get(children.next().unwrap()).unwrap().data, 147);
    assert_eq!(children.next(), None);
    let mut descendants = tree.descendants(0);
    // assert_eq!(tree[descendants.next().unwrap()].data, 0);
    assert_eq!(tree.get(descendants.next().unwrap()).unwrap().data, 1);
    assert_eq!(tree.get(descendants.next().unwrap()).unwrap().data, 12);
    assert_eq!(tree.get(descendants.next().unwrap()).unwrap().data, 14);
    assert_eq!(tree.get(descendants.next().unwrap()).unwrap().data, 143);
    assert_eq!(tree.get(descendants.next().unwrap()).unwrap().data, 147);
    assert_eq!(tree.get(descendants.next().unwrap()).unwrap().data, 15);
    assert_eq!(tree.get(descendants.next().unwrap()).unwrap().data, 2);
    assert_eq!(tree.get(descendants.next().unwrap()).unwrap().data, 21);
    assert_eq!(tree.get(descendants.next().unwrap()).unwrap().data, 25);
    assert_eq!(tree.get(descendants.next().unwrap()).unwrap().data, 27);
    assert_eq!(descendants.next(), None);
}

#[test]
fn index_tree_links() {
    let mut tree = IndexTree::new_root(0u32);
    assert!(tree.get(0).unwrap().parent.is_none());
    assert!(tree.get(0).unwrap().next_sibling.is_none());
    let a = tree.add_child(0, 1);
    let b = tree.add_child(0, 2);
    let c = tree.add_child(a, 3);
    assert_eq!(tree.get(a).unwrap().parent, Some(0));
    assert_eq!(tree.get(a).unwrap().next_sibling, Some(b));
    assert!(tree.get(b).unwrap().next_sibling.is_none());
    assert_eq!(tree.get(c).unwrap().parent, Some(a));
    assert!(tree.get(0).unwrap().next_sibling.is_none());
}
