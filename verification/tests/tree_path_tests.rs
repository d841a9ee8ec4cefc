use sauron_core::attribute::attr;
use sauron_core::node::{element, Node};
use sauron_core::tree_path::TreePath;

#[test]
fn test_traverse() {
    let path = TreePath::from([0]);

    assert_eq!(path.traverse(1), TreePath::from([0, 1]));
}

fn sample_node() -> Node<()> {
    let node: Node<()> = element(
        "div",
        vec![attr("class", "[]"), attr("id", "0")],
        vec![
            element(
                "div",
                vec![attr("class", "[0]"), attr("id", "1")],
                vec![
                    element("div", vec![attr("class", "[0,0]"), attr("id", "2")], vec![]),
                    element("div", vec![attr("class", "[0,1]"), attr("id", "3")], vec![]),
                ],
            ),
            element(
                "div",
                vec![attr("class", "[1]"), attr("id", "4")],
                vec![
                    element("div", vec![attr("class", "[1,0]"), attr("id", "5")], vec![]),
                    element("div", vec![attr("class", "[1,1]"), attr("id", "6")], vec![]),
                    element("div", vec![attr("class", "[1,2]"), attr("id", "7")], vec![]),
                ],
            ),
        ],
    );
    node
}

fn format_vec(v: &[usize]) -> String {
    format!("[{}]", v.iter().map(|v| v.to_string()).collect::<Vec<_>>().join(","))
}

fn first_value(node: &Node<()>, name: &'static str) -> String {
    node.attribute_value(name).unwrap()[0].get_simple().unwrap().to_string()
}

fn assert_traverse_match(node: &Node<()>, node_idx: &mut usize, path: Vec<usize>) {
    assert_eq!(first_value(node, "id"), node_idx.to_string());
    assert_eq!(first_value(node, "class"), format_vec(&path));
    for (i, child) in node.children().iter().enumerate() {
        *node_idx += 1;
        let mut child_path = path.clone();
        child_path.push(i);
        assert_traverse_match(child, node_idx, child_path);
    }
}

fn traverse_tree_path(node: &Node<()>, path: &TreePath, node_idx: &mut usize) {
    assert_eq!(first_value(node, "id"), node_idx.to_string());
    assert_eq!(first_value(node, "class"), format_vec(&path.path));
    for (i, child) in node.children().iter().enumerate() {
        *node_idx += 1;
        let mut child_path = path.clone();
        child_path.path.push(i);
        traverse_tree_path(child, &child_path, node_idx);
    }
}

#[test]
fn should_match_paths() {
    let node = sample_node();
    assert_traverse_match(&node, &mut 0, vec![]);
    traverse_tree_path(&node, &TreePath::new(vec![]), &mut 0);
}

#[test]
fn should_find_root_node() {
    let node = sample_node();
    let path = TreePath::new(vec![]);
    let root = path.find_node_by_path(&node);
    assert!(Some(&node) == root);
}

#[test]
fn should_find_node1() {
    let node = sample_node();
    let path = TreePath::new(vec![0]);
    let found = path.find_node_by_path(&node);
    let expected = element(
        "div",
        vec![attr("class", "[0]"), attr("id", "1")],
        vec![
            element("div", vec![attr("class", "[0,0]"), attr("id", "2")], vec![]),
            element("div", vec![attr("class", "[0,1]"), attr("id", "3")], vec![]),
        ],
    );
    assert!(Some(&expected) == found);
}

#[test]
fn should_find_node2() {
    let node = sample_node();
    let path = TreePath::new(vec![0, 0]);
    let found = path.find_node_by_path(&node);
    let expected = element("div", vec![attr("class", "[0,0]"), attr("id", "2")], vec![]);
    assert!(Some(&expected) == found);
}

#[test]
fn should_find_node3() {
    let node = sample_node();
    let path = TreePath::new(vec![0, 1]);
    let found = path.find_node_by_path(&node);
    let expected = element("div", vec![attr("class", "[0,1]"), attr("id", "3")], vec![]);
    assert!(Some(&expected) == found);
}

#[test]
fn should_find_node4() {
    let node = sample_node();
    let path = TreePath::new(vec![1]);
    let found = path.find_node_by_path(&node);
    let expected = element(
        "div",
        vec![attr("class", "[1]"), attr("id", "4")],
        vec![
            element("div", vec![attr("class", "[1,0]"), attr("id", "5")], vec![]),
            element("div", vec![attr("class", "[1,1]"), attr("id", "6")], vec![]),
            element("div", vec![attr("class", "[1,2]"), attr("id", "7")], vec![]),
        ],
    );
    assert!(Some(&expected) == found);
}

#[test]
fn should_find_node5() {
    let node = sample_node();
    let path = TreePath::new(vec![1, 0]);
    let found = path.find_node_by_path(&node);
    let expected = element("div", vec![attr("class", "[1,0]"), attr("id", "5")], vec![]);
    assert!(Some(&expected) == found);
}

#[test]
fn should_find_node6() {
    let node = sample_node();
    let path = TreePath::new(vec![1, 1]);
    let found = path.find_node_by_path(&node);
    let expected = element("div", vec![attr("class", "[1,1]"), attr("id", "6")], vec![]);
    assert!(Some(&expected) == found);
}

#[test]
fn should_find_none_in_013() {
    let node = sample_node();
    let path = TreePath::new(vec![0, 1, 3]);
    let found = path.find_node_by_path(&node);
    assert!(found.is_none());
}

#[test]
fn should_find_none_in_00000() {
    let node = sample_node();
    let path = TreePath::new(vec![0, 0, 0, 0]);
    let found = path.find_node_by_path(&node);
    assert!(found.is_none());
}

#[test]
fn should_find_none_in_007() {
    let node = sample_node();
    let path = TreePath::new(vec![0, 0, 7]);
    let bond = path.find_node_by_path(&node);
    assert!(bond.is_none());
}

#[test]
fn backtrack_undoes_traverse() {
    let path = TreePath::new(vec![3, 1]);
    assert_eq!(path.traverse(4).backtrack(), path);
    assert_eq!(TreePath::root().backtrack(), TreePath::root());
}

#[test]
fn find_after_traverse_is_child_of_found() {
    let node = sample_node();
    let parent = TreePath::new(vec![1]);
    let child = parent.traverse(2);
    let found_parent = parent.find_node_by_path(&node).unwrap();
    assert!(child.find_node_by_path(&node) == Some(&found_parent.children()[2]));
}

#[test]
fn pluck_takes_the_first_index() {
    let mut path = TreePath::new(vec![5, 6]);
    assert_eq!(path.pluck(), 5);
    assert_eq!(path.remove_first(), 6);
    assert!(path.is_empty());
    path.push(9);
    assert_eq!(path, TreePath::from(vec![9]));
}
