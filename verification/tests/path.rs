use lib::hir::HirIdentifier;
use lib::hir::ir::path::{HirPathIndex, HirPathIndexGenerator, HirPathKind, HirPathNode, HirPathTree};

fn path_node(id: &str, kind: HirPathKind, parent: Option<usize>, children: Vec<usize>) -> HirPathNode {
    HirPathNode {
        id: HirIdentifier::from_str(id),
        kind,
        parent: parent.map(HirPathIndex::from),
        children: children.into_iter().map(HirPathIndex::from).collect(),
    }
}

fn generate_path_tree(nodes: Vec<HirPathNode>) -> HirPathTree {
    let mut path_tree = HirPathTree::new();
    let mut index_generator = HirPathIndexGenerator::new();
    for each_node in nodes {
        path_tree.add_node(&mut index_generator, None, each_node);
    }
    path_tree
}

#[test]
fn index_generator_returns_no_index_before_generating() {
    let index_generator = HirPathIndexGenerator::new();
    assert_eq!(index_generator.index(), None);
}

#[test]
fn index_generator_increases_index() {
    let mut index_generator = HirPathIndexGenerator::new();
    assert_eq!(index_generator.generate(), 0.into());
    assert_eq!(index_generator.index(), Some(0.into()));
    assert_eq!(index_generator.generate(), 1.into());
    assert_eq!(index_generator.index(), Some(1.into()));
}

#[test]
fn gets_node_by_index() {
    let node = path_node("node", HirPathKind::Hako, None, Vec::new());
    let path_tree = generate_path_tree(vec![node.clone()]);
    assert_eq!(path_tree.get(&0.into()), Some(&node));
    assert_eq!(path_tree.get(&1.into()), None);
}

#[test]
fn finds_node_by_segments() {
    let hako_node = path_node("node", HirPathKind::Hako, None, vec![1]);
    let subnode = path_node("subnode", HirPathKind::Module, Some(0), Vec::new());
    let path_tree = generate_path_tree(vec![hako_node, subnode.clone()]);
    let segments: Vec<HirIdentifier> = vec![HirIdentifier::from_str("node"), HirIdentifier::from_str("subnode")];
    assert_eq!(path_tree.find(&segments), Some((&1.into(), &subnode)));
}

#[test]
fn finds_no_node_for_unknown_segment() {
    let hako_node = path_node("node", HirPathKind::Hako, None, vec![1]);
    let subnode = path_node("subnode", HirPathKind::Module, Some(0), Vec::new());
    let path_tree = generate_path_tree(vec![hako_node, subnode]);
    let segments: Vec<HirIdentifier> = vec![HirIdentifier::from_str("node"), HirIdentifier::from_str("other")];
    assert_eq!(path_tree.find(&segments), None);
    let segments: Vec<HirIdentifier> = vec![HirIdentifier::from_str("subnode")];
    assert_eq!(path_tree.find(&segments), None);
    let segments: Vec<HirIdentifier> = Vec::new();
    assert_eq!(path_tree.find(&segments), None);
}

#[test]
fn finds_hako_node() {
    let node = path_node("node", HirPathKind::Hako, None, Vec::new());
    let path_tree = generate_path_tree(vec![node.clone()]);
    assert_eq!(path_tree.find_hako(&HirIdentifier::from_str("node")), Some((&0.into(), &node)));
    assert_eq!(path_tree.find_hako(&HirIdentifier::from_str("other")), None);
}

#[test]
fn finds_child_node() {
    let node = path_node("node", HirPathKind::Hako, None, Vec::new());
    let path_tree = generate_path_tree(vec![node.clone()]);
    assert_eq!(path_tree.find_child(&vec![0.into()], &HirIdentifier::from_str("node")), Some((&0.into(), &node)));
    assert_eq!(path_tree.find_child(&vec![1.into()], &HirIdentifier::from_str("node")), None);
}

#[test]
fn adds_node_under_given_index_without_generating() {
    let mut path_tree = HirPathTree::new();
    let mut index_generator = HirPathIndexGenerator::new();
    let node = path_node("m", HirPathKind::Module, Some(0), Vec::new());
    let index = path_tree.add_node(&mut index_generator, Some(5.into()), node.clone());
    assert_eq!(index, 5.into());
    assert_eq!(index_generator.index(), None);
    assert_eq!(path_tree.get(&5.into()), Some(&node));
}

#[test]
fn node_added_later_under_same_index_replaces_earlier() {
    let mut path_tree = HirPathTree::new();
    let mut index_generator = HirPathIndexGenerator::new();
    let first = path_node("a", HirPathKind::Module, Some(0), Vec::new());
    let second = path_node("b", HirPathKind::Function, Some(0), Vec::new());
    path_tree.add_node(&mut index_generator, Some(3.into()), first);
    path_tree.add_node(&mut index_generator, Some(3.into()), second.clone());
    assert_eq!(path_tree.get(&3.into()), Some(&second));
}

#[test]
fn path_index_to_string_is_decimal() {
    assert_eq!(HirPathIndex(0).to_string(), "0".to_string());
    assert_eq!(HirPathIndex(1207).to_string(), "1207".to_string());
}
