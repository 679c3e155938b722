use code_context_graph::syntax::{plain_tree, NodeFacts, SyntaxNode};

fn facts(kind: &str, size: usize) -> NodeFacts {
    NodeFacts {
        kind: kind.to_string(),
        is_named: true,
        start_row: 0,
        start_column: 0,
        end_row: 0,
        end_column: 0,
        start_byte: 0,
        end_byte: 0,
        size,
    }
}

fn shape(node: &SyntaxNode) -> String {
    if node.children.is_empty() {
        node.kind.clone()
    } else {
        let below: Vec<String> = node.children.iter().map(shape).collect();
        format!("{}({})", node.kind, below.join(" "))
    }
}

fn shape_of(listing: &[(&str, usize)]) -> Option<String> {
    let nodes: Vec<NodeFacts> = listing.iter().map(|(k, n)| facts(k, *n)).collect();
    plain_tree(&nodes).map(|t| shape(&t))
}

#[test]
fn a_listing_without_nodes_stands_for_no_tree() {
    assert_eq!(shape_of(&[]), None);
}

#[test]
fn a_listing_in_depth_first_order_nests_by_the_sizes_of_its_subtrees() {
    assert_eq!(shape_of(&[("a", 1)]).unwrap(), "a");
    assert_eq!(shape_of(&[("a", 3), ("b", 1), ("c", 1)]).unwrap(), "a(b c)");
    assert_eq!(shape_of(&[("a", 3), ("b", 2), ("c", 1)]).unwrap(), "a(b(c))");
    assert_eq!(
        shape_of(&[("a", 7), ("b", 3), ("c", 1), ("d", 1), ("e", 1), ("f", 2), ("g", 1)]).unwrap(),
        "a(b(c d) e f(g))"
    );
}

#[test]
fn the_facts_of_each_node_are_kept() {
    let mut root = facts("module", 2);
    root.is_named = false;
    root.start_row = 1;
    root.start_column = 2;
    root.end_row = 3;
    root.end_column = 4;
    root.start_byte = 5;
    root.end_byte = 6;
    let tree = plain_tree(&vec![root, facts("leaf", 1)]).unwrap();
    assert_eq!(tree.kind, "module");
    assert!(!tree.is_named);
    assert_eq!(
        (tree.start_row, tree.start_column, tree.end_row, tree.end_column),
        (1, 2, 3, 4)
    );
    assert_eq!((tree.start_byte, tree.end_byte), (5, 6));
    assert_eq!(tree.children.len(), 1);
    assert!(tree.children[0].is_named);
}

#[test]
fn a_size_of_nothing_counts_as_one_and_a_size_too_great_ends_with_its_parent() {
    assert_eq!(shape_of(&[("a", 0), ("b", 0), ("c", 0)]).unwrap(), "a(b c)");
    assert_eq!(shape_of(&[("a", 1), ("b", 9), ("c", 1)]).unwrap(), "a(b(c))");
    assert_eq!(
        shape_of(&[("a", 5), ("b", 2), ("c", 7), ("d", 1), ("e", 1)]).unwrap(),
        "a(b(c) d e)"
    );
}

#[test]
fn a_long_chain_of_only_children_is_built() {
    let depth = 2000;
    let nodes: Vec<NodeFacts> = (0..depth).map(|i| facts("n", depth - i)).collect();
    let tree = plain_tree(&nodes).unwrap();
    let mut at = &tree;
    let mut seen = 1;
    while let Some(next) = at.children.first() {
        assert_eq!(at.children.len(), 1);
        at = next;
        seen += 1;
    }
    assert_eq!(seen, depth);
}
