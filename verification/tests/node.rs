use weave_writer::node::{Action, Meta, Node, PathAction, Piece};

fn letters(nodes: &[&Node<Meta>]) -> String {
    nodes.iter().flat_map(|node| node.iter_pieces()).collect::<String>()
}

fn chain() -> Node<Meta> {
    let mut root = Node::<Meta>::default();
    root.extend_strings(&["a", "b"]);
    assert_eq!(0, root.add_child(Node::default()));
    root.children[0].extend_strings(&["c", "d"]);
    assert_eq!(0, root.children[0].add_child(Node::default()));
    root.children[0].children[0].extend_strings(&["e", "f"]);
    root
}

fn bush() -> Node<Meta> {
    let mut root = Node::<Meta>::default();
    root.extend_strings(&["a", "b"]);
    assert_eq!(0, root.add_child(Node::default()));
    root.children[0].extend_strings(&["c", "d"]);
    assert_eq!(1, root.add_child(Node::default()));
    root.children[1].extend_strings(&["e", "f"]);
    assert_eq!(0, root.children[0].add_child(Node::default()));
    root.children[0].children[0].extend_strings(&["g", "h"]);
    root
}

#[test]
fn test_iter_path_nodes() {
    let mut root = Node::<Meta>::default();
    root.extend_strings(&["a", "b"]);
    assert_eq!(0, root.add_child(Node::default()));
    root.children[0].extend_strings(&["c", "d"]);
    assert_eq!(0, root.children[0].add_child(Node::default()));
    root.children[0].children[0].extend_strings(&["e", "f"]);

    let path = [0, 0];
    let nodes: Vec<_> = root.iter_path_nodes(&path);
    let letters = nodes.iter().flat_map(|node| node.iter_pieces());
    assert_eq!(letters.collect::<String>(), "abcdef");
}

#[test]
fn iter_path_text() {
    let mut root = Node::<Meta>::default();
    root.extend_strings(&["a", "b"]);
    assert_eq!(0, root.add_child(Node::default()));
    root.children[0].extend_strings(&["c", "d"]);
    assert_eq!(0, root.children[0].add_child(Node::default()));
    root.children[0].children[0].extend_strings(&["e", "f"]);

    let path = [0, 0];
    let text: Vec<_> = root.iter_path_text(&path, " ");
    assert_eq!(text.len(), 8);
    assert_eq!(text[0], "a");
    assert_eq!(text[1], "b");
    assert_eq!(text[2], " ");
    assert_eq!(text[3], "c");
    assert_eq!(text[4], "d");
    assert_eq!(text[5], " ");
    assert_eq!(text[6], "e");
    assert_eq!(text[7], "f");
}

#[test]
fn test_is_valid_path() {
    let mut root = Node::<Meta>::default();
    root.extend_strings(&["a", "b"]);
    assert_eq!(0, root.add_child(Node::default()));
    root.children[0].extend_strings(&["c", "d"]);
    assert_eq!(0, root.children[0].add_child(Node::default()));
    root.children[0].children[0].extend_strings(&["e", "f"]);

    assert!(root.is_valid_path(&[0]));
    assert!(root.is_valid_path(&[0, 0]));
    assert!(!root.is_valid_path(&[1]));
    assert!(!root.is_valid_path(&[0, 1]));
}

#[test]
fn test_iter_breadth_first() {
    let mut root = Node::<Meta>::default();
    root.extend_strings(&["a", "b"]);
    assert_eq!(0, root.add_child(Node::default()));
    root.children[0].extend_strings(&["c", "d"]);
    assert_eq!(1, root.add_child(Node::default()));
    root.children[1].extend_strings(&["e", "f"]);
    assert_eq!(0, root.children[0].add_child(Node::default()));
    root.children[0].children[0].extend_strings(&["g", "h"]);

    let nodes: Vec<_> = root.iter_breadth_first();
    let letters = nodes.iter().flat_map(|node| node.iter_pieces());
    assert_eq!(letters.collect::<String>(), "abcdefgh");
}

#[test]
fn test_iter_depth_first() {
    let mut root = Node::<Meta>::default();
    root.extend_strings(&["a", "b"]);
    assert_eq!(0, root.add_child(Node::default()));
    root.children[0].extend_strings(&["c", "d"]);
    assert_eq!(1, root.add_child(Node::default()));
    root.children[1].extend_strings(&["e", "f"]);
    assert_eq!(0, root.children[0].add_child(Node::default()));
    root.children[0].children[0].extend_strings(&["g", "h"]);

    let nodes: Vec<_> = root.iter_depth_first();
    assert_eq!(nodes.len(), 4);
    let letters = nodes.iter().flat_map(|node| node.iter_pieces());
    assert_eq!(letters.collect::<String>(), "abcdghef");
}

#[test]
fn empty_path_is_valid_and_leads_to_the_node_itself() {
    let root = chain();
    assert!(root.is_valid_path(&[]));
    let nodes = root.iter_path_nodes(&[]);
    assert_eq!(nodes.len(), 1);
    assert_eq!(letters(&nodes), "ab");
}

#[test]
fn path_nodes_stop_at_the_first_index_that_names_no_child() {
    let root = chain();
    let nodes = root.iter_path_nodes(&[0, 3, 0]);
    assert_eq!(nodes.len(), 2);
    assert_eq!(letters(&nodes), "abcd");
    let nodes = root.iter_path_nodes(&[7]);
    assert_eq!(nodes.len(), 1);
    let text = root.iter_path_text(&[0, 3], "|");
    assert_eq!(text, vec!["a", "b", "|", "c", "d"]);
}

#[test]
fn path_text_of_a_single_node_has_no_separator() {
    let root = chain();
    assert_eq!(root.iter_path_text(&[], "\n"), vec!["a", "b"]);
}

#[test]
fn with_author_makes_an_empty_node() {
    let node = Node::<Meta>::with_author(7);
    assert_eq!(node.author_id, 7);
    assert!(node.text.is_empty());
    assert!(node.pieces.is_empty());
    assert!(node.is_leaf());
    assert_eq!(node.count(), 1);
    assert_eq!(Node::<Meta>::default().author_id, 0);
}

#[test]
fn count_counts_every_node() {
    assert_eq!(chain().count(), 3);
    assert_eq!(bush().count(), 4);
    assert!(!bush().is_leaf());
}

#[test]
fn set_author_reaches_every_node_and_changes_nothing_else() {
    let mut root = bush();
    let before = bush();
    root.set_author(9);
    let after = root.iter_depth_first();
    let was = before.iter_depth_first();
    assert_eq!(after.len(), was.len());
    for (new, old) in after.iter().zip(was.iter()) {
        assert_eq!(new.author_id, 9);
        assert_eq!(new.text, old.text);
        assert_eq!(new.pieces, old.pieces);
        assert_eq!(new.children.len(), old.children.len());
    }
}

#[test]
fn add_child_appends_and_returns_the_index() {
    let mut root = Node::<Meta>::default();
    assert_eq!(root.add_child(Node::with_author(1)), 0);
    assert_eq!(root.add_child(Node::with_author(2)), 1);
    assert_eq!(root.add_child(Node::with_author(3)), 2);
    assert_eq!(root.children[2].author_id, 3);
    assert_eq!(root.children.len(), 3);
}

#[test]
fn extend_strings_records_byte_offsets() {
    let mut node = Node::<Meta>::default();
    node.extend_strings(&["Hello", ", ", "wörld", ""]);
    assert_eq!(node.text, "Hello, wörld");
    let ends: Vec<usize> = node.pieces.iter().map(|piece| piece.end).collect();
    assert_eq!(ends, vec![5, 7, 13, 13]);
    assert_eq!(node.iter_pieces(), vec!["Hello", ", ", "wörld", ""]);
    node.extend_strings(&["!"]);
    assert_eq!(node.pieces.last(), Some(&Piece { end: 14 }));
    assert_eq!(node.to_text(), "Hello, wörld!");
}

#[test]
fn pieces_end_at_the_first_one_that_cannot_be_read() {
    let mut node = Node::<Meta>::default();
    node.text = "aöb".to_string();
    // The second piece would end inside the two bytes of `ö`.
    node.pieces = vec![Piece { end: 1 }, Piece { end: 2 }, Piece { end: 4 }];
    assert_eq!(node.iter_pieces(), vec!["a"]);
    // A piece that ends beyond the text.
    node.pieces = vec![Piece { end: 1 }, Piece { end: 3 }, Piece { end: 9 }];
    assert_eq!(node.iter_pieces(), vec!["a", "ö"]);
    // A piece that ends before it starts.
    node.pieces = vec![Piece { end: 3 }, Piece { end: 1 }, Piece { end: 4 }];
    assert_eq!(node.iter_pieces(), vec!["aö"]);
    assert_eq!(node.to_text(), "aö");
}

#[test]
fn trim_end_whitespace_trims_text_and_pieces() {
    let mut node = Node::<Meta>::default();
    node.extend_strings(&["Hello", " World", " \n", "\t "]);
    node.trim_end_whitespace();
    assert_eq!(node.text, "Hello World");
    assert_eq!(node.pieces, vec![Piece { end: 5 }, Piece { end: 11 }]);
}

#[test]
fn trim_end_whitespace_closes_the_last_piece() {
    let mut node = Node::<Meta>::default();
    node.extend_strings(&["Hello", " World  "]);
    node.trim_end_whitespace();
    assert_eq!(node.text, "Hello World");
    assert_eq!(node.pieces, vec![Piece { end: 5 }, Piece { end: 11 }]);
    assert_eq!(node.iter_pieces(), vec!["Hello", " World"]);
}

#[test]
fn trim_end_whitespace_of_nothing_leaves_one_empty_piece() {
    let mut node = Node::<Meta>::default();
    node.trim_end_whitespace();
    assert_eq!(node.text, "");
    assert_eq!(node.pieces, vec![Piece { end: 0 }]);
    let mut blank = Node::<Meta>::default();
    blank.extend_strings(&[" ", "\u{2003}"]);
    blank.trim_end_whitespace();
    assert_eq!(blank.text, "");
    assert_eq!(blank.pieces, vec![Piece { end: 0 }]);
}

#[test]
fn trim_end_whitespace_keeps_text_that_needs_no_trimming() {
    let mut node = Node::<Meta>::default();
    node.extend_strings(&["  a", "b"]);
    node.trim_end_whitespace();
    assert_eq!(node.text, "  ab");
    assert_eq!(node.pieces, vec![Piece { end: 3 }, Piece { end: 4 }]);
}

#[test]
fn node_at_mut_changes_one_node_only() {
    let mut root = bush();
    let before = bush();
    root.node_at_mut(&[0, 0]).extend_strings(&["!"]);
    assert_eq!(root.children[0].children[0].text, "gh!");
    assert_eq!(root.text, before.text);
    assert_eq!(root.children[0].text, before.children[0].text);
    assert_eq!(root.children[1], before.children[1]);
    root.node_at_mut(&[]).author_id = 4;
    assert_eq!(root.author_id, 4);
}

#[test]
fn breadth_first_goes_level_by_level() {
    let mut root = bush();
    root.children[1].add_child(Node::default());
    root.children[1].children[0].extend_strings(&["i"]);
    root.children[0].children[0].add_child(Node::default());
    root.children[0].children[0].children[0].extend_strings(&["j"]);
    let nodes = root.iter_breadth_first();
    assert_eq!(letters(&nodes), "abcdefghij");
    let nodes = root.iter_depth_first();
    assert_eq!(letters(&nodes), "abcdghjefi");
    assert_eq!(root.count(), 6);
}

#[test]
fn action_needed_for_continue_and_generate_only() {
    assert!(!Action::default().action_needed());
    assert!(Action { continue_: true, ..Action::default() }.action_needed());
    assert!(Action { generate: Some(2), ..Action::default() }.action_needed());
    assert!(!Action { delete: true, modified: true, ..Action::default() }.action_needed());
    let at_root = PathAction::default();
    assert!(at_root.path.is_empty());
    assert_eq!(at_root.action, Action::default());
}

#[test]
fn reset_pieces_makes_the_text_one_piece() {
    let mut node = Node::<Meta>::default();
    node.extend_strings(&["a", "ö", "c"]);
    node.text.push_str("dé");
    node.reset_pieces();
    assert_eq!(node.pieces, vec![Piece { end: 7 }]);
    assert_eq!(node.iter_pieces(), vec!["aöcdé"]);
}
