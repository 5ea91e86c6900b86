use nest_editor::project_tree::{
    build_tree, count_rows, insert_into_tree, nested_tree_commands, render_tree, FileNode,
    TreeCommand,
};

fn path(parts: &[&str]) -> Vec<String> {
    parts.iter().map(|s| s.to_string()).collect()
}

fn dir(entries: Vec<(&str, FileNode)>) -> FileNode {
    FileNode::Directory(entries.into_iter().map(|(n, f)| (n.to_string(), f)).collect())
}

#[test]
fn build_tree_sorts_by_name() {
    let entries = vec![
        (path(&["src"]), true),
        (path(&["src", "main.rs"]), false),
        (path(&["Cargo.toml"]), false),
        (path(&["assets"]), true),
        (path(&["assets", "a.png"]), false),
    ];
    let tree = build_tree(&entries);
    let expected = dir(vec![
        ("Cargo.toml", FileNode::File),
        ("assets", dir(vec![("a.png", FileNode::File)])),
        ("src", dir(vec![("main.rs", FileNode::File)])),
    ]);
    assert_eq!(tree, expected);
}

#[test]
fn render_numbers_rows_in_drawing_order() {
    let entries = vec![
        (path(&["src"]), true),
        (path(&["src", "main.rs"]), false),
        (path(&["Cargo.toml"]), false),
        (path(&["assets"]), true),
        (path(&["assets", "a.png"]), false),
    ];
    let tree = build_tree(&entries);
    let commands = nested_tree_commands(&tree, &"proj".to_string()).unwrap();
    let expected = vec![
        TreeCommand::Dir { id: 0, label: "proj".to_string() },
        TreeCommand::Leaf { id: 1, name: "Cargo.toml".to_string() },
        TreeCommand::Dir { id: 2, label: "assets".to_string() },
        TreeCommand::Leaf { id: 3, name: "a.png".to_string() },
        TreeCommand::CloseDir,
        TreeCommand::Dir { id: 4, label: "src".to_string() },
        TreeCommand::Leaf { id: 5, name: "main.rs".to_string() },
        TreeCommand::CloseDir,
        TreeCommand::CloseDir,
    ];
    assert_eq!(commands, expected);
    if let FileNode::Directory(v) = &tree {
        assert_eq!(count_rows(v), Some(6));
    }
}

#[test]
fn render_tree_continues_from_the_given_id() {
    let mut commands = vec![TreeCommand::CloseDir];
    let mut next_id = 10usize;
    let nodes = vec![("x".to_string(), FileNode::File)];
    render_tree(&mut commands, &nodes, &mut next_id, &"d".to_string());
    assert_eq!(next_id, 12);
    assert_eq!(
        commands,
        vec![
            TreeCommand::CloseDir,
            TreeCommand::Dir { id: 10, label: "d".to_string() },
            TreeCommand::Leaf { id: 11, name: "x".to_string() },
            TreeCommand::CloseDir,
        ]
    );
}

#[test]
fn a_file_tree_root_draws_nothing() {
    assert_eq!(nested_tree_commands(&FileNode::File, &"r".to_string()), Some(vec![]));
}

#[test]
fn missing_parents_become_directories() {
    let mut tree = Vec::new();
    insert_into_tree(&mut tree, &path(&["a", "b", "c.txt"]), false);
    assert_eq!(
        FileNode::Directory(tree),
        dir(vec![("a", dir(vec![("b", dir(vec![("c.txt", FileNode::File)]))]))])
    );
}

#[test]
fn a_file_replaces_a_directory_and_drops_its_contents() {
    let mut tree = Vec::new();
    insert_into_tree(&mut tree, &path(&["a", "b"]), false);
    insert_into_tree(&mut tree, &path(&["a"]), false);
    assert_eq!(FileNode::Directory(tree), dir(vec![("a", FileNode::File)]));
}

#[test]
fn a_directory_keeps_its_contents() {
    let mut tree = Vec::new();
    insert_into_tree(&mut tree, &path(&["a", "b"]), false);
    insert_into_tree(&mut tree, &path(&["a"]), true);
    assert_eq!(FileNode::Directory(tree), dir(vec![("a", dir(vec![("b", FileNode::File)]))]));
}

#[test]
fn a_path_through_a_file_turns_it_into_a_directory() {
    let mut tree = Vec::new();
    insert_into_tree(&mut tree, &path(&["a"]), false);
    insert_into_tree(&mut tree, &path(&["a", "b"]), true);
    assert_eq!(FileNode::Directory(tree), dir(vec![("a", dir(vec![("b", dir(vec![]))]))]));
}

#[test]
fn inserting_twice_is_inserting_once() {
    let mut once = Vec::new();
    insert_into_tree(&mut once, &path(&["x", "y"]), false);
    let mut twice = Vec::new();
    insert_into_tree(&mut twice, &path(&["x", "y"]), false);
    insert_into_tree(&mut twice, &path(&["x", "y"]), false);
    assert_eq!(FileNode::Directory(once), FileNode::Directory(twice));
}

#[test]
fn an_empty_path_changes_nothing() {
    let mut tree = Vec::new();
    insert_into_tree(&mut tree, &path(&["k"]), true);
    insert_into_tree(&mut tree, &path(&[]), false);
    assert_eq!(FileNode::Directory(tree), dir(vec![("k", dir(vec![]))]));
}

#[test]
fn names_order_by_code_point() {
    let mut tree = Vec::new();
    for n in ["é", "b", "B", "a", "ab", ""] {
        insert_into_tree(&mut tree, &path(&[n]), false);
    }
    let names: Vec<&str> = tree.iter().map(|(n, _)| n.as_str()).collect();
    assert_eq!(names, vec!["", "B", "a", "ab", "b", "é"]);
}
