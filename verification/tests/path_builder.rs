use cloudnexus_core::search::index::{SearchDocument, SearchIndex};
use cloudnexus_core::search::path::{build_path_from_index, PathBuilder};

#[test]
fn test_path_builder_basic() {
    let mut builder = PathBuilder::new();

    // Add a simple hierarchy: root / folder1 / file.txt
    builder.add_node("root".to_string(), "Root".to_string(), None);
    builder.add_node("folder1".to_string(), "Folder 1".to_string(), Some("root".to_string()));
    builder.add_node("file1".to_string(), "file.txt".to_string(), Some("folder1".to_string()));

    // Build path for file1
    let path = builder.build_path("file1");
    assert_eq!(path, "Root / Folder 1 / file.txt");
}

#[test]
fn test_path_builder_single_node() {
    let mut builder = PathBuilder::new();
    builder.add_node("node1".to_string(), "Single Node".to_string(), None);

    let path = builder.build_path("node1");
    assert_eq!(path, "Single Node");
}

#[test]
fn test_path_builder_with_account() {
    let mut builder = PathBuilder::new();
    builder.add_node("file1".to_string(), "document.pdf".to_string(), Some("folder1".to_string()));
    builder.add_node("folder1".to_string(), "Work".to_string(), Some("root".to_string()));
    builder.add_node("root".to_string(), "My Drive".to_string(), None);

    let path = builder.build_path_with_account("file1", "user@example.com", "gdrive");
    assert_eq!(path, "user@example.com (Google Drive) / My Drive / Work / document.pdf");
}

#[test]
fn test_path_builder_loop_detection() {
    let mut builder = PathBuilder::new();

    // Create a loop: a -> b -> a
    builder.add_node("a".to_string(), "Node A".to_string(), Some("b".to_string()));
    builder.add_node("b".to_string(), "Node B".to_string(), Some("a".to_string()));

    // Should handle loop gracefully
    let path = builder.build_path("a");
    // Should contain at least "Node A"
    assert!(path.contains("Node A"));
}

#[test]
fn a_circle_is_walked_once() {
    let mut builder = PathBuilder::new();
    builder.add_node("a".to_string(), "A".to_string(), Some("b".to_string()));
    builder.add_node("b".to_string(), "B".to_string(), Some("c".to_string()));
    builder.add_node("c".to_string(), "C".to_string(), Some("b".to_string()));
    builder.add_node("d".to_string(), "D".to_string(), None);
    assert_eq!(builder.build_path("a"), "C / B / A");
    assert_eq!(builder.build_path("b"), "C / B");
    builder.add_node("self".to_string(), "Self".to_string(), Some("self".to_string()));
    assert_eq!(builder.build_path("self"), "Self");
}

#[test]
fn unknown_nodes_and_parents() {
    let mut builder = PathBuilder::new();
    assert!(builder.is_empty());
    assert_eq!(builder.build_path("nothing"), "");
    builder.add_node("x".to_string(), "X".to_string(), Some("gone".to_string()));
    assert_eq!(builder.build_path("x"), "X");
    assert_eq!(builder.len(), 1);
    assert_eq!(builder.build_path_with_account("nothing", "me@example.com", "onedrive"), "me@example.com (onedrive)");
    assert_eq!(
        builder.build_path_with_account("x", "me@example.com", "dropbox"),
        "me@example.com (dropbox) / X"
    );
    builder.add_node("x".to_string(), "Y".to_string(), None);
    assert_eq!(builder.len(), 1);
    assert_eq!(builder.build_path("x"), "Y");
    builder.clear();
    assert!(builder.is_empty());
    assert_eq!(builder.len(), 0);
    assert_eq!(builder.build_path("x"), "");
}

#[test]
fn paths_by_the_parent_links_of_the_index() {
    let mut index = SearchIndex::new();
    let mut add = |id: &str, name: &str, parent: Option<&str>| {
        index.add_document(SearchDocument {
            node_id: id.to_string(),
            account_id: "acc".to_string(),
            provider: "gdrive".to_string(),
            email: "e@example.com".to_string(),
            name: name.to_string(),
            is_folder: parent.is_none(),
            parent_id: parent.map(|p| p.to_string()),
        });
    };
    add("root", "My Drive", None);
    add("work", "Work", Some("root"));
    add("file", "report.pdf", Some("work"));
    add("x", "X", Some("y"));
    add("y", "Y", Some("x"));
    add("orphan", "Orphan", Some("gone"));
    assert_eq!(build_path_from_index(&index, "file"), vec!["My Drive", "Work", "report.pdf"]);
    assert_eq!(build_path_from_index(&index, "root"), vec!["My Drive"]);
    assert_eq!(build_path_from_index(&index, "x"), vec!["Y", "X"]);
    assert_eq!(build_path_from_index(&index, "orphan"), vec!["Orphan"]);
    assert!(build_path_from_index(&index, "nothing").is_empty());
}
