use cloudnexus_core::search::incremental::{DocumentChange, IncrementalIndexer};
use cloudnexus_core::search::index::SearchDocument;

fn create_test_doc(id: &str, name: &str) -> SearchDocument {
    SearchDocument {
        node_id: id.to_string(),
        account_id: "test_account".to_string(),
        provider: "gdrive".to_string(),
        email: "test@example.com".to_string(),
        name: name.to_string(),
        is_folder: false,
        parent_id: None,
    }
}

#[test]
fn test_incremental_indexer_basic() {
    let mut indexer = IncrementalIndexer::new();

    // Add a document
    let doc = create_test_doc("1", "Test Document");
    indexer.mark_added(doc.clone());
    assert_eq!(indexer.processed_count(), 1);
    assert_eq!(indexer.inner().len(), 1);

    // Mark as changed
    indexer.mark_changed("1".to_string());
    assert!(indexer.has_pending_changes());
    assert_eq!(indexer.changed_count(), 1);

    // Remove
    indexer.mark_removed("1");
    assert_eq!(indexer.processed_count(), 0);
    assert_eq!(indexer.inner().len(), 0);
}

#[test]
fn test_incremental_indexer_apply_changes() {
    let mut indexer = IncrementalIndexer::new();

    let changes = vec![
        DocumentChange::Added(create_test_doc("1", "Doc 1")),
        DocumentChange::Added(create_test_doc("2", "Doc 2")),
        DocumentChange::Modified(create_test_doc("3", "Doc 3 Modified")),
        DocumentChange::Removed("4".to_string()),
    ];

    indexer.apply_changes(&changes);

    assert_eq!(indexer.processed_count(), 3);
    assert_eq!(indexer.inner().len(), 3);
    assert!(!indexer.has_pending_changes());
}

#[test]
fn modified_replaces_without_stale_postings() {
    let mut indexer = IncrementalIndexer::new();
    indexer.mark_added(create_test_doc("1", "alpha"));
    indexer.apply_changes(&[DocumentChange::Modified(create_test_doc("1", "beta"))]);
    assert_eq!(indexer.inner().len(), 1);
    assert_eq!(indexer.inner().get("1").unwrap().name, "beta");
    assert!(indexer.inner().search_prefix("alpha", 10).is_empty());
    assert_eq!(indexer.inner().search_prefix("beta", 10).len(), 1);
    assert_eq!(indexer.inner().get_by_account("test_account").len(), 1);
    assert_eq!(indexer.changed_count(), 0);
}

#[test]
fn pending_changes_and_state() {
    let mut indexer = IncrementalIndexer::with_persistence("state.json".to_string());
    assert_eq!(indexer.persistence_path().unwrap(), "state.json");
    assert!(!indexer.has_pending_changes());
    indexer.mark_changed("b".to_string());
    indexer.mark_changed("a".to_string());
    indexer.mark_changed("b".to_string());
    let pending: Vec<String> = indexer.get_pending_changes().into_iter().cloned().collect();
    assert_eq!(pending, vec!["b", "a"]);
    indexer.mark_added(create_test_doc("c", "C"));
    assert_eq!(indexer.changed_count(), 3);
    assert_eq!(indexer.processed_ids(), vec!["c"]);
    indexer.set_node_file("c".to_string(), "/tmp/c".to_string());
    assert_eq!(indexer.node_file("c").unwrap(), "/tmp/c");
    assert!(indexer.node_file("x").is_none());
    indexer.restore_state(vec!["x".to_string(), "y".to_string(), "x".to_string()]);
    assert_eq!(indexer.processed_count(), 2);
    indexer.inner_mut().add_document(create_test_doc("z", "Z"));
    assert_eq!(indexer.inner().len(), 2);
    indexer.clear();
    assert_eq!(indexer.processed_count(), 0);
    assert_eq!(indexer.changed_count(), 0);
    assert!(indexer.inner().is_empty());
    assert!(indexer.node_file("c").is_none());
    assert!(IncrementalIndexer::new().persistence_path().is_none());
}
