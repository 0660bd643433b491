use cloudnexus_core::search::batch::BatchIndexer;
use cloudnexus_core::search::index::SearchDocument;

fn create_test_doc(id: &str, name: &str) -> SearchDocument {
    SearchDocument {
        node_id: id.to_string(),
        account_id: "test_account".to_string(),
        provider: "gdrive".to_string(),
        email: "test@example.com".to_string(),
        name: name.to_string(),
        is_folder: false,
        parent_id: None,
    }
}

#[test]
fn test_batch_indexer_basic() {
    let mut batcher = BatchIndexer::new(3);

    // Add 2 documents (below batch size)
    batcher.add_document(create_test_doc("1", "Test Document 1"));
    batcher.add_document(create_test_doc("2", "Test Document 2"));
    assert_eq!(batcher.current_batch_size(), 2);
    assert_eq!(batcher.total_indexed(), 0);

    // Add 3rd document (should trigger flush)
    let triggered = batcher.add_document(create_test_doc("3", "Test Document 3"));
    assert!(triggered);
    assert_eq!(batcher.current_batch_size(), 0);
    assert_eq!(batcher.total_indexed(), 3);
}

#[test]
fn test_batch_indexer_flush() {
    let mut batcher = BatchIndexer::new(5);

    batcher.add_document(create_test_doc("1", "Doc 1"));
    batcher.add_document(create_test_doc("2", "Doc 2"));

    assert_eq!(batcher.flush().unwrap(), 2);
    assert_eq!(batcher.total_indexed(), 2);
    assert_eq!(batcher.inner().len(), 2);
}

#[test]
fn test_batch_indexer_add_documents() {
    let mut batcher = BatchIndexer::new(10);

    let docs: Vec<SearchDocument> = (0..5)
        .map(|i| create_test_doc(&i.to_string(), &format!("Document {}", i)))
        .collect();

    batcher.add_documents(&docs).unwrap();
    assert_eq!(batcher.total_indexed(), 5);
    assert_eq!(batcher.inner().len(), 5);
}

#[test]
fn batch_indexer_edges() {
    let mut batcher = BatchIndexer::new(2);
    assert_eq!(batcher.batch_size(), 2);
    assert_eq!(batcher.flush(), Ok(0));
    assert!(!batcher.add_document(create_test_doc("1", "One")));
    assert!(batcher.inner().is_empty());
    assert!(batcher.add_document(create_test_doc("2", "Two")));
    assert_eq!(batcher.inner().len(), 2);
    batcher.inner_mut().add_document(create_test_doc("3", "Three"));
    assert_eq!(batcher.inner().len(), 3);
    assert_eq!(batcher.total_indexed(), 2);
    assert!(!batcher.add_document(create_test_doc("4", "Four")));
    let index = batcher.into_index();
    assert_eq!(index.len(), 3);
    assert!(index.get("4").is_none());

    let mut more = BatchIndexer::new(2);
    let docs = vec![
        create_test_doc("1", "One"),
        create_test_doc("2", "Two"),
        create_test_doc("3", "Three"),
    ];
    assert_eq!(more.add_documents(&docs), Ok(()));
    assert_eq!(more.current_batch_size(), 0);
    assert_eq!(more.total_indexed(), 3);
    assert_eq!(more.inner().len(), 3);

    let mut every = BatchIndexer::new(0);
    assert!(every.add_document(create_test_doc("1", "One")));
    assert_eq!(every.total_indexed(), 1);
}
