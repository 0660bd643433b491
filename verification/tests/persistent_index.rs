use cloudnexus_core::search::index::{PersistentSearchIndex, SearchDocument, SearchIndex};

fn doc(id: &str, name: &str) -> SearchDocument {
    SearchDocument {
        node_id: id.to_string(),
        account_id: "acc".to_string(),
        provider: "gdrive".to_string(),
        email: "a@example.com".to_string(),
        name: name.to_string(),
        is_folder: false,
        parent_id: Some("root".to_string()),
    }
}

#[test]
fn persistent_index_delegates() {
    let mut index = PersistentSearchIndex::new("idx.json".to_string());
    assert_eq!(index.path(), "idx.json");
    assert!(index.inner().is_empty());
    index.restore(vec![doc("1", "One"), doc("2", "Two"), doc("1", "Uno")]);
    assert_eq!(index.inner().len(), 2);
    assert_eq!(index.inner().get("1").unwrap().name, "Uno");
    index.add_document(doc("3", "Three"));
    assert_eq!(index.remove_document("2").unwrap().name, "Two");
    assert!(index.remove_document("2").is_none());
    index.inner_mut().add_document(doc("4", "Four"));
    let stored: Vec<String> = index.inner().documents().iter().map(|d| d.node_id.clone()).collect();
    assert_eq!(stored, vec!["1", "3", "4"]);
    index.clear();
    assert!(index.inner().is_empty());
    assert_eq!(index.path(), "idx.json");
}

#[test]
fn documents_come_in_store_order() {
    let mut index = SearchIndex::new();
    for (id, name) in [("b", "x"), ("a", "y"), ("c", "z")] {
        index.add_document(doc(id, name));
    }
    let copy = index.get("a").unwrap().copy();
    assert_eq!(copy, doc("a", "y"));
    let ids: Vec<String> = index.documents().iter().map(|d| d.node_id.clone()).collect();
    assert_eq!(ids, vec!["b", "a", "c"]);
}
