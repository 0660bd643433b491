use cloudnexus_core::search::index::{SearchDocument, SearchIndex};

fn doc(id: &str, account: &str, name: &str) -> SearchDocument {
    SearchDocument {
        node_id: id.to_string(),
        account_id: account.to_string(),
        provider: "gdrive".to_string(),
        email: "test@example.com".to_string(),
        name: name.to_string(),
        is_folder: false,
        parent_id: None,
    }
}

#[test]
fn test_search_index_basic() {
    let mut index = SearchIndex::new();

    index.add_document(SearchDocument {
        node_id: "1".to_string(),
        account_id: "acc1".to_string(),
        provider: "gdrive".to_string(),
        email: "test@example.com".to_string(),
        name: "Document.pdf".to_string(),
        is_folder: false,
        parent_id: None,
    });

    index.add_document(SearchDocument {
        node_id: "2".to_string(),
        account_id: "acc1".to_string(),
        provider: "gdrive".to_string(),
        email: "test@example.com".to_string(),
        name: "Project Files".to_string(),
        is_folder: true,
        parent_id: None,
    });

    assert_eq!(index.len(), 2);

    // Test exact search
    let results = index.search_exact("document", 10);
    assert_eq!(results.len(), 1);
    assert_eq!(results[0].node_id, "1");

    // Test prefix search
    let results = index.search_prefix("doc", 10);
    assert_eq!(results.len(), 1);

    // Test account filter
    let results = index.search_by_account("doc", "acc1", 10);
    assert_eq!(results.len(), 1);

    // Test non-existent account
    let results = index.search_by_account("doc", "acc2", 10);
    assert_eq!(results.len(), 0);
}

#[test]
fn test_search_index_remove() {
    let mut index = SearchIndex::new();

    index.add_document(SearchDocument {
        node_id: "1".to_string(),
        account_id: "acc1".to_string(),
        provider: "gdrive".to_string(),
        email: "test@example.com".to_string(),
        name: "Test".to_string(),
        is_folder: false,
        parent_id: None,
    });

    assert_eq!(index.len(), 1);

    let removed = index.remove_document("1");
    assert!(removed.is_some());
    assert_eq!(index.len(), 0);

    let removed = index.remove_document("1");
    assert!(removed.is_none());
}

#[test]
fn search_ranking() {
    let mut index = SearchIndex::new();
    index.add_document(doc("1", "a", "Report.pdf"));
    index.add_document(doc("2", "a", "Annual Report 2024"));
    index.add_document(doc("3", "a", "quarterly_report"));
    let results = index.search_exact("report", 10);
    let got: Vec<(&str, u32)> = results.iter().map(|r| (r.node_id.as_str(), r.score)).collect();
    assert_eq!(got, vec![("1", 90), ("2", 75), ("3", 70)]);
    assert_eq!(results[1].name, "Annual Report 2024");
    assert_eq!(results[1].account_id, "a");
    assert_eq!(results[1].provider, "gdrive");
}

#[test]
fn exact_match_scores_full() {
    let mut index = SearchIndex::new();
    index.add_document(doc("x", "a", "Holiday Photos"));
    index.add_document(doc("y", "a", "Holiday Photos 2"));
    let results = index.search_exact("holiday photos", 10);
    assert_eq!(results.len(), 2);
    assert_eq!((results[0].node_id.as_str(), results[0].score), ("x", 100));
    assert_eq!((results[1].node_id.as_str(), results[1].score), ("y", 90));
    let results = index.search_exact("HOLIDAY PHOTOS", 1);
    assert_eq!(results.len(), 1);
    assert_eq!(results[0].node_id, "x");
}

#[test]
fn ties_keep_store_order_and_limit_cuts() {
    let mut index = SearchIndex::new();
    index.add_document(doc("b", "a", "zz alpha"));
    index.add_document(doc("a", "a", "yy alpha"));
    index.add_document(doc("c", "a", "alpha"));
    index.add_document(doc("d", "a", "xalpha"));
    let ids: Vec<String> =
        index.search_exact("alpha", 10).iter().map(|r| r.node_id.clone()).collect();
    assert_eq!(ids, vec!["c", "b", "a", "d"]);
    let ids: Vec<String> =
        index.search_exact("alpha", 2).iter().map(|r| r.node_id.clone()).collect();
    assert_eq!(ids, vec!["c", "b"]);
    assert!(index.search_exact("alpha", 0).is_empty());
    assert!(index.search_exact("beta", 10).is_empty());
    assert_eq!(index.search_exact("", 10).len(), 4);
}

#[test]
fn prefix_search_finds_by_word_start() {
    let mut index = SearchIndex::new();
    index.add_document(doc("1", "a", "Annual Report 2024"));
    index.add_document(doc("2", "a", "Annual Review"));
    index.add_document(doc("3", "a", "Biannual Report"));
    let ids = |q: &str| -> Vec<String> {
        index.search_prefix(q, 10).iter().map(|r| r.node_id.clone()).collect()
    };
    assert_eq!(ids("annual"), vec!["1", "2"]);
    assert_eq!(ids("Annual Re"), vec!["1", "2"]);
    assert_eq!(ids("annual rep"), vec!["1"]);
    assert_eq!(ids("report"), Vec::<String>::new());
    assert_eq!(ids(""), Vec::<String>::new());
    assert_eq!(ids("b"), vec!["3"]);
    let results = index.search_prefix("an", 10);
    assert!(results.iter().all(|r| r.score == 95));
    assert_eq!(index.search_prefix("an", 1).len(), 1);
}

#[test]
fn prefix_search_lists_a_document_once() {
    let mut index = SearchIndex::new();
    index.add_document(doc("1", "a", "data data data"));
    assert_eq!(index.search_prefix("data d", 10).len(), 1);
}

#[test]
fn account_search_scores_like_exact_search() {
    let mut index = SearchIndex::new();
    index.add_document(doc("1", "acc1", "Report.pdf"));
    index.add_document(doc("2", "acc2", "Annual Report 2024"));
    index.add_document(doc("3", "acc1", "my report"));
    index.add_document(doc("4", "acc1", "report"));
    let got: Vec<(String, u32)> = index
        .search_by_account("report", "acc1", 10)
        .iter()
        .map(|r| (r.node_id.clone(), r.score))
        .collect();
    assert_eq!(
        got,
        vec![("4".to_string(), 100), ("1".to_string(), 90), ("3".to_string(), 75)]
    );
    assert_eq!(index.get_by_account("acc1").len(), 3);
    assert_eq!(index.get_by_account("acc2")[0].node_id, "2");
    assert!(index.get_by_account("nobody").is_empty());
}

#[test]
fn add_then_remove_restores_the_index() {
    let mut index = SearchIndex::new();
    index.add_document(doc("1", "acc1", "Quarterly Report"));
    index.add_document(doc("2", "acc1", "Report Draft"));
    let before_exact = index.search_exact("report", 10).len();
    let before_prefix = index.search_prefix("report", 10).len();
    index.add_document(doc("3", "acc2", "Report Final report"));
    assert_eq!(index.len(), 3);
    assert_eq!(index.search_prefix("report", 10).len(), before_prefix + 1);
    let removed = index.remove_document("3").unwrap();
    assert_eq!(removed, doc("3", "acc2", "Report Final report"));
    assert_eq!(index.len(), 2);
    assert_eq!(index.search_exact("report", 10).len(), before_exact);
    assert_eq!(index.search_prefix("report", 10).len(), before_prefix);
    assert!(index.get_by_account("acc2").is_empty());
    assert!(index.get("3").is_none());
    assert_eq!(index.get("1").unwrap().name, "Quarterly Report");
}

#[test]
fn replacing_a_document_keeps_its_place_and_old_postings() {
    let mut index = SearchIndex::new();
    index.add_document(doc("1", "acc1", "alpha"));
    index.add_document(doc("2", "acc1", "beta"));
    index.add_document(doc("1", "acc1", "gamma"));
    assert_eq!(index.len(), 2);
    assert_eq!(index.get("1").unwrap().name, "gamma");
    let ids: Vec<String> =
        index.search_exact("a", 10).iter().map(|r| r.node_id.clone()).collect();
    assert_eq!(ids, vec!["1", "2"]);
    // posted twice under the account
    assert_eq!(index.get_by_account("acc1").len(), 3);
}

#[test]
fn clear_empties_everything() {
    let mut index = SearchIndex::new();
    assert!(index.is_empty());
    index.add_document(doc("1", "acc1", "alpha"));
    assert!(!index.is_empty());
    index.clear();
    assert!(index.is_empty());
    assert_eq!(index.len(), 0);
    assert!(index.search_exact("alpha", 10).is_empty());
    assert!(index.search_prefix("alpha", 10).is_empty());
    assert!(index.get_by_account("acc1").is_empty());
}

#[test]
fn words_are_split_on_any_whitespace() {
    let mut index = SearchIndex::new();
    index.add_document(doc("1", "a", "  tab\tseparated\nwords  "));
    assert_eq!(index.search_prefix("  tab", 10).len(), 1);
    assert_eq!(index.search_exact("separated", 10)[0].score, 70);
    assert_eq!(index.search_exact("tab", 10)[0].score, 75);
}

#[test]
fn only_the_document_of_that_name_scores_full() {
    let mut index = SearchIndex::new();
    index.add_document(doc("1", "a", "Report"));
    index.add_document(doc("2", "a", "Report 2024"));
    index.add_document(doc("3", "a", "Annual report"));
    let results = index.search_exact("report", 10);
    assert_eq!(results.len(), 3);
    assert_eq!(results[0].node_id, "1");
    assert_eq!(results[0].score, 100);
    assert!(results[1..].iter().all(|r| r.score != 100));
}

#[test]
fn prefix_search_names_each_document_once_with_one_score() {
    let mut index = SearchIndex::new();
    index.add_document(doc("1", "a", "Document.pdf"));
    index.add_document(doc("2", "a", "Doc doc doc"));
    index.add_document(doc("3", "a", "Other"));
    let results = index.search_prefix("doc", 10);
    assert_eq!(results.iter().filter(|r| r.node_id == "1").count(), 1);
    assert_eq!(results.iter().filter(|r| r.node_id == "2").count(), 1);
    assert_eq!(results.len(), 2);
    assert!(results.iter().all(|r| r.score == 95));
    let ids: Vec<&str> = results.iter().map(|r| r.node_id.as_str()).collect();
    assert_eq!(ids, vec!["1", "2"]);
}

#[test]
fn a_name_that_repeats_a_word_is_indexed_once_under_it() {
    let mut index = SearchIndex::new();
    index.add_document(doc("1", "a", "Data data DATA set"));
    index.add_document(doc("2", "a", "data"));
    let ids: Vec<String> =
        index.search_prefix("data", 10).iter().map(|r| r.node_id.clone()).collect();
    assert_eq!(ids, vec!["1", "2"]);
    assert_eq!(index.search_prefix("data data", 10).len(), 1);
    assert!(index.remove_document("1").is_some());
    let ids: Vec<String> =
        index.search_prefix("data", 10).iter().map(|r| r.node_id.clone()).collect();
    assert_eq!(ids, vec!["2"]);
    assert!(index.search_prefix("set", 10).is_empty());
    assert!(index.remove_document("2").is_some());
    assert!(index.is_empty());
    assert!(index.search_prefix("data", 10).is_empty());
}
