use cloudnexus_core::order::ranking_of;
use cloudnexus_core::search::history::{HistoryEntry, SearchHistory};

#[test]
fn test_search_history_basic() {
    let mut history = SearchHistory::new(10);

    // Record some searches
    history.record_search("document".to_string(), 5, "global".to_string());
    history.record_search("pdf".to_string(), 3, "global".to_string());
    history.record_search("document".to_string(), 7, "global".to_string()); // Same query again

    assert_eq!(history.len(), 3);

    // "document" should have count 2
    let popular = history.get_popular(5);
    assert_eq!(popular.len(), 2);
    assert_eq!(popular[0].1, &2); // "document" has 2 entries
    assert_eq!(popular[1].1, &1); // "pdf" has 1 entry
}

#[test]
fn test_search_history_prefix() {
    let mut history = SearchHistory::new(10);

    history.record_search("document".to_string(), 5, "global".to_string());
    history.record_search("documentation".to_string(), 3, "global".to_string());
    history.record_search("pdf".to_string(), 2, "global".to_string());

    let matches = history.search_history("doc");
    assert_eq!(matches.len(), 2);
}

#[test]
fn test_search_history_clear() {
    let mut history = SearchHistory::new(10);

    history.record_search("test".to_string(), 1, "global".to_string());
    assert!(!history.is_empty());

    history.clear();
    assert!(history.is_empty());
}

#[test]
fn history_keeps_the_latest_first_and_drops_the_oldest() {
    let mut history = SearchHistory::new(3);
    for (i, q) in ["a", "b", "c", "d"].iter().enumerate() {
        history.record_search_at(q.to_string(), 100 + i as i64, i, "global".to_string());
    }
    assert_eq!(history.len(), 3);
    let recent: Vec<(&str, i64, usize)> = history
        .get_recent(10)
        .iter()
        .map(|e| (e.query.as_str(), e.timestamp, e.result_count))
        .collect();
    assert_eq!(recent, vec![("d", 103, 3), ("c", 102, 2), ("b", 101, 1)]);
    assert_eq!(history.get_recent(2).len(), 2);
    assert_eq!(history.get_recent(0).len(), 0);
    // the count outlives the entry
    let popular: Vec<(String, usize)> =
        history.get_popular(10).iter().map(|(q, c)| ((*q).clone(), **c)).collect();
    assert_eq!(
        popular,
        vec![
            ("a".to_string(), 1),
            ("b".to_string(), 1),
            ("c".to_string(), 1),
            ("d".to_string(), 1)
        ]
    );
    let mut none = SearchHistory::new(0);
    none.record_search("x".to_string(), 1, "s".to_string());
    assert!(none.is_empty());
}

#[test]
fn record_search_stamps_with_the_clock() {
    let mut history = SearchHistory::new(5);
    history.record_search("now".to_string(), 1, "global".to_string());
    let stamp = history.get_recent(1)[0].timestamp;
    // after 2020-01-01 and before 2100-01-01
    assert!(stamp > 1_577_836_800);
    assert!(stamp < 4_102_444_800);
}

#[test]
fn popular_ranks_by_count_then_first_seen() {
    let mut history = SearchHistory::new(10);
    for q in ["x", "y", "z", "y", "z", "z", "w"] {
        history.record_search_at(q.to_string(), 0, 0, "s".to_string());
    }
    let popular: Vec<(String, usize)> =
        history.get_popular(3).iter().map(|(q, c)| ((*q).clone(), **c)).collect();
    assert_eq!(
        popular,
        vec![("z".to_string(), 3), ("y".to_string(), 2), ("x".to_string(), 1)]
    );
    assert_eq!(ranking_of(&vec![1, 3, 3, 2, 5]), vec![4, 1, 2, 3, 0]);
    assert_eq!(ranking_of(&vec![]), Vec::<usize>::new());
}

#[test]
fn history_search_is_case_blind_and_capped() {
    let mut history = SearchHistory::new(50);
    for i in 0..15 {
        history.record_search_at(format!("Report {}", i), i, 0, "s".to_string());
    }
    history.record_search_at("other".to_string(), 99, 0, "s".to_string());
    let found = history.search_history("rEPORT");
    assert_eq!(found.len(), 10);
    assert_eq!(found[0].query, "Report 14");
    assert_eq!(found[9].query, "Report 5");
    assert_eq!(history.search_history("").len(), 10);
    assert!(history.search_history("zzz").is_empty());
}

#[test]
fn remove_and_restore() {
    let mut history = SearchHistory::with_persistence("h.json".to_string(), 10);
    assert_eq!(history.persistence_path().unwrap(), "h.json");
    for q in ["a", "b", "a", "c"] {
        history.record_search_at(q.to_string(), 1, 2, "s".to_string());
    }
    history.remove("a");
    let left: Vec<String> = history.get_recent(10).iter().map(|e| e.query.clone()).collect();
    assert_eq!(left, vec!["c", "b"]);
    assert_eq!(history.get_popular(10).len(), 2);
    let kept = history.entries();
    assert_eq!(kept.len(), 2);
    let mut other = SearchHistory::new(10);
    other.restore(vec![
        HistoryEntry { query: "q".to_string(), timestamp: 3, result_count: 1, scope: "s".to_string() },
        HistoryEntry { query: "r".to_string(), timestamp: 2, result_count: 1, scope: "s".to_string() },
        HistoryEntry { query: "q".to_string(), timestamp: 1, result_count: 1, scope: "s".to_string() },
    ]);
    assert_eq!(other.len(), 3);
    assert_eq!(other.get_recent(1)[0].timestamp, 3);
    let popular: Vec<(String, usize)> =
        other.get_popular(10).iter().map(|(q, c)| ((*q).clone(), **c)).collect();
    assert_eq!(popular, vec![("q".to_string(), 2), ("r".to_string(), 1)]);
    assert!(SearchHistory::new(1).persistence_path().is_none());
}
