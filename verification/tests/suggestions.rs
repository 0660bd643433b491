use cloudnexus_core::search::jaro::{jaro_counts, JaroCounts};
use cloudnexus_core::search::suggestions::{ScoreInputs, SuggestionEngine};

fn score(inputs: ScoreInputs) -> f64 {
    let freq_score = (inputs.frequency as f64 + 1.0).ln();
    let exact_prefix_bonus = if inputs.exact_prefix { 2.0 } else { 0.0 };
    let length_penalty = (inputs.length as f64).ln() / 10.0;
    let recency_boost = if inputs.recent { 1.5 } else { 1.0 };
    (freq_score + exact_prefix_bonus - length_penalty) * recency_boost
}

fn key(score: f64) -> u64 {
    let bits = score.to_bits();
    if bits >> 63 == 0 {
        bits | (1 << 63)
    } else {
        !bits
    }
}

fn add(engine: &mut SuggestionEngine, text: &str, frequency: usize) {
    let inputs = engine.score_inputs(text, frequency);
    engine.add_suggestion(text, frequency, key(score(inputs)));
}

fn similarity(counts: JaroCounts) -> f64 {
    if counts.identical {
        return 1.0;
    }
    if counts.len1 == 0 || counts.len2 == 0 || counts.matches == 0 {
        return 0.0;
    }
    let m = counts.matches as f64;
    let jaro = (m / counts.len1 as f64
        + m / counts.len2 as f64
        + (m - counts.transpositions as f64 / 2.0) / m)
        / 3.0;
    jaro + (counts.prefix as f64 * 0.1 * (1.0 - jaro))
}

fn jaro_winkler_similarity(a: &str, b: &str) -> f64 {
    similarity(jaro_counts(a, b))
}

fn fuzzy_match(query: &str, target: &str, threshold: f64) -> bool {
    jaro_winkler_similarity(query, target) >= threshold
}

#[test]
fn test_suggestion_engine_basic() {
    let mut engine = SuggestionEngine::new(3, 10);

    // Add some suggestions
    add(&mut engine, "document.pdf", 10);
    add(&mut engine, "document.docx", 5);
    add(&mut engine, "downloads", 3);

    // Get suggestions for "doc"
    let suggestions = engine.get_prefix_suggestions("doc", 5);
    assert!(suggestions.len() >= 2);
    assert!(suggestions.contains(&"document.pdf".to_string()));
    assert!(suggestions.contains(&"document.docx".to_string()));
}

#[test]
fn test_suggestion_engine_recency() {
    let mut engine = SuggestionEngine::default();

    add(&mut engine, "test", 1);
    add(&mut engine, "testing", 1);

    // Record usage
    engine.record_usage("test");

    // "test" should be boosted
    let suggestions = engine.get_prefix_suggestions("tes", 5);
    assert!(!suggestions.is_empty());
}

#[test]
fn test_suggestion_engine_clear() {
    let mut engine = SuggestionEngine::default();
    add(&mut engine, "test", 1);
    assert!(!engine.is_empty());

    engine.clear();
    assert!(engine.is_empty());
}

#[test]
fn test_jaro_winkler() {
    // Same string should return 1.0
    assert!((jaro_winkler_similarity("hello", "hello") - 1.0).abs() < 0.001);

    // Empty strings should return 0.0
    assert!((jaro_winkler_similarity("", "hello") - 0.0).abs() < 0.001);

    // Similar strings should have high score
    let score = jaro_winkler_similarity("hello", "hallo");
    assert!(score > 0.8);
}

#[test]
fn test_fuzzy_match() {
    assert!(fuzzy_match("hello", "hallo", 0.7));
    assert!(!fuzzy_match("hello", "world", 0.7));
}

#[test]
fn jaro_counts_of_known_pairs() {
    let counts = jaro_counts("MARTHA", "MARHTA");
    assert_eq!(
        counts,
        JaroCounts { identical: false, len1: 6, len2: 6, matches: 6, transpositions: 2, prefix: 3 }
    );
    assert!((similarity(counts) - 0.9611).abs() < 0.0001);
    let counts = jaro_counts("DIXON", "DICKSONX");
    assert_eq!((counts.matches, counts.transpositions, counts.prefix), (4, 0, 2));
    assert!((similarity(counts) - 0.8133).abs() < 0.0001);
    let counts = jaro_counts("hello", "hallo");
    assert_eq!((counts.matches, counts.transpositions, counts.prefix), (4, 0, 1));
    assert_eq!(jaro_counts("abc", "xyz").matches, 0);
    assert_eq!(jaro_counts("a", "b").matches, 0);
    assert_eq!(jaro_counts("a", "a").identical, true);
    assert_eq!(jaro_counts("", "").identical, true);
    assert_eq!(jaro_counts("", "abc"), JaroCounts {
        identical: false,
        len1: 0,
        len2: 3,
        matches: 0,
        transpositions: 0,
        prefix: 0
    });
    assert_eq!(jaro_counts("prefixes", "prefixed").prefix, 4);
    assert_eq!(jaro_counts("日本語", "日本人").prefix, 2);
    // a character matches only within its window
    assert_eq!(jaro_counts("abcdefgh", "hxxxxxxa").matches, 0);
}

#[test]
fn suggestions_are_ranked_by_key_and_capped() {
    let mut engine = SuggestionEngine::new(2, 3);
    engine.add_suggestion("alpha", 1, 10);
    engine.add_suggestion("alps", 1, 30);
    engine.add_suggestion("altitude", 1, 20);
    assert_eq!(engine.get_prefix_suggestions("al", 5), vec!["alps", "altitude"]);
    assert_eq!(engine.get_prefix_suggestions("AL", 1), vec!["alps"]);
    assert_eq!(engine.get_prefix_suggestions("alp", 5), vec!["alps", "alpha"]);
    // prefixes longer than three characters are not indexed; a near prefix stands in
    assert_eq!(engine.get_prefix_suggestions("alph", 5), vec!["alps", "alpha"]);
    assert!(engine.get_prefix_suggestions("b", 5).is_empty());
    assert_eq!(engine.len(), 3);
    // a text that is added again keeps one place and adds up its frequency
    engine.add_suggestion("alpha", 4, 40);
    let list = engine.get_suggestions("alp");
    assert_eq!(list[0].text, "alpha");
    assert_eq!((list[0].frequency, list[0].score_key), (5, 40));
    assert_eq!(list.len(), 2);
    // equal keys keep their order
    let mut ties = SuggestionEngine::new(5, 5);
    ties.add_suggestion("xa", 1, 7);
    ties.add_suggestion("xb", 1, 7);
    ties.add_suggestion("xc", 1, 9);
    assert_eq!(ties.get_prefix_suggestions("x", 5), vec!["xc", "xa", "xb"]);
    ties.add_suggestion("", 1, 99);
    assert_eq!(ties.len(), 3);
}

#[test]
fn score_inputs_follow_the_engine() {
    let mut engine = SuggestionEngine::new(5, 5);
    assert_eq!(
        engine.score_inputs("Tést", 2),
        ScoreInputs { frequency: 2, exact_prefix: true, length: 5, recent: false }
    );
    engine.add_suggestion("Tést", 2, 1);
    engine.record_usage("TÉST");
    assert_eq!(
        engine.score_inputs("tést", 1),
        ScoreInputs { frequency: 4, exact_prefix: true, length: 5, recent: true }
    );
    assert!((score(ScoreInputs { frequency: 0, exact_prefix: true, length: 1, recent: false }) - 2.0).abs() < 1e-12);
    assert!(key(1.5) > key(1.0));
    assert!(key(0.0) > key(-1.0));
    assert!(key(-1.0) > key(-2.0));
}
