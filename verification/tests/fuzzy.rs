use cloudnexus_core::search::fuzzy::{
    levenshtein_distance, metaphone, metaphone_of_upper, sounds_like, soundex, soundex_of_upper,
};

#[test]
fn test_levenshtein_basic() {
    assert_eq!(levenshtein_distance("kitten", "sitting"), 3);
    assert_eq!(levenshtein_distance("", ""), 0);
    assert_eq!(levenshtein_distance("abc", ""), 3);
    assert_eq!(levenshtein_distance("", "abc"), 3);
}

#[test]
fn test_soundex() {
    assert_eq!(soundex("Robert"), "R163");
    assert_eq!(soundex("Rupert"), "R163");
    assert_eq!(soundex("Rubin"), "R150");
    assert_eq!(soundex("Ashcraft"), "A261");
}

#[test]
fn test_metaphone() {
    // Should produce same code for similar sounding words
    assert_eq!(metaphone("cat"), metaphone("kat"));
    assert_eq!(metaphone("hello"), metaphone("helo"));
}

#[test]
fn test_sounds_like() {
    assert!(sounds_like("Smith", "Smythe"));
    assert!(!sounds_like("Smith", "Jones"));
}

#[test]
fn levenshtein_of_a_string_with_itself_is_zero() {
    for s in ["", "a", "kitten", "résumé", "日本語のテキスト"] {
        assert_eq!(levenshtein_distance(s, s), 0);
    }
}

#[test]
fn levenshtein_counts_characters_not_bytes() {
    assert_eq!(levenshtein_distance("résumé", "resume"), 2);
    assert_eq!(levenshtein_distance("日本", "日本語"), 1);
    assert_eq!(levenshtein_distance("flaw", "lawn"), 2);
    assert_eq!(levenshtein_distance("saturday", "sunday"), 3);
    assert_eq!(levenshtein_distance("a", "b"), 1);
    assert_eq!(levenshtein_distance("ab", "ba"), 2);
}

#[test]
fn soundex_edge_cases() {
    assert_eq!(soundex(""), "0000");
    assert_eq!(soundex("a"), "A000");
    assert_eq!(soundex("robert"), "R163");
    assert_eq!(soundex("Tymczak"), "T522");
    assert_eq!(soundex("Pfister"), "P236");
    assert_eq!(soundex("Honeyman"), "H555");
    assert_eq!(soundex("Jackson"), "J250");
    assert_eq!(soundex("Washington"), "W252");
    assert_eq!(soundex_of_upper(&['R', 'O', 'B', 'E', 'R', 'T']), "R163");
    assert_eq!(soundex_of_upper(&[]), "0000");
}

#[test]
fn metaphone_codes() {
    assert_eq!(metaphone(""), "");
    assert_eq!(metaphone("cat"), "KT");
    assert_eq!(metaphone("hello"), "L");
    assert_eq!(metaphone("Apple"), "APL");
    assert_eq!(metaphone("phone"), "FN");
    assert_eq!(metaphone("ship"), "XP");
    assert_eq!(metaphone("thing"), "XNK");
    assert_eq!(metaphone("judge"), "JJ");
    assert_eq!(metaphone("science"), "SNS");
    assert_eq!(metaphone("school"), "SL");
    assert_eq!(metaphone("knight"), "KNHT");
    assert_eq!(metaphone("quick"), "KK");
    assert_eq!(metaphone("zebra"), "SBR");
    assert_eq!(metaphone("very"), "FR");
    assert_eq!(metaphone("water"), "WTR");
    assert_eq!(metaphone("gnome"), "NNM");
    assert_eq!(metaphone("characteristics"), "KRKT");
    assert_eq!(metaphone_of_upper(&['C', 'A', 'T']), "KT");
    assert_eq!(metaphone_of_upper(&['1', '2']), "");
}
