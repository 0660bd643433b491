use cloudnexus_core::text::{distinct_words, split_words};

fn listed_as_space(code: u32) -> bool {
    (0x09..=0x0D).contains(&code)
        || code == 0x20
        || code == 0x85
        || code == 0xA0
        || code == 0x1680
        || (0x2000..=0x200A).contains(&code)
        || code == 0x2028
        || code == 0x2029
        || code == 0x202F
        || code == 0x205F
        || code == 0x3000
}

#[test]
fn words_are_parted_by_every_space_character() {
    assert_eq!(split_words("a\u{3000}b\u{85}c\u{2003}\td"), vec!["a", "b", "c", "d"]);
    assert_eq!(split_words("  one\u{A0}\u{1680}two\n"), vec!["one", "two"]);
    assert_eq!(split_words("zero\u{200B}width\u{180E}stays"), vec!["zero\u{200B}width\u{180E}stays"]);
    assert!(split_words(" \u{2028}\u{2029}\u{202F}\u{205F}").is_empty());
}

#[test]
fn each_character_parts_words_exactly_where_it_is_a_space() {
    for code in 0u32..=0x10FFFF {
        if let Some(c) = char::from_u32(code) {
            let text = format!("a{}b", c);
            let parted = split_words(&text).len() == 2;
            assert_eq!(parted, listed_as_space(code), "U+{:04X}", code);
        }
    }
}

#[test]
fn repeated_words_are_kept_where_they_first_stand() {
    let words = split_words("data big data  big\tdata set");
    assert_eq!(words, vec!["data", "big", "data", "big", "data", "set"]);
    assert_eq!(distinct_words(&words), vec!["data", "big", "set"]);
    assert!(distinct_words(&Vec::new()).is_empty());
    assert_eq!(distinct_words(&vec!["x".to_string()]), vec!["x"]);
    assert_eq!(distinct_words(&split_words("a A a")), vec!["a", "A"]);
}
