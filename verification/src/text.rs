//! Text as sequences of characters: case folding, splitting into words, and
//! searching one sequence in another.

use vstd::prelude::*;

verus! {

/// What `str::to_lowercase` gives for a string.
pub uninterp spec fn lowercased(s: Seq<char>) -> Seq<char>;

/// What `str::to_uppercase` gives for a string.
pub uninterp spec fn uppercased(s: Seq<char>) -> Seq<char>;

/// Whether a character has the Unicode property White_Space: the controls
/// U+0009 to U+000D, the space, U+0085, U+00A0, U+1680, U+2000 to U+200A,
/// U+2028, U+2029, U+202F, U+205F and U+3000.
pub open spec fn is_space_char(c: char) -> bool {
    let code = c as u32;
    ||| 0x09 <= code <= 0x0D
    ||| code == 0x20
    ||| code == 0x85
    ||| code == 0xA0
    ||| code == 0x1680
    ||| 0x2000 <= code <= 0x200A
    ||| code == 0x2028
    ||| code == 0x2029
    ||| code == 0x202F
    ||| code == 0x205F
    ||| code == 0x3000
}

/// `str::to_lowercase` of std: the lowercase equivalent of the string, which
/// depends on the string alone.
pub assume_specification[ str::to_lowercase ](s: &str) -> (lower: String)
    ensures
        lower@ == lowercased(s@),
;

/// `str::to_uppercase` of std: the uppercase equivalent of the string, which
/// depends on the string alone.
pub assume_specification[ str::to_uppercase ](s: &str) -> (upper: String)
    ensures
        upper@ == uppercased(s@),
;

/// `char::is_whitespace` of std: whether the character has the Unicode
/// property White_Space, whose characters [`is_space_char`] lists.
pub assume_specification[ char::is_whitespace ](c: char) -> (white: bool)
    ensures
        white == is_space_char(c),
;

/// `String::push` of std: appends one character.
pub assume_specification[ String::push ](s: &mut String, ch: char)
    ensures
        final(s)@ == old(s)@.push(ch),
;

/// The characters of a string.
pub fn chars_of(s: &str) -> (chars: Vec<char>)
    ensures
        chars@ == s@,
{
    let mut chars: Vec<char> = Vec::new();
    for c in it: s.chars()
        invariant
            chars@ == s@.take(it.index() as int),
            it.seq() == s@,
    {
        chars.push(c);
        assert(s@.take(it.index() + 1) =~= s@.take(it.index() as int).push(c));
    }
    assert(s@.take(s@.len() as int) =~= s@);
    chars
}

/// The string made of the characters given.
pub fn string_of(chars: &[char]) -> (s: String)
    ensures
        s@ == chars@,
{
    let mut s = String::new();
    let n = chars.len();
    let mut i: usize = 0;
    while i < n
        invariant
            n == chars@.len(),
            i <= n,
            s@ == chars@.take(i as int),
        decreases n - i,
    {
        s.push(chars[i]);
        i += 1;
        assert(chars@.take(i as int) =~= chars@.take(i - 1).push(chars@[i - 1]));
    }
    assert(chars@.take(n as int) =~= chars@);
    s
}

/// Equality of string slices in std: the two hold the same characters.
pub assume_specification[ <str as PartialEq>::eq ](a: &str, b: &str) -> (same: bool)
    ensures
        same == (a@ == b@),
;

/// Whether two string slices hold the same characters.
pub fn same_str(a: &str, b: &str) -> (same: bool)
    ensures
        same == (a@ == b@),
{
    *a == *b
}

/// Whether `q` is what `s` starts with.
pub open spec fn is_prefix(q: Seq<char>, s: Seq<char>) -> bool {
    q.len() <= s.len() && s.take(q.len() as int) == q
}

/// Whether `q` stands in `s` at position `at`.
pub open spec fn occurs_at(s: Seq<char>, q: Seq<char>, at: int) -> bool {
    0 <= at && at + q.len() <= s.len() && s.subrange(at, at + q.len()) == q
}

/// Whether `q` stands somewhere in `s`.
pub open spec fn contains_seq(s: Seq<char>, q: Seq<char>) -> bool {
    exists|at: int| occurs_at(s, q, at)
}

/// Whether `at` is the first position at which `q` stands in `s`.
pub open spec fn is_first_occurrence(s: Seq<char>, q: Seq<char>, at: int) -> bool {
    occurs_at(s, q, at) && forall|earlier: int| 0 <= earlier < at ==> !occurs_at(s, q, earlier)
}

/// Whether `q` stands in `s` at position `at`.
pub fn matches_at(s: &[char], q: &[char], at: usize) -> (found: bool)
    ensures
        found == occurs_at(s@, q@, at as int),
{
    let n = q.len();
    let m = s.len();
    if at > m || m - at < n {
        return false;
    }
    let mut i: usize = 0;
    while i < n
        invariant
            n == q@.len(),
            m == s@.len(),
            at + n <= m,
            i <= n,
            forall|k: int| 0 <= k < i ==> s@[at + k] == q@[k],
        decreases n - i,
    {
        if s[at + i] != q[i] {
            assert(s@.subrange(at as int, at + n)[i as int] == s@[at + i]);
            return false;
        }
        i += 1;
    }
    assert(s@.subrange(at as int, at + n) =~= q@);
    true
}

/// Whether `s` starts with `q`.
pub fn starts_with(s: &[char], q: &[char]) -> (found: bool)
    ensures
        found == is_prefix(q@, s@),
{
    let found = matches_at(s, q, 0);
    proof {
        if q@.len() <= s@.len() {
            assert(s@.subrange(0, q@.len() as int) =~= s@.take(q@.len() as int));
        }
    }
    found
}

/// The first position at which `q` stands in `s`, if it stands in it.
pub fn find_first(s: &[char], q: &[char]) -> (at: Option<usize>)
    ensures
        match at {
            Some(at) => is_first_occurrence(s@, q@, at as int),
            None => !contains_seq(s@, q@),
        },
{
    let m = s.len();
    if q.len() > m {
        return None;
    }
    if q.len() == 0 {
        assert(s@.subrange(0, 0) =~= q@);
        return Some(0);
    }
    let last = m - q.len();
    let mut i: usize = 0;
    while i <= last
        invariant
            m == s@.len(),
            last + q@.len() == m,
            last < m,
            i <= last + 1,
            forall|earlier: int| 0 <= earlier < i ==> !occurs_at(s@, q@, earlier),
        decreases last + 1 - i,
    {
        if matches_at(s, q, i) {
            return Some(i);
        }
        i += 1;
    }
    None
}

/// Whether two runs of characters are the same.
pub fn same_chars(a: &[char], b: &[char]) -> (same: bool)
    ensures
        same == (a@ == b@),
{
    if a.len() != b.len() {
        return false;
    }
    let same = matches_at(a, b, 0);
    assert(a@.subrange(0, a@.len() as int) =~= a@);
    same
}

/// The words from position `at` of `s` on, where `current` holds the
/// characters of the word that is being read.
pub open spec fn words_from(s: Seq<char>, at: int, current: Seq<char>) -> Seq<Seq<char>>
    decreases s.len() - at,
{
    let finished = if current.len() > 0 {
        seq![current]
    } else {
        Seq::empty()
    };
    if at < 0 || at >= s.len() {
        finished
    } else if is_space_char(s[at]) {
        finished + words_from(s, at + 1, Seq::empty())
    } else {
        words_from(s, at + 1, current.push(s[at]))
    }
}

/// The words of `s`: its maximal runs of characters that are not whitespace,
/// in order.
pub open spec fn words(s: Seq<char>) -> Seq<Seq<char>> {
    words_from(s, 0, Seq::empty())
}

/// The character sequences that a list of strings holds.
pub open spec fn views_of(strings: Seq<String>) -> Seq<Seq<char>> {
    Seq::new(strings.len(), |i: int| strings[i]@)
}

/// Splits a string into its words.
pub fn split_words(s: &str) -> (found: Vec<String>)
    ensures
        views_of(found@) == words(s@),
{
    let mut found: Vec<String> = Vec::new();
    let mut current = String::new();
    assert(views_of(found@) =~= Seq::<Seq<char>>::empty());
    for c in it: s.chars()
        invariant
            it.seq() == s@,
            views_of(found@) + words_from(s@, it.index() as int, current@) == words(s@),
    {
        let ghost before = views_of(found@);
        let ghost at = it.index() as int;
        let ghost word = current@;
        let ghost later = words_from(s@, at + 1, Seq::empty());
        assert(c == s@[at]);
        if c.is_whitespace() {
            if !current.as_str().is_empty() {
                assert(words_from(s@, at, word) == seq![word] + later);
                found.push(current);
                assert(views_of(found@) =~= before.push(word));
                current = String::new();
                assert(before + (seq![word] + later) =~= before.push(word) + later);
            } else {
                assert(word =~= Seq::<char>::empty());
                assert(words_from(s@, at, word) == Seq::<Seq<char>>::empty() + later);
                assert(Seq::<Seq<char>>::empty() + later =~= later);
            }
        } else {
            assert(words_from(s@, at, word) == words_from(s@, at + 1, word.push(c)));
            current.push(c);
        }
    }
    let ghost before = views_of(found@);
    if !current.as_str().is_empty() {
        found.push(current);
        assert(views_of(found@) =~= before.push(current@));
        assert(before + seq![current@] =~= before.push(current@));
    } else {
        assert(before + Seq::<Seq<char>>::empty() =~= before);
    }
    found
}

/// The list without its repetitions: each element where it first stands.
pub open spec fn first_occurrences(list: Seq<Seq<char>>) -> Seq<Seq<char>>
    decreases list.len(),
{
    if list.len() == 0 {
        Seq::empty()
    } else if list.drop_last().contains(list.last()) {
        first_occurrences(list.drop_last())
    } else {
        first_occurrences(list.drop_last()).push(list.last())
    }
}

/// The first occurrences hold what the list holds, each element once, and
/// begin as the list begins.
pub proof fn lemma_first_occurrences(list: Seq<Seq<char>>)
    ensures
        forall|x: Seq<char>| #[trigger] first_occurrences(list).contains(x) <==> list.contains(x),
        forall|i: int, j: int|
            0 <= i < j < first_occurrences(list).len() ==> first_occurrences(list)[i]
                != first_occurrences(list)[j],
        first_occurrences(list).len() <= list.len(),
        list.len() > 0 ==> first_occurrences(list).len() > 0 && first_occurrences(list)[0]
            == list[0],
    decreases list.len(),
{
    if list.len() > 0 {
        let earlier = list.drop_last();
        let last = list.last();
        let before = first_occurrences(earlier);
        let all = first_occurrences(list);
        lemma_first_occurrences(earlier);
        assert(list =~= earlier.push(last));
        assert forall|x: Seq<char>| #[trigger] all.contains(x) <==> list.contains(x) by {
            if all.contains(x) {
                let k = choose|k: int| 0 <= k < all.len() && all[k] == x;
                if k < before.len() {
                    assert(before[k] == x);
                    assert(before.contains(x));
                    assert(earlier.contains(x));
                    let e = choose|e: int| 0 <= e < earlier.len() && earlier[e] == x;
                    assert(list[e] == x);
                } else {
                    assert(list[list.len() - 1] == x);
                }
            }
            if list.contains(x) {
                let e = choose|e: int| 0 <= e < list.len() && list[e] == x;
                if e < earlier.len() {
                    assert(earlier[e] == x);
                    assert(earlier.contains(x));
                    assert(before.contains(x));
                    let k = choose|k: int| 0 <= k < before.len() && before[k] == x;
                    assert(all[k] == x);
                } else if earlier.contains(last) {
                    assert(before.contains(x));
                } else {
                    assert(all[all.len() - 1] == x);
                }
            }
        }
        assert forall|i: int, j: int| 0 <= i < j < all.len() implies all[i] != all[j] by {
            if j >= before.len() {
                assert(all[i] == before[i]);
                assert(before.contains(before[i]));
            }
        }
        if earlier.len() > 0 {
            assert(earlier[0] == list[0]);
            assert(all[0] == before[0]);
        }
    }
}

/// Drops the repetitions from a list of words.
pub fn distinct_words(found: &Vec<String>) -> (kept: Vec<String>)
    ensures
        views_of(kept@) == first_occurrences(views_of(found@)),
{
    let mut kept: Vec<String> = Vec::new();
    let n = found.len();
    let mut i: usize = 0;
    let ghost all = views_of(found@);
    assert(all.take(0) =~= Seq::<Seq<char>>::empty());
    assert(views_of(kept@) =~= Seq::<Seq<char>>::empty());
    while i < n
        invariant
            n == found@.len(),
            all == views_of(found@),
            i <= n,
            views_of(kept@) == first_occurrences(all.take(i as int)),
        decreases n - i,
    {
        let mut seen = false;
        let mut j: usize = 0;
        while j < i
            invariant
                n == found@.len(),
                all == views_of(found@),
                i < n,
                j <= i,
                seen <==> exists|k: int| 0 <= k < j && all[k] == all[i as int],
            decreases i - j,
        {
            if same_str(found[j].as_str(), found[i].as_str()) {
                assert(all[j as int] == all[i as int]);
                seen = true;
            }
            j += 1;
        }
        let ghost upto = all.take(i + 1);
        let ghost before = views_of(kept@);
        proof {
            assert(upto.drop_last() =~= all.take(i as int));
            assert(upto.last() == all[i as int]);
            if seen {
                let k = choose|k: int| 0 <= k < i && all[k] == all[i as int];
                assert(all.take(i as int)[k] == all[i as int]);
            }
        }
        if !seen {
            kept.push(found[i].clone());
            assert(views_of(kept@) =~= before.push(all[i as int]));
        }
        i += 1;
    }
    assert(all.take(n as int) =~= all);
    kept
}

} // verus!
