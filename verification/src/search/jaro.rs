//! The counts behind the Jaro-Winkler similarity of two strings: how many
//! characters match, how many of the matches are out of order, and how long
//! the common prefix is. The similarity itself is a quotient of these.

use crate::text::{chars_of, same_chars};
use vstd::prelude::*;

verus! {

/// Longest common prefix that counts towards the similarity.
pub const MAX_PREFIX: usize = 4;

/// What goes into the Jaro-Winkler similarity of two strings.
#[derive(Clone, Copy, Debug, PartialEq, Eq, Structural)]
pub struct JaroCounts {
    /// Whether the two strings are the same; their similarity is then 1.
    pub identical: bool,
    /// Length of the first string, in characters.
    pub len1: usize,
    /// Length of the second string, in characters.
    pub len2: usize,
    /// Number of characters of the first string that have a match in the
    /// second.
    pub matches: usize,
    /// Number of places at which the matched characters of the two strings,
    /// each taken in its order, differ.
    pub transpositions: usize,
    /// Length of the common prefix, 4 at most.
    pub prefix: usize,
}

/// How far from its own place a character may find its match: half the
/// length of the longer string, less one, and not less than 0.
pub open spec fn match_window(len1: nat, len2: nat) -> nat {
    let longer = if len1 >= len2 {
        len1
    } else {
        len2
    };
    if longer / 2 >= 1 {
        (longer / 2 - 1) as nat
    } else {
        0
    }
}

/// Where the search for a match of the character at `at` starts.
pub open spec fn window_start(at: int, window: nat) -> int {
    if at > window {
        at - window
    } else {
        0
    }
}

/// Where the search for a match of the character at `at` ends.
pub open spec fn window_end(at: int, window: nat, len2: nat) -> int {
    if at + window + 1 < len2 {
        at + window + 1
    } else {
        len2 as int
    }
}

/// The first place from `from` up to `to` at which `c` stands in `s2` and is
/// not taken; `to` where there is none.
pub open spec fn first_free(s2: Seq<char>, taken: Seq<bool>, c: char, from: int, to: int) -> int
    decreases to - from,
{
    if from >= to {
        to
    } else if !taken[from] && s2[from] == c {
        from
    } else {
        first_free(s2, taken, c, from + 1, to)
    }
}

/// The place in `s2` that the character at `at` of `s1` takes, given what is
/// taken; the end of its window where it finds none.
pub open spec fn match_place(s1: Seq<char>, s2: Seq<char>, taken: Seq<bool>, at: int) -> int {
    let window = match_window(s1.len(), s2.len());
    first_free(
        s2,
        taken,
        s1[at],
        window_start(at, window),
        window_end(at, window, s2.len()),
    )
}

/// Whether the character at `at` of `s1` finds a match, given what is taken.
pub open spec fn finds_match(s1: Seq<char>, s2: Seq<char>, taken: Seq<bool>, at: int) -> bool {
    match_place(s1, s2, taken, at) < window_end(at, match_window(s1.len(), s2.len()), s2.len())
}

/// Which places of `s2` are taken once the first `upto` characters of `s1`
/// have looked for their match, each in turn taking the first free place in
/// its window that holds the same character.
pub open spec fn taken_after(s1: Seq<char>, s2: Seq<char>, upto: nat) -> Seq<bool>
    decreases upto,
{
    if upto == 0 {
        Seq::new(s2.len(), |j: int| false)
    } else {
        let before = taken_after(s1, s2, (upto - 1) as nat);
        if finds_match(s1, s2, before, upto - 1) {
            before.update(match_place(s1, s2, before, upto - 1), true)
        } else {
            before
        }
    }
}

/// The characters among the first `upto` of `s1` that find a match, in order.
pub open spec fn matched_chars(s1: Seq<char>, s2: Seq<char>, upto: nat) -> Seq<char>
    decreases upto,
{
    if upto == 0 {
        Seq::empty()
    } else {
        let before = matched_chars(s1, s2, (upto - 1) as nat);
        if finds_match(s1, s2, taken_after(s1, s2, (upto - 1) as nat), upto - 1) {
            before.push(s1[upto - 1])
        } else {
            before
        }
    }
}

/// The characters at the taken places among the first `upto` of `s2`, in
/// order.
pub open spec fn taken_chars(s2: Seq<char>, taken: Seq<bool>, upto: nat) -> Seq<char>
    decreases upto,
{
    if upto == 0 {
        Seq::empty()
    } else if taken[upto - 1] {
        taken_chars(s2, taken, (upto - 1) as nat).push(s2[upto - 1])
    } else {
        taken_chars(s2, taken, (upto - 1) as nat)
    }
}

/// At how many of the first `upto` places two runs of characters differ.
pub open spec fn differing_places(a: Seq<char>, b: Seq<char>, upto: nat) -> nat
    decreases upto,
{
    if upto == 0 {
        0
    } else {
        differing_places(a, b, (upto - 1) as nat) + if a[upto - 1] != b[upto - 1] {
            1nat
        } else {
            0nat
        }
    }
}

/// Length of the common prefix of two strings among their first `upto`
/// characters.
pub open spec fn common_prefix(s1: Seq<char>, s2: Seq<char>, upto: nat) -> nat
    decreases upto,
{
    if upto == 0 {
        0
    } else {
        let before = common_prefix(s1, s2, (upto - 1) as nat);
        if before == upto - 1 && upto <= s1.len() && upto <= s2.len() && s1[upto - 1] == s2[upto
            - 1] {
            upto
        } else {
            before
        }
    }
}

/// The shorter of two lengths.
pub open spec fn shorter(a: nat, b: nat) -> nat {
    if a <= b {
        a
    } else {
        b
    }
}

/// The counts of two strings.
pub open spec fn jaro_counts_of(s1: Seq<char>, s2: Seq<char>) -> JaroCounts {
    let matched1 = matched_chars(s1, s2, s1.len());
    let matched2 = taken_chars(s2, taken_after(s1, s2, s1.len()), s2.len());
    JaroCounts {
        identical: s1 == s2,
        len1: s1.len() as usize,
        len2: s2.len() as usize,
        matches: matched1.len() as usize,
        transpositions: differing_places(
            matched1,
            matched2,
            shorter(matched1.len(), matched2.len()),
        ) as usize,
        prefix: common_prefix(s1, s2, MAX_PREFIX as nat) as usize,
    }
}

/// There are as many flags as `s2` has characters.
pub proof fn lemma_taken_len(s1: Seq<char>, s2: Seq<char>, upto: nat)
    ensures
        taken_after(s1, s2, upto).len() == s2.len(),
        matched_chars(s1, s2, upto).len() <= upto,
    decreases upto,
{
    if upto > 0 {
        lemma_taken_len(s1, s2, (upto - 1) as nat);
        let window = match_window(s1.len(), s2.len());
        let before = taken_after(s1, s2, (upto - 1) as nat);
        if window_start(upto - 1, window) <= window_end(upto - 1, window, s2.len()) {
            lemma_first_free(
                s2,
                before,
                s1[upto - 1],
                window_start(upto - 1, window),
                window_end(upto - 1, window, s2.len()),
            );
        }
    }
}

/// The first free place lies between the bounds of the search.
pub proof fn lemma_first_free(s2: Seq<char>, taken: Seq<bool>, c: char, from: int, to: int)
    requires
        from <= to,
    ensures
        from <= first_free(s2, taken, c, from, to) <= to,
    decreases to - from,
{
    if from < to && !(!taken[from] && s2[from] == c) {
        lemma_first_free(s2, taken, c, from + 1, to);
    }
}

/// The window of two lengths.
fn window_of(len1: usize, len2: usize) -> (window: usize)
    ensures
        window == match_window(len1 as nat, len2 as nat),
{
    let longer = if len1 >= len2 {
        len1
    } else {
        len2
    };
    if longer / 2 >= 1 {
        longer / 2 - 1
    } else {
        0
    }
}

/// Looks for the match of the character at `at` of `s1`.
fn find_place(s1: &Vec<char>, s2: &Vec<char>, taken: &Vec<bool>, at: usize) -> (place: Option<usize>)
    requires
        at < s1@.len(),
        taken@.len() == s2@.len(),
    ensures
        place is Some <==> finds_match(s1@, s2@, taken@, at as int),
        place is Some ==> place->0 == match_place(s1@, s2@, taken@, at as int) && place->0
            < s2@.len(),
{
    let len1 = s1.len();
    let len2 = s2.len();
    let window = window_of(len1, len2);
    let start = if at > window {
        at - window
    } else {
        0
    };
    let end = if window < len2 && at < len2 - window - 1 {
        at + window + 1
    } else {
        len2
    };
    assert(end == window_end(at as int, window as nat, len2 as nat));
    let c = s1[at];
    let mut j = start;
    if start > end {
        return None;
    }
    while j < end
        invariant
            len2 == s2@.len(),
            taken@.len() == len2,
            start <= j <= end,
            end <= len2,
            at < s1@.len(),
            c == s1@[at as int],
            window == match_window(s1@.len(), s2@.len()),
            start == window_start(at as int, window as nat),
            end == window_end(at as int, window as nat, len2 as nat),
            first_free(s2@, taken@, c, start as int, end as int) == first_free(
                s2@,
                taken@,
                c,
                j as int,
                end as int,
            ),
        decreases end - j,
    {
        if !taken[j] && s2[j] == c {
            return Some(j);
        }
        j += 1;
    }
    None
}

/// Counts what goes into the Jaro-Winkler similarity of two strings. Each
/// character of the first string, in turn, takes the first free character of
/// the second that is the same and lies within the window around its own
/// place.
pub fn jaro_counts(s1: &str, s2: &str) -> (counts: JaroCounts)
    ensures
        counts == jaro_counts_of(s1@, s2@),
        counts.matches <= counts.len1,
        counts.transpositions <= counts.matches,
        counts.prefix <= MAX_PREFIX,
{
    let a = chars_of(s1);
    let b = chars_of(s2);
    let len1 = a.len();
    let len2 = b.len();
    let identical = same_chars(a.as_slice(), b.as_slice());
    let mut taken: Vec<bool> = Vec::new();
    let mut j: usize = 0;
    while j < len2
        invariant
            j <= len2,
            taken@ == Seq::new(j as nat, |k: int| false),
        decreases len2 - j,
    {
        taken.push(false);
        j += 1;
        assert(taken@ =~= Seq::new(j as nat, |k: int| false));
    }
    let mut matched1: Vec<char> = Vec::new();
    let mut i: usize = 0;
    while i < len1
        invariant
            len1 == a@.len(),
            len2 == b@.len(),
            i <= len1,
            taken@ == taken_after(a@, b@, i as nat),
            taken@.len() == len2,
            matched1@ == matched_chars(a@, b@, i as nat),
        decreases len1 - i,
    {
        match find_place(&a, &b, &taken, i) {
            Some(place) => {
                taken.set(place, true);
                matched1.push(a[i]);
            },
            None => {},
        }
        i += 1;
    }
    let mut matched2: Vec<char> = Vec::new();
    let mut k: usize = 0;
    while k < len2
        invariant
            len2 == b@.len(),
            taken@.len() == len2,
            k <= len2,
            matched2@ == taken_chars(b@, taken@, k as nat),
        decreases len2 - k,
    {
        if taken[k] {
            matched2.push(b[k]);
        }
        k += 1;
    }
    let pairs = if matched1.len() <= matched2.len() {
        matched1.len()
    } else {
        matched2.len()
    };
    let mut transpositions: usize = 0;
    let mut p: usize = 0;
    while p < pairs
        invariant
            pairs <= matched1@.len(),
            pairs <= matched2@.len(),
            p <= pairs,
            transpositions == differing_places(matched1@, matched2@, p as nat),
            transpositions <= p,
        decreases pairs - p,
    {
        if matched1[p] != matched2[p] {
            transpositions += 1;
        }
        p += 1;
    }
    let mut prefix: usize = 0;
    let mut q: usize = 0;
    while q < MAX_PREFIX
        invariant
            len1 == a@.len(),
            len2 == b@.len(),
            q <= MAX_PREFIX,
            prefix == common_prefix(a@, b@, q as nat),
            prefix <= q,
        decreases MAX_PREFIX - q,
    {
        if prefix == q && q < len1 && q < len2 && a[q] == b[q] {
            prefix = q + 1;
        }
        q += 1;
    }
    proof {
        lemma_taken_len(a@, b@, len1 as nat);
    }
    JaroCounts { identical, len1, len2, matches: matched1.len(), transpositions, prefix }
}

/// Two strings that are the same are counted as identical, whatever else the
/// counts say.
pub proof fn lemma_same_is_identical(s: Seq<char>)
    ensures
        jaro_counts_of(s, s).identical,
{
}

} // verus!
