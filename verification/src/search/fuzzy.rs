//! Fuzzy matchers: edit distance and two phonetic codes.

use crate::text::{chars_of, same_str, string_of, uppercased};
use vstd::prelude::*;

verus! {

/// The least of three numbers.
pub open spec fn min3(a: nat, b: nat, c: nat) -> nat {
    if a <= b && a <= c {
        a
    } else if b <= c {
        b
    } else {
        c
    }
}

/// What it costs to put one character in place of another.
pub open spec fn substitution_cost(x: char, y: char) -> nat {
    if x == y {
        0
    } else {
        1
    }
}

/// Levenshtein distance: the least number of insertions, deletions and
/// substitutions of single characters that turn `a` into `b`.
pub open spec fn edit_distance(a: Seq<char>, b: Seq<char>) -> nat
    decreases a.len() + b.len(),
{
    if a.len() == 0 {
        b.len()
    } else if b.len() == 0 {
        a.len()
    } else {
        min3(
            edit_distance(a.drop_last(), b) + 1,
            edit_distance(a, b.drop_last()) + 1,
            edit_distance(a.drop_last(), b.drop_last()) + substitution_cost(a.last(), b.last()),
        )
    }
}

/// The longer of two lengths.
pub open spec fn longer(a: nat, b: nat) -> nat {
    if a >= b {
        a
    } else {
        b
    }
}

/// The distance is never more than the longer of the two strings.
pub proof fn lemma_edit_distance_bound(a: Seq<char>, b: Seq<char>)
    ensures
        edit_distance(a, b) <= longer(a.len(), b.len()),
    decreases a.len() + b.len(),
{
    if a.len() > 0 && b.len() > 0 {
        lemma_edit_distance_bound(a.drop_last(), b.drop_last());
    }
}

/// A string is at distance 0 from itself.
pub proof fn lemma_edit_distance_self(s: Seq<char>)
    ensures
        edit_distance(s, s) == 0,
    decreases s.len(),
{
    if s.len() > 0 {
        lemma_edit_distance_self(s.drop_last());
    }
}

/// The distance between the first `i + 1` characters of `a` and the first
/// `j + 1` of `b`, from the three distances before it.
proof fn lemma_edit_distance_step(a: Seq<char>, b: Seq<char>, i: int, j: int)
    requires
        0 <= i < a.len(),
        0 <= j < b.len(),
    ensures
        edit_distance(a.take(i + 1), b.take(j + 1)) == min3(
            edit_distance(a.take(i), b.take(j + 1)) + 1,
            edit_distance(a.take(i + 1), b.take(j)) + 1,
            edit_distance(a.take(i), b.take(j)) + substitution_cost(a[i], b[j]),
        ),
{
    assert(a.take(i + 1).drop_last() =~= a.take(i));
    assert(b.take(j + 1).drop_last() =~= b.take(j));
}

/// The least of three numbers.
fn least(a: u128, b: u128, c: u128) -> (m: u128)
    ensures
        m == min3(a as nat, b as nat, c as nat),
{
    if a <= b && a <= c {
        a
    } else if b <= c {
        b
    } else {
        c
    }
}

/// One row of the table of distances: from the distances between the first
/// `i` characters of `a` and each prefix of `b`, those for the first `i + 1`.
fn next_row(a: &Vec<char>, b: &Vec<char>, prev: &Vec<usize>, i: usize) -> (curr: Vec<usize>)
    requires
        i < a@.len(),
        prev@.len() == b@.len(),
        forall|j: int|
            0 <= j < b@.len() ==> prev@[j] == edit_distance(a@.take(i as int), b@.take(j + 1)),
    ensures
        curr@.len() == b@.len(),
        forall|j: int|
            0 <= j < b@.len() ==> curr@[j] == edit_distance(a@.take(i + 1), b@.take(j + 1)),
{
    let n = b.len();
    let m = a.len();
    let mut curr: Vec<usize> = Vec::new();
    let mut left: usize = i + 1;
    let mut diag: usize = i;
    let mut j: usize = 0;
    proof {
        assert(b@.take(0).len() == 0);
        assert(a@.take(i + 1).len() == i + 1);
        assert(a@.take(i as int).len() == i);
    }
    while j < n
        invariant
            n == b@.len(),
            m == a@.len(),
            i < m,
            j <= n,
            prev@.len() == n,
            forall|k: int|
                0 <= k < n ==> prev@[k] == edit_distance(a@.take(i as int), b@.take(k + 1)),
            curr@.len() == j,
            forall|k: int|
                0 <= k < j ==> curr@[k] == edit_distance(a@.take(i + 1), b@.take(k + 1)),
            left == edit_distance(a@.take(i + 1), b@.take(j as int)),
            diag == edit_distance(a@.take(i as int), b@.take(j as int)),
        decreases n - j,
    {
        let up = prev[j];
        let cost: u128 = if a[i] == b[j] {
            0
        } else {
            1
        };
        proof {
            lemma_edit_distance_step(a@, b@, i as int, j as int);
            lemma_edit_distance_bound(a@.take(i + 1), b@.take(j + 1));
            assert(a@.take(i + 1).len() == i + 1 && b@.take(j + 1).len() == j + 1);
        }
        let value = least(up as u128 + 1, left as u128 + 1, diag as u128 + cost) as usize;
        curr.push(value);
        diag = up;
        left = value;
        j += 1;
    }
    curr
}

/// Levenshtein distance between two strings, counted in characters.
pub fn levenshtein_distance(s1: &str, s2: &str) -> (distance: usize)
    ensures
        distance == edit_distance(s1@, s2@),
{
    let a = chars_of(s1);
    let b = chars_of(s2);
    let n1 = a.len();
    let n2 = b.len();
    if n1 == 0 {
        return n2;
    }
    if n2 == 0 {
        return n1;
    }
    let mut prev: Vec<usize> = Vec::new();
    let mut j: usize = 0;
    while j < n2
        invariant
            n2 == b@.len(),
            j <= n2,
            prev@.len() == j,
            forall|k: int| 0 <= k < j ==> prev@[k] == k + 1,
        decreases n2 - j,
    {
        prev.push(j + 1);
        j += 1;
    }
    assert forall|k: int| 0 <= k < n2 implies prev@[k] == edit_distance(
        a@.take(0),
        b@.take(k + 1),
    ) by {
        assert(a@.take(0).len() == 0);
    }
    let mut i: usize = 0;
    while i < n1
        invariant
            n1 == a@.len(),
            n2 == b@.len(),
            n2 > 0,
            i <= n1,
            prev@.len() == n2,
            forall|k: int|
                0 <= k < n2 ==> prev@[k] == edit_distance(a@.take(i as int), b@.take(k + 1)),
        decreases n1 - i,
    {
        prev = next_row(&a, &b, &prev, i);
        i += 1;
    }
    assert(a@.take(n1 as int) =~= a@);
    assert(b@.take(n2 as int) =~= b@);
    prev[n2 - 1]
}

/// The Soundex digit of an uppercase letter, for the consonants that have
/// one.
pub open spec fn soundex_digit(c: char) -> Option<char> {
    if c == 'B' || c == 'F' || c == 'P' || c == 'V' {
        Some('1')
    } else if c == 'C' || c == 'G' || c == 'J' || c == 'K' || c == 'Q' || c == 'S' || c == 'X'
        || c == 'Z' {
        Some('2')
    } else if c == 'D' || c == 'T' {
        Some('3')
    } else if c == 'L' {
        Some('4')
    } else if c == 'M' || c == 'N' {
        Some('5')
    } else if c == 'R' {
        Some('6')
    } else {
        None
    }
}

/// Whether a letter is passed over without parting two consonants of one
/// digit: H and W.
pub open spec fn is_soundex_transparent(c: char) -> bool {
    c == 'H' || c == 'W'
}

/// The digits that the characters from position `at` on add to a code with
/// room for `room` more, where `prev` is the digit of the character before.
/// A consonant adds its digit unless the character before had the same; H
/// and W are passed over; any other character adds nothing and parts what
/// stands on its two sides.
pub open spec fn soundex_digits(s: Seq<char>, at: int, prev: Option<char>, room: nat) -> Seq<char>
    decreases s.len() - at,
{
    if room == 0 || at < 0 || at >= s.len() {
        Seq::empty()
    } else if is_soundex_transparent(s[at]) {
        soundex_digits(s, at + 1, prev, room)
    } else if soundex_digit(s[at]) is Some && soundex_digit(s[at]) != prev {
        seq![soundex_digit(s[at])->0] + soundex_digits(
            s,
            at + 1,
            soundex_digit(s[at]),
            (room - 1) as nat,
        )
    } else {
        soundex_digits(s, at + 1, soundex_digit(s[at]), room)
    }
}

/// `count` times the character `'0'`.
pub open spec fn zeros(count: nat) -> Seq<char> {
    Seq::new(count, |i: int| '0')
}

/// The Soundex code of an uppercased word: its first character, then up to
/// three digits, filled up with zeros to four characters. The empty word has
/// the code `0000`.
pub open spec fn soundex_code(upper: Seq<char>) -> Seq<char> {
    if upper.len() == 0 {
        zeros(4)
    } else {
        let digits = soundex_digits(upper, 1, soundex_digit(upper[0]), 3);
        seq![upper[0]] + digits + zeros((3 - digits.len()) as nat)
    }
}

/// At most `room` digits come.
pub proof fn lemma_soundex_digits_len(s: Seq<char>, at: int, prev: Option<char>, room: nat)
    ensures
        soundex_digits(s, at, prev, room).len() <= room,
    decreases s.len() - at,
{
    if room == 0 || at < 0 || at >= s.len() {
    } else if is_soundex_transparent(s[at]) {
        lemma_soundex_digits_len(s, at + 1, prev, room);
    } else if soundex_digit(s[at]) is Some && soundex_digit(s[at]) != prev {
        lemma_soundex_digits_len(s, at + 1, soundex_digit(s[at]), (room - 1) as nat);
    } else {
        lemma_soundex_digits_len(s, at + 1, soundex_digit(s[at]), room);
    }
}

/// A Soundex code has four characters.
pub proof fn lemma_soundex_code_len(upper: Seq<char>)
    ensures
        soundex_code(upper).len() == 4,
{
    if upper.len() > 0 {
        lemma_soundex_digits_len(upper, 1, soundex_digit(upper[0]), 3);
    }
}

/// The Soundex digit of an uppercase letter.
fn digit_of(c: char) -> (digit: Option<char>)
    ensures
        digit == soundex_digit(c),
{
    if c == 'B' || c == 'F' || c == 'P' || c == 'V' {
        Some('1')
    } else if c == 'C' || c == 'G' || c == 'J' || c == 'K' || c == 'Q' || c == 'S' || c == 'X'
        || c == 'Z' {
        Some('2')
    } else if c == 'D' || c == 'T' {
        Some('3')
    } else if c == 'L' {
        Some('4')
    } else if c == 'M' || c == 'N' {
        Some('5')
    } else if c == 'R' {
        Some('6')
    } else {
        None
    }
}

/// The Soundex code of a word that is in uppercase already.
pub fn soundex_of_upper(upper: &[char]) -> (code: String)
    ensures
        code@ == soundex_code(upper@),
        code@.len() == 4,
{
    proof {
        lemma_soundex_code_len(upper@);
    }
    let mut code: Vec<char> = Vec::new();
    let n = upper.len();
    if n == 0 {
        code.push('0');
        code.push('0');
        code.push('0');
        code.push('0');
        assert(code@ =~= zeros(4));
        return string_of(code.as_slice());
    }
    code.push(upper[0]);
    let mut prev = digit_of(upper[0]);
    let mut at: usize = 1;
    let ghost all = soundex_digits(upper@, 1, soundex_digit(upper@[0]), 3);
    proof {
        lemma_soundex_digits_len(upper@, 1, soundex_digit(upper@[0]), 3);
        assert(code@.skip(1) =~= Seq::<char>::empty());
        assert(Seq::<char>::empty() + all =~= all);
    }
    while at < n && code.len() < 4
        invariant
            n == upper@.len(),
            1 <= at <= n,
            1 <= code@.len() <= 4,
            code@[0] == upper@[0],
            all.len() <= 3,
            code@.skip(1) + soundex_digits(upper@, at as int, prev, (4 - code@.len()) as nat)
                == all,
        decreases n - at,
    {
        let c = upper[at];
        let ghost before = code@;
        let ghost room = (4 - code@.len()) as nat;
        if c == 'H' || c == 'W' {
        } else {
            let digit = digit_of(c);
            match digit {
                Some(d) => {
                    if digit != prev {
                        code.push(d);
                        proof {
                            let later = soundex_digits(
                                upper@,
                                at + 1,
                                digit,
                                (room - 1) as nat,
                            );
                            assert(code@.skip(1) =~= before.skip(1).push(d));
                            assert(before.skip(1) + (seq![d] + later) =~= before.skip(1).push(d)
                                + later);
                        }
                    }
                },
                None => {},
            }
            prev = digit;
        }
        at += 1;
    }
    let ghost digits = code@.skip(1);
    proof {
        assert(soundex_digits(upper@, at as int, prev, (4 - code@.len()) as nat)
            =~= Seq::<char>::empty());
        assert(digits + Seq::<char>::empty() =~= digits);
        assert(digits == all);
    }
    while code.len() < 4
        invariant
            1 <= code@.len() <= 4,
            digits.len() <= 3,
            code@ == seq![upper@[0]] + digits + zeros((code@.len() - 1 - digits.len()) as nat),
            code@.len() >= 1 + digits.len(),
        decreases 4 - code@.len(),
    {
        let ghost before = code@;
        code.push('0');
        assert(code@ =~= seq![upper@[0]] + digits + zeros(
            (code@.len() - 1 - digits.len()) as nat,
        ));
    }
    string_of(code.as_slice())
}

/// Soundex code of a word: a four-character code that words of like sound
/// share. The word is put in uppercase first.
pub fn soundex(word: &str) -> (code: String)
    ensures
        code@ == soundex_code(uppercased(word@)),
        code@.len() == 4,
{
    let upper = word.to_uppercase();
    let chars = chars_of(upper.as_str());
    soundex_of_upper(chars.as_slice())
}

/// Whether two words have the same Soundex code.
pub fn sounds_like(word1: &str, word2: &str) -> (alike: bool)
    ensures
        alike == (soundex_code(uppercased(word1@)) == soundex_code(uppercased(word2@))),
{
    let a = soundex(word1);
    let b = soundex(word2);
    same_str(a.as_str(), b.as_str())
}

/// Whether a character is one of the five vowels.
pub open spec fn is_vowel(c: char) -> bool {
    c == 'A' || c == 'E' || c == 'I' || c == 'O' || c == 'U'
}

/// Whether a character softens the C, the G or the T before it: I, E or Y.
pub open spec fn is_soft_follower(c: char) -> bool {
    c == 'I' || c == 'E' || c == 'Y'
}

/// The character at a position, if the position is in the word.
pub open spec fn char_at(s: Seq<char>, at: int) -> Option<char> {
    if 0 <= at < s.len() {
        Some(s[at])
    } else {
        None
    }
}

/// Whether there is a vowel at a position.
pub open spec fn vowel_at(s: Seq<char>, at: int) -> bool {
    0 <= at < s.len() && is_vowel(s[at])
}

/// Length of the run of vowels that starts at `at`, where a vowel stands.
pub open spec fn vowel_run(s: Seq<char>, at: int) -> nat
    decreases s.len() - at,
{
    if vowel_at(s, at + 1) {
        1 + vowel_run(s, at + 1)
    } else {
        1
    }
}

/// What the character at `at` of an uppercased word adds to its Metaphone
/// code, and how many characters it takes with it.
///
/// A letter that repeats the one before it adds nothing, but for C. A vowel
/// counts only at the start of the word and takes the vowels behind it along.
/// C is S before I, E, Y, silent in SCH, else K; DGE, DGI, DGY give J; G is
/// silent before H, gives N in GN and GNE, else K; H counts only between two
/// consonants or at the start before a consonant; K is silent after C; PH
/// gives F; SCI, SCE, SCY give S and SH gives X; TCI, TCE, TCY, TH and TCH
/// give X; V gives F; W and Y count only before a vowel; Q and X give K, Z
/// gives S; B, F, J, L, M, N, R stand for themselves; D, P, S, T do so where
/// no rule above applies. Anything else adds nothing.
pub open spec fn metaphone_step(s: Seq<char>, at: int) -> (Option<char>, nat)
    recommends
        0 <= at < s.len(),
{
    let c = s[at];
    let prev = char_at(s, at - 1);
    let next = char_at(s, at + 1);
    let next2 = char_at(s, at + 2);
    if prev == Some(c) && c != 'C' {
        (None, 1)
    } else if is_vowel(c) {
        (
            if at == 0 {
                Some(c)
            } else {
                None
            },
            vowel_run(s, at),
        )
    } else if c == 'B' || c == 'F' || c == 'J' || c == 'L' || c == 'M' || c == 'N' || c == 'R' {
        (Some(c), 1)
    } else if c == 'C' {
        if next is Some && is_soft_follower(next->0) {
            (Some('S'), 1)
        } else if next == Some('H') && prev == Some('S') {
            (None, 1)
        } else {
            (Some('K'), 1)
        }
    } else if c == 'D' {
        if next == Some('G') && next2 is Some && is_soft_follower(next2->0) {
            (Some('J'), 3)
        } else {
            (Some('D'), 1)
        }
    } else if c == 'G' {
        if next == Some('H') {
            (None, 1)
        } else if next == Some('N') {
            if next2 == Some('E') {
                (Some('N'), 3)
            } else {
                (Some('N'), 1)
            }
        } else {
            (Some('K'), 1)
        }
    } else if c == 'H' {
        if (prev is None || !is_vowel(prev->0)) && next is Some && !is_vowel(next->0) {
            (Some('H'), 1)
        } else {
            (None, 1)
        }
    } else if c == 'K' {
        if prev == Some('C') {
            (None, 1)
        } else {
            (Some('K'), 1)
        }
    } else if c == 'P' {
        if next == Some('H') {
            (Some('F'), 2)
        } else {
            (Some('P'), 1)
        }
    } else if c == 'Q' || c == 'X' {
        (Some('K'), 1)
    } else if c == 'S' {
        if next == Some('C') && next2 is Some && is_soft_follower(next2->0) {
            (Some('S'), 3)
        } else if next == Some('H') {
            (Some('X'), 2)
        } else {
            (Some('S'), 1)
        }
    } else if c == 'T' {
        if next == Some('C') && next2 is Some && is_soft_follower(next2->0) {
            (Some('X'), 3)
        } else if next == Some('H') {
            (Some('X'), 2)
        } else if next == Some('C') && next2 == Some('H') {
            (Some('X'), 3)
        } else {
            (Some('T'), 1)
        }
    } else if c == 'V' {
        (Some('F'), 1)
    } else if c == 'W' || c == 'Y' {
        if next is Some && is_vowel(next->0) {
            (Some(c), 1)
        } else {
            (None, 1)
        }
    } else if c == 'Z' {
        (Some('S'), 1)
    } else {
        (None, 1)
    }
}

/// The code that the characters from `at` on add where there is room for
/// `room` more.
pub open spec fn metaphone_from(s: Seq<char>, at: int, room: nat) -> Seq<char>
    decreases s.len() - at,
{
    let next = at + metaphone_step(s, at).1;
    if room == 0 || at < 0 || at >= s.len() || next <= at || next > s.len() {
        Seq::empty()
    } else {
        match metaphone_step(s, at).0 {
            Some(c) => seq![c] + metaphone_from(s, next, (room - 1) as nat),
            None => metaphone_from(s, next, room),
        }
    }
}

/// The Metaphone code of an uppercased word: up to four characters.
pub open spec fn metaphone_code(upper: Seq<char>) -> Seq<char> {
    metaphone_from(upper, 0, 4)
}

/// No more characters come than there is room for.
pub proof fn lemma_metaphone_len(s: Seq<char>, at: int, room: nat)
    ensures
        metaphone_from(s, at, room).len() <= room,
    decreases s.len() - at,
{
    let next = at + metaphone_step(s, at).1;
    if !(room == 0 || at < 0 || at >= s.len() || next <= at || next > s.len()) {
        match metaphone_step(s, at).0 {
            Some(c) => lemma_metaphone_len(s, next, (room - 1) as nat),
            None => lemma_metaphone_len(s, next, room),
        }
    }
}

/// A run of vowels ends in the word.
pub proof fn lemma_vowel_run(s: Seq<char>, at: int)
    requires
        0 <= at < s.len(),
    ensures
        1 <= vowel_run(s, at),
        at + vowel_run(s, at) <= s.len(),
    decreases s.len() - at,
{
    if vowel_at(s, at + 1) {
        lemma_vowel_run(s, at + 1);
    }
}

/// A step takes at least one character and stays in the word.
pub proof fn lemma_metaphone_step(s: Seq<char>, at: int)
    requires
        0 <= at < s.len(),
    ensures
        1 <= metaphone_step(s, at).1,
        at + metaphone_step(s, at).1 <= s.len(),
{
    lemma_vowel_run(s, at);
}

/// Whether a character is one of the five vowels.
fn vowel(c: char) -> (yes: bool)
    ensures
        yes == is_vowel(c),
{
    c == 'A' || c == 'E' || c == 'I' || c == 'O' || c == 'U'
}

/// Whether a character is I, E or Y.
fn soft_follower(c: char) -> (yes: bool)
    ensures
        yes == is_soft_follower(c),
{
    c == 'I' || c == 'E' || c == 'Y'
}

/// The character at a position, if the position is in the word.
fn look(s: &[char], at: usize) -> (c: Option<char>)
    ensures
        c == char_at(s@, at as int),
{
    if at < s.len() {
        Some(s[at])
    } else {
        None
    }
}

/// Whether the option holds this character.
fn is_char(found: Option<char>, c: char) -> (yes: bool)
    ensures
        yes == (found == Some(c)),
{
    match found {
        Some(x) => x == c,
        None => false,
    }
}

/// Length of the run of vowels that starts at `at`.
fn run_of_vowels(s: &[char], at: usize) -> (len: usize)
    requires
        at < s@.len(),
    ensures
        len == vowel_run(s@, at as int),
{
    let n = s.len();
    let mut end: usize = at;
    proof {
        lemma_vowel_run(s@, at as int);
    }
    while end + 1 < n && vowel(s[end + 1])
        invariant
            n == s@.len(),
            at <= end < n,
            vowel_run(s@, at as int) == (end - at) + vowel_run(s@, end as int),
        decreases n - end,
    {
        end += 1;
    }
    end - at + 1
}

/// Computes [`metaphone_step`].
fn step_at(s: &[char], at: usize) -> (step: (Option<char>, usize))
    requires
        at < s@.len(),
    ensures
        step.0 == metaphone_step(s@, at as int).0,
        step.1 == metaphone_step(s@, at as int).1,
{
    let n = s.len();
    let c = s[at];
    let prev: Option<char> = if at > 0 {
        Some(s[at - 1])
    } else {
        None
    };
    let next = look(s, at + 1);
    let next2 = if at + 1 < n {
        look(s, at + 2)
    } else {
        None
    };
    let soft_next = match next {
        Some(x) => soft_follower(x),
        None => false,
    };
    let soft_next2 = match next2 {
        Some(x) => soft_follower(x),
        None => false,
    };
    let vowel_next = match next {
        Some(x) => vowel(x),
        None => false,
    };
    let vowel_prev = match prev {
        Some(x) => vowel(x),
        None => false,
    };
    if is_char(prev, c) && c != 'C' {
        (None, 1)
    } else if vowel(c) {
        let first = if at == 0 {
            Some(c)
        } else {
            None
        };
        (first, run_of_vowels(s, at))
    } else if c == 'B' || c == 'F' || c == 'J' || c == 'L' || c == 'M' || c == 'N' || c == 'R' {
        (Some(c), 1)
    } else if c == 'C' {
        if soft_next {
            (Some('S'), 1)
        } else if is_char(next, 'H') && is_char(prev, 'S') {
            (None, 1)
        } else {
            (Some('K'), 1)
        }
    } else if c == 'D' {
        if is_char(next, 'G') && soft_next2 {
            (Some('J'), 3)
        } else {
            (Some('D'), 1)
        }
    } else if c == 'G' {
        if is_char(next, 'H') {
            (None, 1)
        } else if is_char(next, 'N') {
            if is_char(next2, 'E') {
                (Some('N'), 3)
            } else {
                (Some('N'), 1)
            }
        } else {
            (Some('K'), 1)
        }
    } else if c == 'H' {
        if !vowel_prev && next.is_some() && !vowel_next {
            (Some('H'), 1)
        } else {
            (None, 1)
        }
    } else if c == 'K' {
        if is_char(prev, 'C') {
            (None, 1)
        } else {
            (Some('K'), 1)
        }
    } else if c == 'P' {
        if is_char(next, 'H') {
            (Some('F'), 2)
        } else {
            (Some('P'), 1)
        }
    } else if c == 'Q' || c == 'X' {
        (Some('K'), 1)
    } else if c == 'S' {
        if is_char(next, 'C') && soft_next2 {
            (Some('S'), 3)
        } else if is_char(next, 'H') {
            (Some('X'), 2)
        } else {
            (Some('S'), 1)
        }
    } else if c == 'T' {
        if is_char(next, 'C') && soft_next2 {
            (Some('X'), 3)
        } else if is_char(next, 'H') {
            (Some('X'), 2)
        } else if is_char(next, 'C') && is_char(next2, 'H') {
            (Some('X'), 3)
        } else {
            (Some('T'), 1)
        }
    } else if c == 'V' {
        (Some('F'), 1)
    } else if c == 'W' || c == 'Y' {
        if vowel_next {
            (Some(c), 1)
        } else {
            (None, 1)
        }
    } else if c == 'Z' {
        (Some('S'), 1)
    } else {
        (None, 1)
    }
}

/// The Metaphone code of a word that is in uppercase already.
pub fn metaphone_of_upper(upper: &[char]) -> (code: String)
    ensures
        code@ == metaphone_code(upper@),
        code@.len() <= 4,
{
    proof {
        lemma_metaphone_len(upper@, 0, 4);
    }
    let mut code: Vec<char> = Vec::new();
    let n = upper.len();
    let mut at: usize = 0;
    proof {
        assert(code@ + metaphone_from(upper@, 0, 4) =~= metaphone_code(upper@));
    }
    while at < n && code.len() < 4
        invariant
            n == upper@.len(),
            at <= n,
            code@.len() <= 4,
            code@ + metaphone_from(upper@, at as int, (4 - code@.len()) as nat) == metaphone_code(
                upper@,
            ),
        decreases n - at,
    {
        let ghost before = code@;
        let ghost room = (4 - code@.len()) as nat;
        proof {
            lemma_metaphone_step(upper@, at as int);
        }
        let (emitted, advance) = step_at(upper, at);
        match emitted {
            Some(c) => {
                code.push(c);
                proof {
                    let later = metaphone_from(upper@, at + advance, (room - 1) as nat);
                    assert(before + (seq![c] + later) =~= before.push(c) + later);
                }
            },
            None => {},
        }
        at = at + advance;
    }
    proof {
        assert(metaphone_from(upper@, at as int, (4 - code@.len()) as nat) =~= Seq::<
            char,
        >::empty());
        assert(code@ + Seq::<char>::empty() =~= code@);
    }
    string_of(code.as_slice())
}

/// Metaphone code of a word, in a reduced variant: up to four characters
/// that words of like sound share. The word is put in uppercase first.
pub fn metaphone(word: &str) -> (code: String)
    ensures
        code@ == metaphone_code(uppercased(word@)),
        code@.len() <= 4,
{
    let upper = word.to_uppercase();
    let chars = chars_of(upper.as_str());
    metaphone_of_upper(chars.as_slice())
}

} // verus!
