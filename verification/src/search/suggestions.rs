//! Suggestions for completing what is typed: for every prefix of the texts
//! that were added, the texts that rank highest.

use crate::order::{positions, ranking, ranking_of};
use crate::search::history::first_of;
use crate::str_map::StrMap;
use crate::text::{chars_of, is_prefix, lowercased, same_str, starts_with, string_of};
use std::collections::VecDeque;
use vstd::prelude::*;
use vstd::string::StringSliceAdditionalSpecFns;

verus! {

/// Number of suggestions kept per prefix where none is asked for.
pub const DEFAULT_MAX_SUGGESTIONS: usize = 10;

/// Longest prefix that is indexed where none is asked for.
pub const DEFAULT_MAX_PREFIX_LENGTH: usize = 20;

/// Number of texts remembered as used lately.
pub const MAX_RECENT: usize = 100;

/// One suggestion. `score_key` is the number by which suggestions are
/// ranked: whoever computes the score hands in a key that rises with it.
#[derive(Debug, Clone)]
pub struct Suggestion {
    pub text: String,
    pub score_key: u64,
    pub frequency: usize,
}

/// What a suggestion says, as plain values.
pub struct SuggestionView {
    pub text: Seq<char>,
    pub score_key: u64,
    pub frequency: usize,
}

impl View for Suggestion {
    type V = SuggestionView;

    open spec fn view(&self) -> SuggestionView {
        SuggestionView { text: self.text@, score_key: self.score_key, frequency: self.frequency }
    }
}

impl Suggestion {
    /// A copy of the suggestion.
    pub fn copy(&self) -> (suggestion: Suggestion)
        ensures
            suggestion@ == self@,
    {
        Suggestion {
            text: self.text.clone(),
            score_key: self.score_key,
            frequency: self.frequency,
        }
    }
}

/// What the score of a text rests on: how often it was added, the added
/// frequency counted in; whether it starts with the prefix it is listed
/// under, which it always does; the length of its lowercase in bytes; and
/// whether it was used lately. The score is
/// `(ln(frequency + 1) + 2 - ln(length) / 10)`, half as much again for a text
/// used lately.
#[derive(Clone, Copy, Debug, PartialEq, Eq, Structural)]
pub struct ScoreInputs {
    pub frequency: usize,
    pub exact_prefix: bool,
    pub length: usize,
    pub recent: bool,
}

/// The views of the suggestions, in order.
pub open spec fn suggestion_views(list: Seq<Suggestion>) -> Seq<SuggestionView> {
    Seq::new(list.len(), |i: int| list[i]@)
}

/// The keys of the suggestions, in order.
pub open spec fn keys_of(list: Seq<SuggestionView>) -> Seq<u64> {
    Seq::new(list.len(), |i: int| list[i].score_key)
}

/// A sum of frequencies, held at the largest number there is.
pub open spec fn frequency_sum(a: usize, b: usize) -> usize {
    if a + b > usize::MAX {
        usize::MAX
    } else {
        (a + b) as usize
    }
}

/// Where the suggestion of `text` stands among the first `upto` of the list;
/// `upto` where it is not among them.
pub open spec fn place_of_text(list: Seq<SuggestionView>, text: Seq<char>, upto: nat) -> nat
    decreases upto,
{
    if upto == 0 {
        0
    } else {
        let before = place_of_text(list, text, (upto - 1) as nat);
        if before < upto - 1 {
            before
        } else if list[upto - 1].text == text {
            (upto - 1) as nat
        } else {
            upto
        }
    }
}

/// The list with `text` in it: the suggestion of `text` that is there gets
/// the frequency on top and the new key; where there is none, one comes at
/// the end.
pub open spec fn with_text(
    list: Seq<SuggestionView>,
    text: Seq<char>,
    frequency: usize,
    score_key: u64,
) -> Seq<SuggestionView> {
    let at = place_of_text(list, text, list.len());
    if at < list.len() {
        list.update(
            at as int,
            SuggestionView {
                text,
                score_key,
                frequency: frequency_sum(list[at as int].frequency, frequency),
            },
        )
    } else {
        list.push(SuggestionView { text, score_key, frequency })
    }
}

/// The list by key, highest first; suggestions of one key stay in their
/// order.
pub open spec fn by_key(list: Seq<SuggestionView>) -> Seq<SuggestionView> {
    Seq::new(list.len(), |k: int| list[ranking(keys_of(list), list.len())[k]])
}

/// The list under a prefix after `text` is added: `text` is put in, the list
/// is ranked anew, and cut down to `max_suggestions`.
pub open spec fn relisted(
    list: Seq<SuggestionView>,
    text: Seq<char>,
    frequency: usize,
    score_key: u64,
    max_suggestions: nat,
) -> Seq<SuggestionView> {
    first_of(by_key(with_text(list, text, frequency, score_key)), max_suggestions)
}

/// The list under `prefix`; empty where nothing is.
pub open spec fn listed_under(
    prefixes: Map<Seq<char>, Seq<SuggestionView>>,
    prefix: Seq<char>,
) -> Seq<SuggestionView> {
    if prefixes.contains_key(prefix) {
        prefixes[prefix]
    } else {
        Seq::empty()
    }
}

/// The prefix lists after `text` is added under each of the first `upto`
/// prefixes of its lowercase `lower`.
pub open spec fn with_prefixes(
    prefixes: Map<Seq<char>, Seq<SuggestionView>>,
    lower: Seq<char>,
    upto: nat,
    text: Seq<char>,
    frequency: usize,
    score_key: u64,
    max_suggestions: nat,
) -> Map<Seq<char>, Seq<SuggestionView>>
    decreases upto,
{
    if upto == 0 {
        prefixes
    } else {
        let before = with_prefixes(
            prefixes,
            lower,
            (upto - 1) as nat,
            text,
            frequency,
            score_key,
            max_suggestions,
        );
        let prefix = lower.take(upto as int);
        before.insert(
            prefix,
            relisted(listed_under(before, prefix), text, frequency, score_key, max_suggestions),
        )
    }
}

/// The frequency of a text; 0 where it has none.
pub open spec fn frequency_of(frequencies: Map<Seq<char>, usize>, lower: Seq<char>) -> usize {
    if frequencies.contains_key(lower) {
        frequencies[lower]
    } else {
        0
    }
}

/// The texts other than `text`, in order.
pub open spec fn texts_without(texts: Seq<Seq<char>>, text: Seq<char>) -> Seq<Seq<char>>
    decreases texts.len(),
{
    if texts.len() == 0 {
        Seq::empty()
    } else if texts.last() == text {
        texts_without(texts.drop_last(), text)
    } else {
        texts_without(texts.drop_last(), text).push(texts.last())
    }
}

/// What a suggestion engine holds: the list of each prefix, the frequency of
/// each lowercased text, the texts used lately with the latest first, and its
/// three limits.
pub struct SuggestionModel {
    pub prefixes: Map<Seq<char>, Seq<SuggestionView>>,
    pub frequencies: Map<Seq<char>, usize>,
    pub recent: Seq<Seq<char>>,
    pub max_suggestions: nat,
    pub max_prefix_length: nat,
    pub max_recent: nat,
}

impl SuggestionModel {
    /// Number of prefixes under which a lowercased text is listed.
    pub open spec fn prefix_count(self, lower: Seq<char>) -> nat {
        if lower.len() <= self.max_prefix_length {
            lower.len()
        } else {
            self.max_prefix_length
        }
    }

    /// The engine after `text` is added with a frequency and a key. An empty
    /// text changes nothing. Else the frequency goes on top of that of the
    /// lowercased text, and the text is listed anew under each prefix of its
    /// lowercase, up to the longest prefix that is indexed.
    pub open spec fn added(self, text: Seq<char>, frequency: usize, score_key: u64) -> SuggestionModel {
        if text.len() == 0 {
            self
        } else {
            let lower = lowercased(text);
            SuggestionModel {
                prefixes: with_prefixes(
                    self.prefixes,
                    lower,
                    self.prefix_count(lower),
                    text,
                    frequency,
                    score_key,
                    self.max_suggestions,
                ),
                frequencies: self.frequencies.insert(
                    lower,
                    frequency_sum(frequency_of(self.frequencies, lower), frequency),
                ),
                ..self
            }
        }
    }

    /// The engine after `text` is used: its lowercase is the latest of the
    /// texts used lately, of which the oldest are dropped beyond the number
    /// remembered, and its frequency is one higher.
    pub open spec fn used(self, text: Seq<char>) -> SuggestionModel {
        let lower = lowercased(text);
        SuggestionModel {
            recent: first_of(seq![lower] + texts_without(self.recent, lower), self.max_recent),
            frequencies: self.frequencies.insert(
                lower,
                frequency_sum(frequency_of(self.frequencies, lower), 1),
            ),
            ..self
        }
    }

    /// What the score of `text` rests on when it is added with `frequency`.
    pub open spec fn score_inputs(self, text: Seq<char>, frequency: usize) -> ScoreInputs {
        let lower = lowercased(text);
        ScoreInputs {
            frequency: frequency_sum(frequency_of(self.frequencies, lower), frequency),
            exact_prefix: true,
            length: byte_len(lower),
            recent: self.recent.contains(lower),
        }
    }
}

/// Length of a text in bytes of UTF-8.
pub open spec fn byte_len(text: Seq<char>) -> usize {
    vstd::utf8::encode_utf8(text).len() as usize
}

/// Whether a prefix that has a list is near to what is typed: one of the two
/// starts with the other.
pub open spec fn near(key: Seq<char>, typed: Seq<char>) -> bool {
    is_prefix(typed, key) || is_prefix(key, typed)
}

/// The place, among the first `upto` prefixes that have a list, of the one
/// whose list stands in for what is typed; -1 where none is near. Each near
/// prefix in turn takes over from the one before where it has more bytes than
/// the list of that one has suggestions.
pub open spec fn stand_in(
    keys: Seq<Seq<char>>,
    lists: Seq<Seq<SuggestionView>>,
    typed: Seq<char>,
    upto: nat,
) -> int
    decreases upto,
{
    if upto == 0 {
        -1
    } else {
        let before = stand_in(keys, lists, typed, (upto - 1) as nat);
        let key = keys[upto - 1];
        if near(key, typed) && (before < 0 || byte_len(key) > lists[before].len()) {
            upto - 1
        } else {
            before
        }
    }
}

/// The prefix that stands in is near to what is typed, and there is one
/// exactly where one of the prefixes is near.
pub proof fn lemma_stand_in(
    keys: Seq<Seq<char>>,
    lists: Seq<Seq<SuggestionView>>,
    typed: Seq<char>,
    upto: nat,
)
    requires
        upto <= keys.len(),
    ensures
        -1 <= stand_in(keys, lists, typed, upto) < upto,
        stand_in(keys, lists, typed, upto) >= 0 ==> near(
            keys[stand_in(keys, lists, typed, upto)],
            typed,
        ),
        stand_in(keys, lists, typed, upto) == -1 <==> forall|i: int|
            0 <= i < upto ==> !near(#[trigger] keys[i], typed),
    decreases upto,
{
    if upto > 0 {
        lemma_stand_in(keys, lists, typed, (upto - 1) as nat);
    }
}

/// The engine after the first `upto` of the texts are added, in order.
pub open spec fn added_all(
    model: SuggestionModel,
    texts: Seq<(&str, usize, u64)>,
    upto: nat,
) -> SuggestionModel
    decreases upto,
{
    if upto == 0 {
        model
    } else {
        added_all(model, texts, (upto - 1) as nat).added(
            texts[upto - 1].0@,
            texts[upto - 1].1,
            texts[upto - 1].2,
        )
    }
}

/// The lists that a map of suggestion lists holds.
pub open spec fn list_views(lists: Map<Seq<char>, Vec<Suggestion>>) -> Map<
    Seq<char>,
    Seq<SuggestionView>,
> {
    Map::new(|k: Seq<char>| lists.contains_key(k), |k: Seq<char>| suggestion_views(lists[k]@))
}

/// Copies of the suggestions, in order.
fn copy_list(list: &Vec<Suggestion>) -> (copy: Vec<Suggestion>)
    ensures
        suggestion_views(copy@) == suggestion_views(list@),
{
    let mut copy: Vec<Suggestion> = Vec::new();
    let n = list.len();
    let mut i: usize = 0;
    while i < n
        invariant
            n == list@.len(),
            i <= n,
            suggestion_views(copy@) == suggestion_views(list@).take(i as int),
        decreases n - i,
    {
        let ghost before = suggestion_views(copy@);
        let item = list[i].copy();
        copy.push(item);
        assert(suggestion_views(copy@) =~= before.push(item@));
        assert(suggestion_views(list@).take(i + 1) =~= suggestion_views(list@).take(i as int).push(
            item@,
        ));
        i += 1;
    }
    assert(suggestion_views(list@).take(n as int) =~= suggestion_views(list@));
    copy
}

/// Where the suggestion of `text` stands in the list.
fn find_text(list: &Vec<Suggestion>, text: &str) -> (at: usize)
    ensures
        at == place_of_text(suggestion_views(list@), text@, list@.len()),
        at <= list@.len(),
{
    let n = list.len();
    let mut i: usize = 0;
    while i < n
        invariant
            n == list@.len(),
            i <= n,
            place_of_text(suggestion_views(list@), text@, i as nat) == i,
        decreases n - i,
    {
        if same_str(list[i].text.as_str(), text) {
            proof {
                lemma_place_found(suggestion_views(list@), text@, i as nat, n as nat);
            }
            return i;
        }
        i += 1;
    }
    n
}

/// Once the text is found at a place, it stays found there however far the
/// search goes.
proof fn lemma_place_found(list: Seq<SuggestionView>, text: Seq<char>, at: nat, upto: nat)
    requires
        at < upto,
        place_of_text(list, text, at) == at,
        list[at as int].text == text,
    ensures
        place_of_text(list, text, upto) == at,
    decreases upto,
{
    if upto > at + 1 {
        lemma_place_found(list, text, at, (upto - 1) as nat);
    }
}

/// Lists `text` anew in a list: puts it in, ranks the list, and cuts it down.
fn relist(list: Vec<Suggestion>, text: &str, frequency: usize, score_key: u64, max_suggestions: usize) -> (out:
    Vec<Suggestion>)
    ensures
        suggestion_views(out@) == relisted(
            suggestion_views(list@),
            text@,
            frequency,
            score_key,
            max_suggestions as nat,
        ),
{
    let mut list = list;
    let ghost before = suggestion_views(list@);
    let at = find_text(&list, text);
    if at < list.len() {
        let old_frequency = list[at].frequency;
        let updated = Suggestion {
            text: text.to_owned(),
            score_key,
            frequency: old_frequency.saturating_add(frequency),
        };
        list.set(at, updated);
        assert(suggestion_views(list@) =~= with_text(before, text@, frequency, score_key));
    } else {
        let added = Suggestion { text: text.to_owned(), score_key, frequency };
        list.push(added);
        assert(suggestion_views(list@) =~= with_text(before, text@, frequency, score_key));
    }
    let ghost put = suggestion_views(list@);
    let n = list.len();
    let mut keys: Vec<u64> = Vec::new();
    let mut i: usize = 0;
    while i < n
        invariant
            n == list@.len(),
            i <= n,
            put == suggestion_views(list@),
            keys@ == keys_of(put).take(i as int),
        decreases n - i,
    {
        keys.push(list[i].score_key);
        assert(keys_of(put).take(i + 1) =~= keys_of(put).take(i as int).push(put[i as int].score_key));
        i += 1;
    }
    assert(keys_of(put).take(n as int) =~= keys_of(put));
    let order = ranking_of(&keys);
    let stop = if max_suggestions < n {
        max_suggestions
    } else {
        n
    };
    let mut out: Vec<Suggestion> = Vec::new();
    let mut k: usize = 0;
    while k < stop
        invariant
            n == list@.len(),
            stop <= n,
            k <= stop,
            put == suggestion_views(list@),
            order@.len() == n,
            positions(order@) == ranking(keys_of(put), n as nat),
            forall|j: int| 0 <= j < order@.len() ==> order@[j] < n,
            suggestion_views(out@) == by_key(put).take(k as int),
        decreases stop - k,
    {
        let ghost so_far = suggestion_views(out@);
        let item = list[order[k]].copy();
        out.push(item);
        proof {
            assert(positions(order@)[k as int] == order@[k as int]);
            assert(suggestion_views(out@) =~= so_far.push(item@));
            assert(by_key(put).take(k + 1) =~= by_key(put).take(k as int).push(item@));
        }
        k += 1;
    }
    assert(by_key(put).take(n as int) =~= by_key(put));
    out
}

/// Suggests texts for what is typed.
pub struct SuggestionEngine {
    prefix_map: StrMap<Vec<Suggestion>>,
    frequency_map: StrMap<usize>,
    max_suggestions: usize,
    max_prefix_length: usize,
    recent_suggestions: VecDeque<String>,
    max_recent: usize,
}

/// The views of the strings of a queue, in order.
pub open spec fn queue_views(queue: Seq<String>) -> Seq<Seq<char>> {
    Seq::new(queue.len(), |i: int| queue[i]@)
}

impl SuggestionEngine {
    /// Whether the engine is in order. Every operation asks for it and keeps
    /// it.
    pub closed spec fn wf(&self) -> bool {
        self.prefix_map.wf() && self.frequency_map.wf()
    }

    /// What the engine holds.
    pub closed spec fn view(&self) -> SuggestionModel {
        SuggestionModel {
            prefixes: list_views(self.prefix_map@),
            frequencies: self.frequency_map@,
            recent: queue_views(self.recent_suggestions@),
            max_suggestions: self.max_suggestions as nat,
            max_prefix_length: self.max_prefix_length as nat,
            max_recent: self.max_recent as nat,
        }
    }

    /// The prefixes that have a list, in the order in which they first got
    /// one.
    pub closed spec fn prefix_order(&self) -> Seq<Seq<char>> {
        self.prefix_map.keys()
    }

    /// An engine that keeps `max_suggestions` suggestions per prefix and
    /// indexes prefixes up to `max_prefix_length` characters.
    pub fn new(max_suggestions: usize, max_prefix_length: usize) -> (engine: Self)
        ensures
            engine.wf(),
            engine@ == (SuggestionModel {
                prefixes: Map::empty(),
                frequencies: Map::empty(),
                recent: Seq::empty(),
                max_suggestions: max_suggestions as nat,
                max_prefix_length: max_prefix_length as nat,
                max_recent: MAX_RECENT as nat,
            }),
    {
        let engine = SuggestionEngine {
            prefix_map: StrMap::new(),
            frequency_map: StrMap::new(),
            max_suggestions,
            max_prefix_length,
            recent_suggestions: VecDeque::new(),
            max_recent: MAX_RECENT,
        };
        proof {
            assert(engine@.prefixes =~= Map::<Seq<char>, Seq<SuggestionView>>::empty());
            assert(engine@.recent =~= Seq::<Seq<char>>::empty());
        }
        engine
    }

    /// An engine with ten suggestions per prefix and prefixes up to twenty
    /// characters.
    pub fn default() -> (engine: Self)
        ensures
            engine.wf(),
            engine@ == (SuggestionModel {
                prefixes: Map::empty(),
                frequencies: Map::empty(),
                recent: Seq::empty(),
                max_suggestions: DEFAULT_MAX_SUGGESTIONS as nat,
                max_prefix_length: DEFAULT_MAX_PREFIX_LENGTH as nat,
                max_recent: MAX_RECENT as nat,
            }),
    {
        SuggestionEngine::new(DEFAULT_MAX_SUGGESTIONS, DEFAULT_MAX_PREFIX_LENGTH)
    }

    /// Whether `lower` is among the texts used lately.
    fn used_lately(&self, lower: &str) -> (found: bool)
        ensures
            found == self@.recent.contains(lower@),
    {
        let n = self.recent_suggestions.len();
        let mut i: usize = 0;
        while i < n
            invariant
                n == self.recent_suggestions@.len(),
                i <= n,
                forall|j: int| 0 <= j < i ==> self@.recent[j] != lower@,
            decreases n - i,
        {
            if same_str(self.recent_suggestions[i].as_str(), lower) {
                assert(self@.recent[i as int] == lower@);
                return true;
            }
            i += 1;
        }
        false
    }

    /// What the score of `text` rests on when it is added with `frequency`.
    /// The caller turns this into a score, and the score into a key.
    pub fn score_inputs(&self, text: &str, frequency: usize) -> (inputs: ScoreInputs)
        requires
            self.wf(),
        ensures
            inputs == self@.score_inputs(text@, frequency),
    {
        let lower = text.to_lowercase();
        let known: usize = match self.frequency_map.get(lower.as_str()) {
            Some(count) => *count,
            None => 0,
        };
        ScoreInputs {
            frequency: known.saturating_add(frequency),
            exact_prefix: true,
            length: lower.as_str().len(),
            recent: self.used_lately(lower.as_str()),
        }
    }

    /// Adds a text with how often it occurs and the key of its score: the
    /// frequency is counted, and the text is listed anew under each prefix of
    /// its lowercase. An empty text is not added.
    pub fn add_suggestion(&mut self, text: &str, frequency: usize, score_key: u64)
        requires
            old(self).wf(),
        ensures
            final(self).wf(),
            final(self)@ == old(self)@.added(text@, frequency, score_key),
    {
        if text.is_empty() {
            return;
        }
        let ghost before = self@;
        let lower = text.to_lowercase();
        let known: usize = match self.frequency_map.get(lower.as_str()) {
            Some(count) => *count,
            None => 0,
        };
        let _ = self.frequency_map.insert(lower.clone(), known.saturating_add(frequency));
        let chars = chars_of(lower.as_str());
        let count = if chars.len() <= self.max_prefix_length {
            chars.len()
        } else {
            self.max_prefix_length
        };
        let mut k: usize = 0;
        while k < count
            invariant
                self.wf(),
                chars@ == lowercased(text@),
                count <= chars@.len(),
                k <= count,
                self@ == (SuggestionModel {
                    prefixes: with_prefixes(
                        before.prefixes,
                        lowercased(text@),
                        k as nat,
                        text@,
                        frequency,
                        score_key,
                        before.max_suggestions,
                    ),
                    frequencies: before.frequencies.insert(
                        lowercased(text@),
                        frequency_sum(frequency_of(before.frequencies, lowercased(text@)), frequency),
                    ),
                    ..before
                }),
            decreases count - k,
        {
            let ghost lists = self@.prefixes;
            let prefix = string_of(vstd::slice::slice_subrange(chars.as_slice(), 0, k + 1));
            assert(prefix@ =~= lowercased(text@).take(k + 1));
            let list: Vec<Suggestion> = match self.prefix_map.remove(prefix.as_str()) {
                Some(list) => list,
                None => Vec::new(),
            };
            assert(suggestion_views(list@) =~= listed_under(lists, prefix@));
            let out = relist(list, text, frequency, score_key, self.max_suggestions);
            let _ = self.prefix_map.insert(prefix, out);
            assert(self@.prefixes =~= lists.insert(
                prefix@,
                relisted(
                    listed_under(lists, prefix@),
                    text@,
                    frequency,
                    score_key,
                    before.max_suggestions,
                ),
            ));
            k += 1;
        }
    }

    /// Adds each of the texts, in order, each with its frequency and its key.
    pub fn add_suggestions(&mut self, texts: &[(&str, usize, u64)])
        requires
            old(self).wf(),
        ensures
            final(self).wf(),
            final(self)@ == added_all(old(self)@, texts@, texts@.len()),
    {
        let n = texts.len();
        let mut i: usize = 0;
        while i < n
            invariant
                n == texts@.len(),
                i <= n,
                self.wf(),
                self@ == added_all(old(self)@, texts@, i as nat),
            decreases n - i,
        {
            let (text, frequency, score_key) = texts[i];
            self.add_suggestion(text, frequency, score_key);
            i += 1;
        }
    }

    /// The lists of the prefixes, each at the place of its prefix.
    pub closed spec fn list_order(&self) -> Seq<Seq<SuggestionView>> {
        Seq::new(
            self.prefix_map.values().len(),
            |i: int| suggestion_views(self.prefix_map.values()[i]@),
        )
    }

    /// What is suggested for the lowercased `typed`: the list of that prefix
    /// where it has one; else the list of the prefix that stands in for it;
    /// else nothing.
    pub open spec fn suggested(&self, typed: Seq<char>) -> Seq<SuggestionView> {
        if self@.prefixes.contains_key(typed) {
            self@.prefixes[typed]
        } else {
            let at = stand_in(
                self.prefix_order(),
                self.list_order(),
                typed,
                self.prefix_order().len(),
            );
            if at >= 0 {
                self.list_order()[at]
            } else {
                Seq::empty()
            }
        }
    }

    /// What is suggested for what is typed is the list of that prefix where
    /// it has one; else the list of one of the prefixes that are near to it;
    /// and nothing where no prefix is near.
    pub proof fn lemma_suggested(&self, typed: Seq<char>)
        requires
            self.wf(),
        ensures
            self@.prefixes.contains_key(typed) ==> self.suggested(typed) == self@.prefixes[typed],
            !self@.prefixes.contains_key(typed) && (forall|key: Seq<char>|
                self@.prefixes.contains_key(key) ==> !near(key, typed)) ==> self.suggested(typed)
                == Seq::<SuggestionView>::empty(),
            !self@.prefixes.contains_key(typed) && (exists|key: Seq<char>|
                self@.prefixes.contains_key(key) && near(key, typed)) ==> exists|key: Seq<char>|
                #![trigger self@.prefixes.contains_key(key)]
                self@.prefixes.contains_key(key) && near(key, typed) && self.suggested(typed)
                    == self@.prefixes[key],
    {
        let keys = self.prefix_order();
        let lists = self.list_order();
        lemma_stand_in(keys, lists, typed, keys.len());
        let at = stand_in(keys, lists, typed, keys.len());
        assert forall|i: int| 0 <= i < keys.len() implies self@.prefixes.contains_key(
            #[trigger] keys[i],
        ) && self@.prefixes[keys[i]] == lists[i] by {
            crate::str_map::lemma_position(keys, i);
        }
        if !self@.prefixes.contains_key(typed) {
            if exists|key: Seq<char>| self@.prefixes.contains_key(key) && near(key, typed) {
                let key = choose|key: Seq<char>| self@.prefixes.contains_key(key) && near(key, typed);
                assert(keys.contains(key));
                let i = choose|i: int| 0 <= i < keys.len() && keys[i] == key;
                assert(near(keys[i], typed));
                assert(at >= 0);
                assert(self@.prefixes.contains_key(keys[at]));
            } else {
                assert forall|i: int| 0 <= i < keys.len() implies !near(
                    #[trigger] keys[i],
                    typed,
                ) by {
                    assert(self@.prefixes.contains_key(keys[i]));
                }
            }
        }
    }

    /// The suggestions for what is typed, highest key first: those listed
    /// under the lowercased prefix, or where it has no list, those of a prefix
    /// near to it, and none where no prefix is near.
    pub fn get_suggestions(&self, prefix: &str) -> (found: Vec<Suggestion>)
        requires
            self.wf(),
        ensures
            suggestion_views(found@) == self.suggested(lowercased(prefix@)),
            self@.prefixes.contains_key(lowercased(prefix@)) ==> suggestion_views(found@)
                == self@.prefixes[lowercased(prefix@)],
            !self@.prefixes.contains_key(lowercased(prefix@)) && (forall|key: Seq<char>|
                self@.prefixes.contains_key(key) ==> !near(key, lowercased(prefix@)))
                ==> found@.len() == 0,
            !self@.prefixes.contains_key(lowercased(prefix@)) && (exists|key: Seq<char>|
                self@.prefixes.contains_key(key) && near(key, lowercased(prefix@)))
                ==> exists|key: Seq<char>|
                #![trigger self@.prefixes.contains_key(key)]
                self@.prefixes.contains_key(key) && near(key, lowercased(prefix@))
                    && suggestion_views(found@) == self@.prefixes[key],
    {
        proof {
            self.lemma_suggested(lowercased(prefix@));
        }
        let lower = prefix.to_lowercase();
        match self.prefix_map.get(lower.as_str()) {
            Some(list) => {
                return copy_list(list);
            },
            None => {},
        }
        let typed = chars_of(lower.as_str());
        let n = self.prefix_map.len();
        let mut best: Option<usize> = None;
        let mut i: usize = 0;
        while i < n
            invariant
                self.wf(),
                n == self.prefix_map.keys().len(),
                n == self.prefix_map.values().len(),
                i <= n,
                typed@ == lowercased(prefix@),
                match best {
                    Some(at) => at < i && at == stand_in(
                        self.prefix_order(),
                        self.list_order(),
                        typed@,
                        i as nat,
                    ),
                    None => stand_in(self.prefix_order(), self.list_order(), typed@, i as nat)
                        == -1,
                },
            decreases n - i,
        {
            let key = self.prefix_map.key_at(i).as_str();
            let key_chars = chars_of(key);
            let is_near = starts_with(key_chars.as_slice(), typed.as_slice()) || starts_with(
                typed.as_slice(),
                key_chars.as_slice(),
            );
            proof {
                assert(self.prefix_order()[i as int] == key@);
                assert(key.spec_bytes() == vstd::utf8::encode_utf8(key@));
                assert(is_near == near(key@, typed@));
            }
            if is_near {
                let takes_over = match best {
                    Some(at) => {
                        let list = self.prefix_map.value_at(at);
                        assert(self.list_order()[at as int].len() == list@.len());
                        key.len() > list.len()
                    },
                    None => true,
                };
                if takes_over {
                    best = Some(i);
                }
            }
            i += 1;
        }
        match best {
            Some(at) => {
                let list = self.prefix_map.value_at(at);
                assert(self.list_order()[at as int] == suggestion_views(list@));
                copy_list(list)
            },
            None => {
                let found: Vec<Suggestion> = Vec::new();
                assert(suggestion_views(found@) =~= Seq::<SuggestionView>::empty());
                found
            },
        }
    }

    /// The texts suggested for what is typed, highest key first, `limit` at
    /// most.
    pub fn get_prefix_suggestions(&self, prefix: &str, limit: usize) -> (texts: Vec<String>)
        requires
            self.wf(),
        ensures
            texts@.len() == first_of(self.suggested(lowercased(prefix@)), limit as nat).len(),
            forall|i: int|
                0 <= i < texts@.len() ==> (#[trigger] texts@[i])@ == self.suggested(
                    lowercased(prefix@),
                )[i].text,
    {
        let found = self.get_suggestions(prefix);
        let n = found.len();
        let stop = if limit < n {
            limit
        } else {
            n
        };
        let mut texts: Vec<String> = Vec::new();
        let mut i: usize = 0;
        while i < stop
            invariant
                n == found@.len(),
                stop <= n,
                i <= stop,
                texts@.len() == i,
                forall|j: int|
                    0 <= j < i ==> (#[trigger] texts@[j])@ == suggestion_views(found@)[j].text,
            decreases stop - i,
        {
            texts.push(found[i].text.clone());
            i += 1;
        }
        texts
    }

    /// Records that a text was used: it becomes the latest of the texts used
    /// lately, and its frequency rises by one.
    pub fn record_usage(&mut self, text: &str)
        requires
            old(self).wf(),
        ensures
            final(self).wf(),
            final(self)@ == old(self)@.used(text@),
    {
        let ghost before = self@;
        let lower = text.to_lowercase();
        let mut kept: VecDeque<String> = VecDeque::new();
        kept.push_back(lower.clone());
        let n = self.recent_suggestions.len();
        let mut i: usize = 0;
        proof {
            assert(before.recent.take(0) =~= Seq::<Seq<char>>::empty());
            assert(queue_views(kept@) =~= seq![lower@] + Seq::<Seq<char>>::empty());
        }
        while i < n
            invariant
                n == self.recent_suggestions@.len(),
                i <= n,
                self@ == before,
                self.wf(),
                lower@ == lowercased(text@),
                queue_views(kept@) == seq![lower@] + texts_without(
                    before.recent.take(i as int),
                    lower@,
                ),
            decreases n - i,
        {
            let ghost so_far = queue_views(kept@);
            let ghost upto = before.recent.take(i + 1);
            assert(upto.drop_last() =~= before.recent.take(i as int));
            assert(upto.last() == self.recent_suggestions@[i as int]@);
            if !same_str(self.recent_suggestions[i].as_str(), lower.as_str()) {
                let item = self.recent_suggestions[i].clone();
                kept.push_back(item);
                proof {
                    assert(queue_views(kept@) =~= so_far.push(item@));
                    assert(seq![lower@] + texts_without(before.recent.take(i as int), lower@).push(
                        item@,
                    ) =~= so_far.push(item@));
                }
            }
            i += 1;
        }
        assert(before.recent.take(n as int) =~= before.recent);
        let ghost all = queue_views(kept@);
        kept.truncate(self.max_recent);
        assert(queue_views(kept@) =~= first_of(all, before.max_recent));
        self.recent_suggestions = kept;
        let known: usize = match self.frequency_map.get(lower.as_str()) {
            Some(count) => *count,
            None => 0,
        };
        let _ = self.frequency_map.insert(lower, known.saturating_add(1));
    }

    /// Drops every suggestion, every frequency and every text used lately.
    pub fn clear(&mut self)
        requires
            old(self).wf(),
        ensures
            final(self).wf(),
            final(self)@ == (SuggestionModel {
                prefixes: Map::empty(),
                frequencies: Map::empty(),
                recent: Seq::empty(),
                ..old(self)@
            }),
    {
        self.prefix_map.clear();
        self.frequency_map.clear();
        self.recent_suggestions.clear();
        proof {
            assert(self@.prefixes =~= Map::<Seq<char>, Seq<SuggestionView>>::empty());
            assert(self@.recent =~= Seq::<Seq<char>>::empty());
        }
    }

    /// Number of texts that have a frequency.
    pub fn len(&self) -> (n: usize)
        requires
            self.wf(),
        ensures
            n == self@.frequencies.len(),
    {
        self.frequency_map.len()
    }

    /// Whether no text has a frequency.
    pub fn is_empty(&self) -> (empty: bool)
        requires
            self.wf(),
        ensures
            empty == (self@.frequencies.len() == 0),
    {
        self.frequency_map.len() == 0
    }
}

} // verus!
