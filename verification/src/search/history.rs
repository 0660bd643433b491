//! The history of searches: what was searched for lately, and how often.

use crate::order::{lemma_ranking, positions, ranking, ranking_of};
use crate::str_map::StrMap;
use crate::text::{chars_of, is_prefix, lowercased, same_str, starts_with};
use std::collections::VecDeque;
use vstd::prelude::*;

verus! {

/// Number of entries that a search of the history gives at most.
pub const HISTORY_MATCH_LIMIT: usize = 10;

/// One search that was made.
#[derive(Debug, Clone)]
pub struct HistoryEntry {
    pub query: String,
    pub timestamp: i64,
    pub result_count: usize,
    pub scope: String,
}

/// What an entry says, as plain values.
pub struct EntryView {
    pub query: Seq<char>,
    pub timestamp: i64,
    pub result_count: usize,
    pub scope: Seq<char>,
}

impl View for HistoryEntry {
    type V = EntryView;

    open spec fn view(&self) -> EntryView {
        EntryView {
            query: self.query@,
            timestamp: self.timestamp,
            result_count: self.result_count,
            scope: self.scope@,
        }
    }
}

impl HistoryEntry {
    /// A copy of the entry.
    pub fn copy(&self) -> (entry: HistoryEntry)
        ensures
            entry@ == self@,
    {
        HistoryEntry {
            query: self.query.clone(),
            timestamp: self.timestamp,
            result_count: self.result_count,
            scope: self.scope.clone(),
        }
    }
}

/// The views of the entries, in order.
pub open spec fn entry_views(entries: Seq<HistoryEntry>) -> Seq<EntryView> {
    Seq::new(entries.len(), |i: int| entries[i]@)
}

/// The views of the entries referred to, in order.
pub open spec fn entry_ref_views(entries: Seq<&HistoryEntry>) -> Seq<EntryView> {
    Seq::new(entries.len(), |i: int| entries[i]@)
}

/// The first `limit` of a list, or all of it where it is shorter.
pub open spec fn first_of<T>(list: Seq<T>, limit: nat) -> Seq<T> {
    if limit <= list.len() {
        list.take(limit as int)
    } else {
        list
    }
}

/// One more than a count, held at the largest count there is.
pub open spec fn bumped(count: nat) -> nat {
    if count >= usize::MAX {
        usize::MAX as nat
    } else {
        count + 1
    }
}

/// How often `query` was counted.
pub open spec fn count_of(counts: Map<Seq<char>, usize>, query: Seq<char>) -> nat {
    if counts.contains_key(query) {
        counts[query] as nat
    } else {
        0
    }
}

/// The entries whose query is not `query`, in order.
pub open spec fn entries_without(entries: Seq<EntryView>, query: Seq<char>) -> Seq<EntryView>
    decreases entries.len(),
{
    if entries.len() == 0 {
        Seq::empty()
    } else if entries.last().query == query {
        entries_without(entries.drop_last(), query)
    } else {
        entries_without(entries.drop_last(), query).push(entries.last())
    }
}

/// The entries whose lowercased query starts with the lowercased `prefix`, in
/// order.
pub open spec fn entries_starting(entries: Seq<EntryView>, prefix: Seq<char>) -> Seq<EntryView>
    decreases entries.len(),
{
    if entries.len() == 0 {
        Seq::empty()
    } else if is_prefix(prefix, lowercased(entries.last().query)) {
        entries_starting(entries.drop_last(), prefix).push(entries.last())
    } else {
        entries_starting(entries.drop_last(), prefix)
    }
}

/// The count of each query of the entries.
pub open spec fn counted(entries: Seq<EntryView>) -> Map<Seq<char>, usize>
    decreases entries.len(),
{
    if entries.len() == 0 {
        Map::empty()
    } else {
        let before = counted(entries.drop_last());
        before.insert(entries.last().query, bumped(count_of(before, entries.last().query)) as usize)
    }
}

/// What a search history holds: the entries, latest first; the count of each
/// query, with the queries in the order in which they were first counted; how
/// many entries are kept; and where the history is kept.
pub struct HistoryModel {
    pub entries: Seq<EntryView>,
    pub queries: Seq<Seq<char>>,
    pub counts: Map<Seq<char>, usize>,
    pub max_history: nat,
    pub persistence_path: Option<Seq<char>>,
}

impl HistoryModel {
    /// The count of each query, at the position of the query, as a key for
    /// ranking.
    pub open spec fn count_keys(self) -> Seq<u64> {
        Seq::new(self.queries.len(), |i: int| self.counts[self.queries[i]] as u64)
    }

    /// The positions of the queries that were searched for most: highest
    /// count first, queries of one count in the order in which they were
    /// first counted, `limit` at most.
    pub open spec fn popular_order(self, limit: nat) -> Seq<int> {
        first_of(ranking(self.count_keys(), self.queries.len()), limit)
    }

    /// The queries that were searched for most, each with its count, in the
    /// order of [`Self::popular_order`].
    pub open spec fn popular(self, limit: nat) -> Seq<(Seq<char>, usize)> {
        Seq::new(
            self.popular_order(limit).len(),
            |k: int|
                (
                    self.queries[self.popular_order(limit)[k]],
                    self.counts[self.queries[self.popular_order(limit)[k]]],
                ),
        )
    }
}

/// The moment now, in seconds since the Unix epoch: the system clock of std,
/// turned into a `DateTime<Utc>` of the `chrono` crate by its conversion from
/// `SystemTime`, and that moment's `timestamp()`. The conversion takes a clock
/// that stands before 1970 too, and gives it negative seconds. Nothing is said
/// of the value: it is the clock's.
#[verifier::external_body]
fn unix_time_now() -> (seconds: i64) {
    chrono::DateTime::<chrono::Utc>::from(std::time::SystemTime::now()).timestamp()
}

/// The history of searches.
pub struct SearchHistory {
    history: VecDeque<HistoryEntry>,
    query_counts: StrMap<usize>,
    max_history: usize,
    persistence_path: Option<String>,
}

impl SearchHistory {
    /// Whether the history is in order. Every operation asks for it and
    /// keeps it.
    pub closed spec fn wf(&self) -> bool {
        self.query_counts.wf()
    }

    /// What the history holds.
    pub closed spec fn view(&self) -> HistoryModel {
        HistoryModel {
            entries: entry_views(self.history@),
            queries: self.query_counts.keys(),
            counts: self.query_counts@,
            max_history: self.max_history as nat,
            persistence_path: match self.persistence_path {
                Some(path) => Some(path@),
                None => None,
            },
        }
    }

    /// An empty history that keeps `max_history` entries.
    pub fn new(max_history: usize) -> (history: Self)
        ensures
            history.wf(),
            history@ == (HistoryModel {
                entries: Seq::empty(),
                queries: Seq::empty(),
                counts: Map::empty(),
                max_history: max_history as nat,
                persistence_path: None,
            }),
    {
        let history = SearchHistory {
            history: VecDeque::new(),
            query_counts: StrMap::new(),
            max_history,
            persistence_path: None,
        };
        assert(history@.entries =~= Seq::<EntryView>::empty());
        history
    }

    /// An empty history that is kept at `path`. Reading what is kept there is
    /// left to the caller, who hands it to [`Self::restore`].
    pub fn with_persistence(path: String, max_history: usize) -> (history: Self)
        ensures
            history.wf(),
            history@ == (HistoryModel {
                entries: Seq::empty(),
                queries: Seq::empty(),
                counts: Map::empty(),
                max_history: max_history as nat,
                persistence_path: Some(path@),
            }),
    {
        let history = SearchHistory {
            history: VecDeque::new(),
            query_counts: StrMap::new(),
            max_history,
            persistence_path: Some(path),
        };
        assert(history@.entries =~= Seq::<EntryView>::empty());
        history
    }

    /// Where the history is kept, if anywhere.
    pub fn persistence_path(&self) -> (path: Option<&String>)
        ensures
            match path {
                Some(p) => self@.persistence_path == Some(p@),
                None => self@.persistence_path is None,
            },
    {
        match &self.persistence_path {
            Some(path) => Some(path),
            None => None,
        }
    }

    /// Counts `query` once more.
    fn count(&mut self, query: &str)
        requires
            old(self).wf(),
        ensures
            final(self).wf(),
            final(self).history == old(self).history,
            final(self).max_history == old(self).max_history,
            final(self).persistence_path == old(self).persistence_path,
            final(self)@.counts == old(self)@.counts.insert(
                query@,
                bumped(count_of(old(self)@.counts, query@)) as usize,
            ),
            final(self)@.queries == if old(self)@.counts.contains_key(query@) {
                old(self)@.queries
            } else {
                old(self)@.queries.push(query@)
            },
    {
        match self.query_counts.position(query) {
            Some(at) => {
                let old_count = *self.query_counts.value_at(at);
                let _ = self.query_counts.replace_at(at, old_count.saturating_add(1));
            },
            None => {
                let _ = self.query_counts.insert(query.to_owned(), 1);
            },
        }
    }

    /// Records a search made at the moment `timestamp`: it becomes the latest
    /// entry, its query is counted once more, and entries beyond the number
    /// kept are dropped, oldest first.
    pub fn record_search_at(
        &mut self,
        query: String,
        timestamp: i64,
        result_count: usize,
        scope: String,
    )
        requires
            old(self).wf(),
        ensures
            final(self).wf(),
            final(self)@.entries == first_of(
                seq![EntryView { query: query@, timestamp, result_count, scope: scope@ }] + old(self)@.entries,
                old(self)@.max_history,
            ),
            final(self)@.counts == old(self)@.counts.insert(
                query@,
                bumped(count_of(old(self)@.counts, query@)) as usize,
            ),
            final(self)@.queries == if old(self)@.counts.contains_key(query@) {
                old(self)@.queries
            } else {
                old(self)@.queries.push(query@)
            },
            final(self)@.max_history == old(self)@.max_history,
            final(self)@.persistence_path == old(self)@.persistence_path,
    {
        let ghost before = self@.entries;
        self.count(query.as_str());
        let entry = HistoryEntry { query, timestamp, result_count, scope };
        let ghost view = entry@;
        self.history.push_front(entry);
        assert(entry_views(self.history@) =~= seq![view] + before);
        self.history.truncate(self.max_history);
        assert(entry_views(self.history@) =~= first_of(
            seq![view] + before,
            self.max_history as nat,
        ));
    }

    /// Records a search made now. The entry carries the clock's time; all else
    /// is as [`Self::record_search_at`] says.
    pub fn record_search(&mut self, query: String, result_count: usize, scope: String)
        requires
            old(self).wf(),
        ensures
            final(self).wf(),
            exists|timestamp: i64|
                final(self)@.entries == first_of(
                    seq![
                        EntryView { query: query@, timestamp, result_count, scope: scope@ },
                    ] + old(self)@.entries,
                    old(self)@.max_history,
                ),
            final(self)@.counts == old(self)@.counts.insert(
                query@,
                bumped(count_of(old(self)@.counts, query@)) as usize,
            ),
            final(self)@.queries == if old(self)@.counts.contains_key(query@) {
                old(self)@.queries
            } else {
                old(self)@.queries.push(query@)
            },
            final(self)@.max_history == old(self)@.max_history,
            final(self)@.persistence_path == old(self)@.persistence_path,
    {
        let timestamp = unix_time_now();
        self.record_search_at(query, timestamp, result_count, scope);
    }

    /// The latest entries, latest first, `limit` at most.
    pub fn get_recent(&self, limit: usize) -> (recent: Vec<&HistoryEntry>)
        ensures
            entry_ref_views(recent@) == first_of(self@.entries, limit as nat),
    {
        let mut recent: Vec<&HistoryEntry> = Vec::new();
        let n = self.history.len();
        let stop = if limit < n {
            limit
        } else {
            n
        };
        let mut i: usize = 0;
        while i < stop
            invariant
                n == self.history@.len(),
                stop <= n,
                i <= stop,
                entry_ref_views(recent@) == self@.entries.take(i as int),
            decreases stop - i,
        {
            let ghost before = entry_ref_views(recent@);
            recent.push(&self.history[i]);
            assert(entry_ref_views(recent@) =~= before.push(self.history@[i as int]@));
            assert(self@.entries.take(i + 1) =~= self@.entries.take(i as int).push(
                self.history@[i as int]@,
            ));
            i += 1;
        }
        assert(self@.entries.take(n as int) =~= self@.entries);
        recent
    }

    /// The queries that were searched for most, most often first, each with
    /// its count; queries of one count in the order in which they were first
    /// searched for; `limit` at most. No query comes twice, and the counts
    /// never rise along the list.
    pub fn get_popular(&self, limit: usize) -> (popular: Vec<(&String, &usize)>)
        requires
            self.wf(),
        ensures
            popular@.len() == self@.popular(limit as nat).len(),
            forall|k: int|
                0 <= k < popular@.len() ==> {
                    &&& (#[trigger] popular@[k]).0@ == self@.popular(limit as nat)[k].0
                    &&& *popular@[k].1 == self@.popular(limit as nat)[k].1
                },
            popular@.len() == if limit <= self@.queries.len() {
                limit as nat
            } else {
                self@.queries.len()
            },
            forall|k: int|
                0 <= k < popular@.len() ==> self@.counts.contains_key(
                    (#[trigger] popular@[k]).0@,
                ) && self@.counts[popular@[k].0@] == *popular@[k].1,
            forall|i: int, j: int|
                0 <= i <= j < popular@.len() ==> *(#[trigger] popular@[i]).1 >= *(
                #[trigger] popular@[j]).1,
            forall|i: int, j: int|
                0 <= i < j < popular@.len() ==> (#[trigger] popular@[i]).0@ != (
                #[trigger] popular@[j]).0@,
    {
        let n = self.query_counts.len();
        let ghost keys = self@.count_keys();
        let mut counts: Vec<u64> = Vec::new();
        let mut i: usize = 0;
        while i < n
            invariant
                self.wf(),
                n == self.query_counts.keys().len(),
                n == self@.queries.len(),
                keys == self@.count_keys(),
                i <= n,
                counts@ == keys.take(i as int),
            decreases n - i,
        {
            counts.push(*self.query_counts.value_at(i) as u64);
            assert(keys.take(i + 1) =~= keys.take(i as int).push(keys[i as int]));
            i += 1;
        }
        assert(keys.take(n as int) =~= keys);
        let order = ranking_of(&counts);
        let stop = if limit < n {
            limit
        } else {
            n
        };
        let ghost ranked = ranking(keys, n as nat);
        let ghost chosen = self@.popular_order(limit as nat);
        proof {
            lemma_ranking(keys, n as nat);
            assert(chosen =~= ranked.take(stop as int));
        }
        let mut popular: Vec<(&String, &usize)> = Vec::new();
        let mut k: usize = 0;
        while k < stop
            invariant
                self.wf(),
                n == self.query_counts.keys().len(),
                n == self@.queries.len(),
                keys == self@.count_keys(),
                keys.len() == n,
                stop <= n,
                k <= stop,
                order@.len() == n,
                positions(order@) == ranked,
                ranked.len() == n,
                forall|j: int| 0 <= j < order@.len() ==> order@[j] < n,
                popular@.len() == k,
                forall|j: int|
                    0 <= j < k ==> {
                        &&& (#[trigger] popular@[j]).0@ == self@.queries[ranked[j]]
                        &&& *popular@[j].1 == self@.counts[self@.queries[ranked[j]]]
                        &&& self@.counts.contains_key(popular@[j].0@)
                    },
            decreases stop - k,
        {
            let at = order[k];
            assert(positions(order@)[k as int] == at as int);
            let query = self.query_counts.key_at(at);
            let count = self.query_counts.value_at(at);
            popular.push((query, count));
            k += 1;
        }
        proof {
            assert(self@.popular(limit as nat).len() == stop);
            assert forall|j: int| 0 <= j < popular@.len() implies {
                &&& (#[trigger] popular@[j]).0@ == self@.popular(limit as nat)[j].0
                &&& *popular@[j].1 == self@.popular(limit as nat)[j].1
            } by {
                assert(chosen[j] == ranked[j]);
            }
            assert forall|i: int, j: int| 0 <= i <= j < popular@.len() implies *(
            #[trigger] popular@[i]).1 >= *(#[trigger] popular@[j]).1 by {
                assert(keys[ranked[i]] >= keys[ranked[j]]);
                assert(0 <= ranked[i] < n && 0 <= ranked[j] < n);
            }
            assert forall|i: int, j: int| 0 <= i < j < popular@.len() implies (
            #[trigger] popular@[i]).0@ != (#[trigger] popular@[j]).0@ by {
                assert(ranked[i] != ranked[j]);
                assert(0 <= ranked[i] < n && 0 <= ranked[j] < n);
            }
        }
        popular
    }

    /// The entries whose query starts with `prefix`, both lowercased, latest
    /// first, ten at most.
    pub fn search_history(&self, prefix: &str) -> (found: Vec<&HistoryEntry>)
        ensures
            entry_ref_views(found@) == first_of(
                entries_starting(self@.entries, lowercased(prefix@)),
                HISTORY_MATCH_LIMIT as nat,
            ),
    {
        let prefix_lower = prefix.to_lowercase();
        let start = chars_of(prefix_lower.as_str());
        let mut found: Vec<&HistoryEntry> = Vec::new();
        let n = self.history.len();
        let mut i: usize = 0;
        let ghost entries = self@.entries;
        proof {
            assert(entries.take(0) =~= Seq::<EntryView>::empty());
            assert(entry_ref_views(found@) =~= Seq::<EntryView>::empty());
        }
        while i < n && found.len() < HISTORY_MATCH_LIMIT
            invariant
                n == self.history@.len(),
                i <= n,
                entries == self@.entries,
                start@ == lowercased(prefix@),
                found@.len() <= HISTORY_MATCH_LIMIT,
                entry_ref_views(found@) == entries_starting(
                    entries.take(i as int),
                    lowercased(prefix@),
                ),
            decreases n - i,
        {
            let ghost before = entry_ref_views(found@);
            let ghost upto = entries.take(i + 1);
            assert(upto.drop_last() =~= entries.take(i as int));
            assert(upto.last() == self.history@[i as int]@);
            let entry = &self.history[i];
            let query_lower = entry.query.as_str().to_lowercase();
            let query = chars_of(query_lower.as_str());
            if starts_with(query.as_slice(), start.as_slice()) {
                found.push(entry);
                assert(entry_ref_views(found@) =~= before.push(entry@));
            }
            i += 1;
        }
        proof {
            Self::lemma_starting_grows(entries, i as int, lowercased(prefix@));
            assert(entries.take(n as int) =~= entries);
            let all = entries_starting(entries, lowercased(prefix@));
            let so_far = entry_ref_views(found@);
            if found@.len() == HISTORY_MATCH_LIMIT {
                assert(so_far =~= all.take(HISTORY_MATCH_LIMIT as int));
            }
        }
        found
    }

    /// The matches among the first `upto` entries are the first of the matches
    /// among all.
    proof fn lemma_starting_grows(entries: Seq<EntryView>, upto: int, prefix: Seq<char>)
        requires
            0 <= upto <= entries.len(),
        ensures
            entries_starting(entries.take(upto), prefix).len() <= entries_starting(
                entries,
                prefix,
            ).len(),
            entries_starting(entries.take(upto), prefix) == entries_starting(
                entries,
                prefix,
            ).take(entries_starting(entries.take(upto), prefix).len() as int),
        decreases entries.len(),
    {
        if upto == entries.len() {
            assert(entries.take(upto) =~= entries);
            assert(entries_starting(entries, prefix).take(
                entries_starting(entries, prefix).len() as int,
            ) =~= entries_starting(entries, prefix));
        } else {
            assert(entries.drop_last().take(upto) =~= entries.take(upto));
            Self::lemma_starting_grows(entries.drop_last(), upto, prefix);
            let part = entries_starting(entries.take(upto), prefix);
            let shorter = entries_starting(entries.drop_last(), prefix);
            let all = entries_starting(entries, prefix);
            assert(part =~= all.take(part.len() as int)) by {
                assert(part == shorter.take(part.len() as int));
                assert(forall|k: int| 0 <= k < shorter.len() ==> all[k] == shorter[k]);
            }
        }
    }

    /// Drops every entry and every count.
    pub fn clear(&mut self)
        requires
            old(self).wf(),
        ensures
            final(self).wf(),
            final(self)@ == (HistoryModel {
                entries: Seq::empty(),
                queries: Seq::empty(),
                counts: Map::empty(),
                ..old(self)@
            }),
    {
        self.history.clear();
        self.query_counts.clear();
        assert(self@.entries =~= Seq::<EntryView>::empty());
    }

    /// Drops the entries of `query` and its count.
    pub fn remove(&mut self, query: &str)
        requires
            old(self).wf(),
        ensures
            final(self).wf(),
            final(self)@.entries == entries_without(old(self)@.entries, query@),
            final(self)@.counts == old(self)@.counts.remove(query@),
            final(self)@.max_history == old(self)@.max_history,
            final(self)@.persistence_path == old(self)@.persistence_path,
    {
        let ghost before = self@.entries;
        let mut kept: VecDeque<HistoryEntry> = VecDeque::new();
        let n = self.history.len();
        let mut i: usize = 0;
        proof {
            assert(before.take(0) =~= Seq::<EntryView>::empty());
            assert(entry_views(kept@) =~= Seq::<EntryView>::empty());
        }
        while i < n
            invariant
                n == self.history@.len(),
                i <= n,
                before == entry_views(self.history@),
                entry_views(kept@) == entries_without(before.take(i as int), query@),
            decreases n - i,
        {
            let ghost so_far = entry_views(kept@);
            let ghost upto = before.take(i + 1);
            assert(upto.drop_last() =~= before.take(i as int));
            assert(upto.last() == self.history@[i as int]@);
            if !same_str(self.history[i].query.as_str(), query) {
                let entry = self.history[i].copy();
                kept.push_back(entry);
                assert(entry_views(kept@) =~= so_far.push(entry@));
            }
            i += 1;
        }
        assert(before.take(n as int) =~= before);
        self.history = kept;
        let _ = self.query_counts.remove(query);
    }

    /// Number of entries.
    pub fn len(&self) -> (n: usize)
        ensures
            n == self@.entries.len(),
    {
        self.history.len()
    }

    /// Whether there are no entries.
    pub fn is_empty(&self) -> (empty: bool)
        ensures
            empty == (self@.entries.len() == 0),
    {
        self.history.len() == 0
    }

    /// Copies of the entries, latest first: what is kept of the history
    /// between runs.
    pub fn entries(&self) -> (entries: Vec<HistoryEntry>)
        ensures
            entry_views(entries@) == self@.entries,
    {
        let mut entries: Vec<HistoryEntry> = Vec::new();
        let n = self.history.len();
        let mut i: usize = 0;
        while i < n
            invariant
                n == self.history@.len(),
                i <= n,
                entry_views(entries@) == self@.entries.take(i as int),
            decreases n - i,
        {
            let ghost before = entry_views(entries@);
            let entry = self.history[i].copy();
            entries.push(entry);
            assert(entry_views(entries@) =~= before.push(entry@));
            assert(self@.entries.take(i + 1) =~= self@.entries.take(i as int).push(entry@));
            i += 1;
        }
        assert(self@.entries.take(n as int) =~= self@.entries);
        entries
    }

    /// Puts back the entries that were kept between runs, latest first, in
    /// place of those at hand, and counts their queries anew.
    pub fn restore(&mut self, entries: Vec<HistoryEntry>)
        requires
            old(self).wf(),
        ensures
            final(self).wf(),
            final(self)@.entries == entry_views(entries@),
            final(self)@.counts == counted(entry_views(entries@)),
            final(self)@.max_history == old(self)@.max_history,
            final(self)@.persistence_path == old(self)@.persistence_path,
    {
        self.history.clear();
        self.query_counts.clear();
        let n = entries.len();
        let mut i: usize = 0;
        let ghost views = entry_views(entries@);
        proof {
            assert(views.take(0) =~= Seq::<EntryView>::empty());
            assert(entry_views(self.history@) =~= Seq::<EntryView>::empty());
        }
        while i < n
            invariant
                n == entries@.len(),
                i <= n,
                views == entry_views(entries@),
                self.wf(),
                self.max_history == old(self).max_history,
                self.persistence_path == old(self).persistence_path,
                entry_views(self.history@) == views.take(i as int),
                self@.counts == counted(views.take(i as int)),
            decreases n - i,
        {
            let ghost so_far = entry_views(self.history@);
            let ghost upto = views.take(i + 1);
            assert(upto.drop_last() =~= views.take(i as int));
            assert(upto.last() == entries@[i as int]@);
            let entry = entries[i].copy();
            self.count(entry.query.as_str());
            self.history.push_back(entry);
            assert(entry_views(self.history@) =~= so_far.push(entry@));
            i += 1;
        }
        assert(views.take(n as int) =~= views);
    }
}

} // verus!
