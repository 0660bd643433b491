//! The document store with its word and account indexes.

use crate::search::laws::{
    in_shape, lemma_added_in_shape, lemma_empty_in_shape, lemma_removed_in_shape,
};
use crate::search::ranking::{
    hit_views, keep_top, match_score, rank, ranked, score_of, top, HitView, SearchResult,
    SCORE_PREFIX,
};
use crate::str_map::StrMap;
use crate::text::{
    chars_of, distinct_words, first_occurrences, is_prefix, lowercased, same_str, split_words,
    starts_with, views_of, words,
};
use vstd::prelude::*;

verus! {

/// A document of the catalog as the index holds it.
#[derive(Debug, Clone, PartialEq)]
pub struct SearchDocument {
    pub node_id: String,
    pub account_id: String,
    pub provider: String,
    pub email: String,
    pub name: String,
    pub is_folder: bool,
    pub parent_id: Option<String>,
}

/// What a document says, as plain values.
pub struct DocView {
    pub node_id: Seq<char>,
    pub account_id: Seq<char>,
    pub provider: Seq<char>,
    pub email: Seq<char>,
    pub name: Seq<char>,
    pub is_folder: bool,
    pub parent_id: Option<Seq<char>>,
}

impl View for SearchDocument {
    type V = DocView;

    open spec fn view(&self) -> DocView {
        DocView {
            node_id: self.node_id@,
            account_id: self.account_id@,
            provider: self.provider@,
            email: self.email@,
            name: self.name@,
            is_folder: self.is_folder,
            parent_id: match self.parent_id {
                Some(id) => Some(id@),
                None => None,
            },
        }
    }
}

impl SearchDocument {
    /// A copy of the document.
    pub fn copy(&self) -> (doc: SearchDocument)
        ensures
            doc@ == self@,
    {
        SearchDocument {
            node_id: self.node_id.clone(),
            account_id: self.account_id.clone(),
            provider: self.provider.clone(),
            email: self.email.clone(),
            name: self.name.clone(),
            is_folder: self.is_folder,
            parent_id: match &self.parent_id {
                Some(id) => Some(id.clone()),
                None => None,
            },
        }
    }
}

/// A posting index: for each key, the node ids posted under it, in the order
/// in which they were posted.
pub type Postings = Map<Seq<char>, Seq<Seq<char>>>;

/// The ids of the documents, in order.
pub open spec fn ids_of(docs: Seq<DocView>) -> Seq<Seq<char>> {
    Seq::new(docs.len(), |i: int| docs[i].node_id)
}

/// The store with `doc` put in: in place of the document with the same id, or
/// at the end.
pub open spec fn store_put(docs: Seq<DocView>, doc: DocView) -> Seq<DocView> {
    if ids_of(docs).contains(doc.node_id) {
        docs.update(ids_of(docs).index_of(doc.node_id), doc)
    } else {
        docs.push(doc)
    }
}

/// The store without the document with the id given.
pub open spec fn store_without(docs: Seq<DocView>, id: Seq<char>) -> Seq<DocView> {
    if ids_of(docs).contains(id) {
        docs.remove(ids_of(docs).index_of(id))
    } else {
        docs
    }
}

/// The list posted under `key`; empty where nothing is.
pub open spec fn posted_under(index: Postings, key: Seq<char>) -> Seq<Seq<char>> {
    if index.contains_key(key) {
        index[key]
    } else {
        Seq::empty()
    }
}

/// The index after `id` is posted under `key`.
pub open spec fn posted(index: Postings, key: Seq<char>, id: Seq<char>) -> Postings {
    index.insert(key, posted_under(index, key).push(id))
}

/// The index after `id` is posted under each of `keys` in turn.
pub open spec fn posted_all(index: Postings, keys: Seq<Seq<char>>, id: Seq<char>) -> Postings
    decreases keys.len(),
{
    if keys.len() == 0 {
        index
    } else {
        posted(posted_all(index, keys.drop_last(), id), keys.last(), id)
    }
}

/// `list` without every occurrence of `id`.
pub open spec fn without_id(list: Seq<Seq<char>>, id: Seq<char>) -> Seq<Seq<char>>
    decreases list.len(),
{
    if list.len() == 0 {
        Seq::empty()
    } else if list.last() == id {
        without_id(list.drop_last(), id)
    } else {
        without_id(list.drop_last(), id).push(list.last())
    }
}

/// The index after `id` is scrubbed from the list under `key`; a list that is
/// left empty goes with its key.
pub open spec fn scrubbed(index: Postings, key: Seq<char>, id: Seq<char>) -> Postings {
    if !index.contains_key(key) {
        index
    } else if without_id(index[key], id).len() == 0 {
        index.remove(key)
    } else {
        index.insert(key, without_id(index[key], id))
    }
}

/// The index after `id` is scrubbed from under each of `keys` in turn.
pub open spec fn scrubbed_all(index: Postings, keys: Seq<Seq<char>>, id: Seq<char>) -> Postings
    decreases keys.len(),
{
    if keys.len() == 0 {
        index
    } else {
        scrubbed(scrubbed_all(index, keys.drop_last(), id), keys.last(), id)
    }
}

/// The words under which a document is indexed: those of its lowercased
/// name, each once, in the order in which they first stand.
pub open spec fn index_words(doc: DocView) -> Seq<Seq<char>> {
    first_occurrences(words(lowercased(doc.name)))
}

/// What the index holds: the documents in the order in which their ids first
/// came, the postings by word, and the postings by account.
pub struct IndexModel {
    pub docs: Seq<DocView>,
    pub words: Postings,
    pub accounts: Postings,
}

impl IndexModel {
    /// The empty index.
    pub open spec fn empty() -> IndexModel {
        IndexModel { docs: Seq::empty(), words: Map::empty(), accounts: Map::empty() }
    }

    /// Whether a document with this id is in the store.
    pub open spec fn has(self, id: Seq<char>) -> bool {
        ids_of(self.docs).contains(id)
    }

    /// The document with this id.
    pub open spec fn doc(self, id: Seq<char>) -> DocView
        recommends
            self.has(id),
    {
        self.docs[ids_of(self.docs).index_of(id)]
    }

    /// The index after `doc` is added: it takes the place of a document with
    /// the same id, whose postings stay; its id is posted once under each
    /// word of its lowercased name, however often the name holds the word,
    /// and once under its account.
    pub open spec fn added(self, doc: DocView) -> IndexModel {
        IndexModel {
            docs: store_put(self.docs, doc),
            words: posted_all(self.words, index_words(doc), doc.node_id),
            accounts: posted(self.accounts, doc.account_id, doc.node_id),
        }
    }

    /// What an exact search gives: the documents whose lowercased name holds
    /// the lowercased query, highest score first, documents of one score in
    /// the order of the store, cut down to `limit`.
    pub open spec fn exact_results(self, query: Seq<char>, limit: nat) -> Seq<HitView> {
        top(ranked(exact_hits(self.docs, lowercased(query))), limit)
    }

    /// What a prefix search gives: the documents whose lowercased name starts
    /// with the lowercased query and that are posted under a word that starts
    /// with a word of the query, in the order of the store, cut down to
    /// `limit`.
    pub open spec fn prefix_results(self, query: Seq<char>, limit: nat) -> Seq<HitView> {
        top(ranked(prefix_hits(self.words, self.docs, lowercased(query))), limit)
    }

    /// What a search within an account gives: the stored documents posted
    /// under the account, in the order of the posting, scored and ranked as in
    /// an exact search, cut down to `limit`.
    pub open spec fn account_results(
        self,
        query: Seq<char>,
        account_id: Seq<char>,
        limit: nat,
    ) -> Seq<HitView> {
        top(
            ranked(
                exact_hits(
                    docs_among(self.docs, posted_under(self.accounts, account_id)),
                    lowercased(query),
                ),
            ),
            limit,
        )
    }

    /// The index after the document with this id is removed: it leaves the
    /// store, and its id is scrubbed from under the words of its name and from
    /// under its account. Nothing changes where no document has the id.
    pub open spec fn removed(self, id: Seq<char>) -> IndexModel {
        if !self.has(id) {
            self
        } else {
            IndexModel {
                docs: store_without(self.docs, id),
                words: scrubbed_all(self.words, index_words(self.doc(id)), id),
                accounts: scrubbed(self.accounts, self.doc(id).account_id, id),
            }
        }
    }
}

/// The result that stands for a document with a score.
pub open spec fn hit_of(doc: DocView, score: nat) -> HitView {
    HitView {
        node_id: doc.node_id,
        name: doc.name,
        score,
        account_id: doc.account_id,
        provider: doc.provider,
    }
}

/// The documents whose lowercased name holds the lowercased query, each with
/// its score, in the order of the store.
pub open spec fn exact_hits(docs: Seq<DocView>, query: Seq<char>) -> Seq<HitView>
    decreases docs.len(),
{
    if docs.len() == 0 {
        Seq::empty()
    } else {
        let before = exact_hits(docs.drop_last(), query);
        match match_score(lowercased(docs.last().name), query) {
            Some(score) => before.push(hit_of(docs.last(), score)),
            None => before,
        }
    }
}

/// Whether `id` is posted under a word that starts with `token`.
pub open spec fn word_posted(index: Postings, token: Seq<char>, id: Seq<char>) -> bool {
    exists|key: Seq<char>| #[trigger]
        index.contains_key(key) && is_prefix(token, key) && index[key].contains(id)
}

/// Whether `id` is posted under a word that starts with one of `tokens`.
pub open spec fn some_word_posted(index: Postings, tokens: Seq<Seq<char>>, id: Seq<char>) -> bool {
    exists|i: int| 0 <= i < tokens.len() && #[trigger] word_posted(index, tokens[i], id)
}

/// Whether a prefix search for the lowercased `query` finds `doc`: its
/// lowercased name starts with the query, and its id is posted under a word
/// that starts with a word of the query.
pub open spec fn is_prefix_match(words_index: Postings, doc: DocView, query: Seq<char>) -> bool {
    is_prefix(query, lowercased(doc.name)) && some_word_posted(
        words_index,
        words(query),
        doc.node_id,
    )
}

/// The documents that a prefix search finds, each once, in the order of the
/// store, all with the same score.
pub open spec fn prefix_hits(words_index: Postings, docs: Seq<DocView>, query: Seq<char>) -> Seq<
    HitView,
>
    decreases docs.len(),
{
    if docs.len() == 0 {
        Seq::empty()
    } else {
        let before = prefix_hits(words_index, docs.drop_last(), query);
        if is_prefix_match(words_index, docs.last(), query) {
            before.push(hit_of(docs.last(), 95))
        } else {
            before
        }
    }
}

/// The stored documents among `ids`, in the order of `ids`.
pub open spec fn docs_among(docs: Seq<DocView>, ids: Seq<Seq<char>>) -> Seq<DocView>
    decreases ids.len(),
{
    if ids.len() == 0 {
        Seq::empty()
    } else {
        let before = docs_among(docs, ids.drop_last());
        if ids_of(docs).contains(ids.last()) {
            before.push(docs[ids_of(docs).index_of(ids.last())])
        } else {
            before
        }
    }
}

/// The views of the documents, in order.
pub open spec fn doc_views(docs: Seq<SearchDocument>) -> Seq<DocView> {
    Seq::new(docs.len(), |i: int| docs[i]@)
}

/// The postings that a map of id lists holds.
pub open spec fn postings_of(lists: Map<Seq<char>, Vec<String>>) -> Postings {
    Map::new(|k: Seq<char>| lists.contains_key(k), |k: Seq<char>| views_of(lists[k]@))
}

/// Posts `id` under `key` in `index`.
fn post(index: &mut StrMap<Vec<String>>, key: &str, id: &str)
    requires
        old(index).wf(),
    ensures
        final(index).wf(),
        postings_of(final(index)@) == posted(postings_of(old(index)@), key@, id@),
{
    let ghost before = postings_of(index@);
    match index.position(key) {
        Some(at) => {
            let mut list = index.replace_at(at, Vec::new());
            let ghost listed = views_of(list@);
            list.push(id.to_owned());
            assert(views_of(list@) =~= listed.push(id@));
            let _ = index.replace_at(at, list);
            assert(postings_of(index@) =~= posted(before, key@, id@));
        },
        None => {
            let mut list: Vec<String> = Vec::new();
            list.push(id.to_owned());
            assert(views_of(list@) =~= Seq::<Seq<char>>::empty().push(id@));
            let _ = index.insert(key.to_owned(), list);
            assert(postings_of(index@) =~= posted(before, key@, id@));
        },
    }
}

/// The strings of `list` that are not `id`, in order.
fn others(list: &Vec<String>, id: &str) -> (kept: Vec<String>)
    ensures
        views_of(kept@) == without_id(views_of(list@), id@),
{
    let mut kept: Vec<String> = Vec::new();
    let n = list.len();
    let mut i: usize = 0;
    assert(views_of(list@).take(0) =~= Seq::<Seq<char>>::empty());
    assert(views_of(kept@) =~= Seq::<Seq<char>>::empty());
    while i < n
        invariant
            n == list@.len(),
            i <= n,
            views_of(kept@) == without_id(views_of(list@).take(i as int), id@),
        decreases n - i,
    {
        let ghost before = views_of(kept@);
        let ghost prefix = views_of(list@).take(i + 1);
        assert(prefix.drop_last() =~= views_of(list@).take(i as int));
        assert(prefix.last() == list@[i as int]@);
        if !same_str(list[i].as_str(), id) {
            kept.push(list[i].clone());
            assert(views_of(kept@) =~= before.push(list@[i as int]@));
        }
        i += 1;
    }
    assert(views_of(list@).take(n as int) =~= views_of(list@));
    kept
}

/// Scrubs `id` from the list under `key` in `index`.
fn scrub(index: &mut StrMap<Vec<String>>, key: &str, id: &str)
    requires
        old(index).wf(),
    ensures
        final(index).wf(),
        postings_of(final(index)@) == scrubbed(postings_of(old(index)@), key@, id@),
{
    let ghost before = postings_of(index@);
    match index.position(key) {
        Some(at) => {
            let kept = others(index.value_at(at), id);
            if kept.len() == 0 {
                let _ = index.remove_at(at);
                assert(postings_of(index@) =~= scrubbed(before, key@, id@));
            } else {
                let _ = index.replace_at(at, kept);
                assert(postings_of(index@) =~= scrubbed(before, key@, id@));
            }
        },
        None => {
            assert(postings_of(index@) =~= scrubbed(before, key@, id@));
        },
    }
}

/// Whether `id` is in `list`.
fn holds(list: &Vec<String>, id: &str) -> (found: bool)
    ensures
        found == views_of(list@).contains(id@),
{
    let n = list.len();
    let mut i: usize = 0;
    while i < n
        invariant
            n == list@.len(),
            i <= n,
            forall|j: int| 0 <= j < i ==> views_of(list@)[j] != id@,
        decreases n - i,
    {
        if same_str(list[i].as_str(), id) {
            assert(views_of(list@)[i as int] == id@);
            return true;
        }
        i += 1;
    }
    false
}

/// Whether `id` is posted in `index` under a word that starts with `token`.
fn is_posted(index: &StrMap<Vec<String>>, token: &str, id: &str) -> (found: bool)
    requires
        index.wf(),
    ensures
        found == word_posted(postings_of(index@), token@, id@),
{
    let start = chars_of(token);
    let n = index.len();
    let mut k: usize = 0;
    while k < n
        invariant
            index.wf(),
            n == index.keys().len(),
            k <= n,
            start@ == token@,
            forall|j: int|
                0 <= j < k ==> !(is_prefix(token@, #[trigger] index.keys()[j]) && views_of(
                    index.values()[j]@,
                ).contains(id@)),
        decreases n - k,
    {
        let key = chars_of(index.key_at(k).as_str());
        if starts_with(key.as_slice(), start.as_slice()) && holds(index.value_at(k), id) {
            proof {
                let witness = index.keys()[k as int];
                assert(postings_of(index@).contains_key(witness));
                assert(postings_of(index@)[witness].contains(id@));
            }
            return true;
        }
        k += 1;
    }
    proof {
        if word_posted(postings_of(index@), token@, id@) {
            let key = choose|key: Seq<char>| #[trigger]
                postings_of(index@).contains_key(key) && is_prefix(token@, key) && postings_of(
                    index@,
                )[key].contains(id@);
            let j = index.keys().index_of(key);
            assert(0 <= j < n && index.keys()[j] == key);
        }
    }
    false
}

/// The result for `doc` in an exact search for the lowercased query `query`,
/// if its name holds the query.
fn exact_hit(doc: &SearchDocument, query: &[char]) -> (hit: Option<SearchResult>)
    ensures
        match hit {
            Some(h) => match_score(lowercased(doc@.name), query@) == Some(h@.score) && h@
                == hit_of(doc@, h@.score),
            None => match_score(lowercased(doc@.name), query@) is None,
        },
{
    let name_lower = doc.name.as_str().to_lowercase();
    let name = chars_of(name_lower.as_str());
    match score_of(name.as_slice(), query) {
        Some(score) => Some(
            SearchResult {
                node_id: doc.node_id.clone(),
                name: doc.name.clone(),
                score,
                account_id: doc.account_id.clone(),
                provider: doc.provider.clone(),
            },
        ),
        None => None,
    }
}

/// The views of the documents referred to, in order.
pub open spec fn ref_views(docs: Seq<&SearchDocument>) -> Seq<DocView> {
    Seq::new(docs.len(), |i: int| docs[i]@)
}

/// An in-memory index of documents: the store, keyed by node id, with the
/// inverted index by word of the lowercased name and the index by account.
pub struct SearchIndex {
    documents: StrMap<SearchDocument>,
    name_index: StrMap<Vec<String>>,
    account_index: StrMap<Vec<String>>,
}

impl SearchIndex {
    /// Whether the index is in order: its parts fit together, and what it
    /// holds is in shape: no two documents share an id, no posting list is
    /// empty, and every document is posted under each word of its lowercased
    /// name. Every operation asks for it and keeps it.
    pub closed spec fn wf(&self) -> bool {
        self.structure_ok() && in_shape(self@)
    }

    /// Whether the parts of the index fit together: each document is stored
    /// under its own id.
    closed spec fn structure_ok(&self) -> bool {
        &&& self.documents.wf()
        &&& self.name_index.wf()
        &&& self.account_index.wf()
        &&& forall|i: int|
            0 <= i < self.documents.keys().len() ==> self.documents.keys()[i]
                == (#[trigger] self.documents.values()[i]).node_id@
    }

    /// What the index holds.
    pub closed spec fn view(&self) -> IndexModel {
        IndexModel {
            docs: doc_views(self.documents.values()),
            words: postings_of(self.name_index@),
            accounts: postings_of(self.account_index@),
        }
    }

    /// What an index in order holds is in shape.
    pub proof fn lemma_in_shape(&self)
        requires
            self.wf(),
        ensures
            in_shape(self@),
    {
    }

    /// The ids of the stored documents are the keys of the store.
    proof fn lemma_ids(&self)
        requires
            self.structure_ok(),
        ensures
            ids_of(self@.docs) == self.documents.keys(),
    {
        assert(ids_of(self@.docs) =~= self.documents.keys());
    }

    /// An empty index.
    pub fn new() -> (index: Self)
        ensures
            index.wf(),
            index@ == IndexModel::empty(),
    {
        let index = SearchIndex {
            documents: StrMap::new(),
            name_index: StrMap::new(),
            account_index: StrMap::new(),
        };
        proof {
            assert(index@.docs =~= Seq::<DocView>::empty());
            assert(index@.words =~= Map::<Seq<char>, Seq<Seq<char>>>::empty());
            assert(index@.accounts =~= Map::<Seq<char>, Seq<Seq<char>>>::empty());
            assert(index@ == IndexModel::empty());
            lemma_empty_in_shape();
        }
        index
    }

    /// Adds a document: to the store, once under each word of its lowercased
    /// name, however often the name holds the word, and under its account. A
    /// document with the same id is replaced in the store; what was posted
    /// for it stays.
    pub fn add_document(&mut self, doc: SearchDocument)
        requires
            old(self).wf(),
        ensures
            final(self).wf(),
            final(self)@ == old(self)@.added(doc@),
    {
        let node_id = doc.node_id.clone();
        let account_id = doc.account_id.clone();
        let name_lower = doc.name.as_str().to_lowercase();
        let tokens = distinct_words(&split_words(name_lower.as_str()));
        let ghost before = self@;
        let ghost view = doc@;
        proof {
            self.lemma_ids();
        }
        let ghost keys = self.documents.keys();
        let ghost values = self.documents.values();
        let replaced = self.documents.insert(doc.node_id.clone(), doc);
        proof {
            match replaced {
                Some(_) => {
                    let at = keys.index_of(view.node_id);
                    assert(doc_views(self.documents.values()) =~= before.docs.update(at, view));
                },
                None => {
                    assert(doc_views(self.documents.values()) =~= before.docs.push(view));
                },
            }
            assert(views_of(tokens@).take(0) =~= Seq::<Seq<char>>::empty());
        }
        let n = tokens.len();
        let mut i: usize = 0;
        while i < n
            invariant
                n == tokens@.len(),
                i <= n,
                node_id@ == view.node_id,
                self.structure_ok(),
                self@.docs == store_put(before.docs, view),
                self@.accounts == before.accounts,
                self@.words == posted_all(
                    before.words,
                    views_of(tokens@).take(i as int),
                    view.node_id,
                ),
            decreases n - i,
        {
            let ghost prefix = views_of(tokens@).take(i + 1);
            assert(prefix.drop_last() =~= views_of(tokens@).take(i as int));
            assert(prefix.last() == tokens@[i as int]@);
            post(&mut self.name_index, tokens[i].as_str(), node_id.as_str());
            i += 1;
        }
        assert(views_of(tokens@).take(n as int) =~= views_of(tokens@));
        post(&mut self.account_index, account_id.as_str(), node_id.as_str());
        proof {
            lemma_added_in_shape(before, view);
        }
    }

    /// Removes the document with this id and hands it back: from the store,
    /// from under the words of its name, and from under its account. Nothing
    /// changes and nothing comes back where no document has the id.
    pub fn remove_document(&mut self, node_id: &str) -> (removed: Option<SearchDocument>)
        requires
            old(self).wf(),
        ensures
            final(self).wf(),
            final(self)@ == old(self)@.removed(node_id@),
            removed is Some <==> old(self)@.has(node_id@),
            removed is Some ==> removed->0@ == old(self)@.doc(node_id@),
    {
        let ghost before = self@;
        proof {
            self.lemma_ids();
        }
        let ghost keys = self.documents.keys();
        proof {
            lemma_removed_in_shape(before, node_id@);
        }
        let doc = match self.documents.remove(node_id) {
            Some(doc) => doc,
            None => {
                return None;
            },
        };
        let ghost view = doc@;
        proof {
            let at = keys.index_of(node_id@);
            assert(doc_views(self.documents.values()) =~= before.docs.remove(at));
            assert(view == before.doc(node_id@));
        }
        let name_lower = doc.name.as_str().to_lowercase();
        let tokens = distinct_words(&split_words(name_lower.as_str()));
        assert(views_of(tokens@).take(0) =~= Seq::<Seq<char>>::empty());
        let n = tokens.len();
        let mut i: usize = 0;
        while i < n
            invariant
                n == tokens@.len(),
                i <= n,
                self.structure_ok(),
                self@.docs == store_without(before.docs, node_id@),
                self@.accounts == before.accounts,
                self@.words == scrubbed_all(
                    before.words,
                    views_of(tokens@).take(i as int),
                    node_id@,
                ),
            decreases n - i,
        {
            let ghost prefix = views_of(tokens@).take(i + 1);
            assert(prefix.drop_last() =~= views_of(tokens@).take(i as int));
            assert(prefix.last() == tokens@[i as int]@);
            scrub(&mut self.name_index, tokens[i].as_str(), node_id);
            i += 1;
        }
        assert(views_of(tokens@).take(n as int) =~= views_of(tokens@));
        scrub(&mut self.account_index, doc.account_id.as_str(), node_id);
        Some(doc)
    }

    /// Drops every document and every posting.
    pub fn clear(&mut self)
        requires
            old(self).wf(),
        ensures
            final(self).wf(),
            final(self)@ == IndexModel::empty(),
    {
        self.documents.clear();
        self.name_index.clear();
        self.account_index.clear();
        proof {
            assert(self@.docs =~= Seq::<DocView>::empty());
            assert(self@.words =~= Map::<Seq<char>, Seq<Seq<char>>>::empty());
            assert(self@.accounts =~= Map::<Seq<char>, Seq<Seq<char>>>::empty());
            assert(self@ == IndexModel::empty());
            lemma_empty_in_shape();
        }
    }

    /// The document with this id, if the store has one.
    pub fn get(&self, node_id: &str) -> (doc: Option<&SearchDocument>)
        requires
            self.wf(),
        ensures
            doc is Some <==> self@.has(node_id@),
            doc is Some ==> doc->0@ == self@.doc(node_id@),
    {
        proof {
            self.lemma_ids();
        }
        match self.documents.position(node_id) {
            Some(at) => Some(self.documents.value_at(at)),
            None => None,
        }
    }

    /// Number of documents in the store.
    pub fn len(&self) -> (n: usize)
        requires
            self.wf(),
        ensures
            n == self@.docs.len(),
    {
        self.documents.len()
    }

    /// Whether the store is empty.
    pub fn is_empty(&self) -> (empty: bool)
        requires
            self.wf(),
        ensures
            empty == (self@.docs.len() == 0),
    {
        self.documents.is_empty()
    }
    /// The stored documents among `ids`, in the order of `ids`.
    fn stored_among(&self, ids: &Vec<String>) -> (found: Vec<&SearchDocument>)
        requires
            self.wf(),
        ensures
            ref_views(found@) == docs_among(self@.docs, views_of(ids@)),
    {
        let mut found: Vec<&SearchDocument> = Vec::new();
        let n = ids.len();
        let mut i: usize = 0;
        proof {
            self.lemma_ids();
            assert(views_of(ids@).take(0) =~= Seq::<Seq<char>>::empty());
            assert(ref_views(found@) =~= Seq::<DocView>::empty());
        }
        while i < n
            invariant
                self.wf(),
                n == ids@.len(),
                i <= n,
                ids_of(self@.docs) == self.documents.keys(),
                ref_views(found@) == docs_among(self@.docs, views_of(ids@).take(i as int)),
            decreases n - i,
        {
            let ghost before = ref_views(found@);
            let ghost prefix = views_of(ids@).take(i + 1);
            assert(prefix.drop_last() =~= views_of(ids@).take(i as int));
            assert(prefix.last() == ids@[i as int]@);
            match self.documents.position(ids[i].as_str()) {
                Some(at) => {
                    let doc = self.documents.value_at(at);
                    found.push(doc);
                    assert(ref_views(found@) =~= before.push(doc@));
                },
                None => {},
            }
            i += 1;
        }
        assert(views_of(ids@).take(n as int) =~= views_of(ids@));
        found
    }

    /// The results for the documents given, in an exact search for the
    /// lowercased query `query`.
    fn hits_among(docs: &Vec<&SearchDocument>, query: &[char]) -> (hits: Vec<SearchResult>)
        ensures
            hit_views(hits@) == exact_hits(ref_views(docs@), query@),
    {
        let mut hits: Vec<SearchResult> = Vec::new();
        let n = docs.len();
        let mut i: usize = 0;
        proof {
            assert(ref_views(docs@).take(0) =~= Seq::<DocView>::empty());
            assert(hit_views(hits@) =~= Seq::<HitView>::empty());
        }
        while i < n
            invariant
                n == docs@.len(),
                i <= n,
                hit_views(hits@) == exact_hits(ref_views(docs@).take(i as int), query@),
            decreases n - i,
        {
            let ghost before = hit_views(hits@);
            let ghost prefix = ref_views(docs@).take(i + 1);
            assert(prefix.drop_last() =~= ref_views(docs@).take(i as int));
            assert(prefix.last() == docs@[i as int]@);
            match exact_hit(docs[i], query) {
                Some(hit) => {
                    hits.push(hit);
                    assert(hit_views(hits@) =~= before.push(hit@));
                },
                None => {},
            }
            i += 1;
        }
        assert(ref_views(docs@).take(n as int) =~= ref_views(docs@));
        hits
    }

    /// All stored documents, in the order of the store.
    pub fn documents(&self) -> (found: Vec<&SearchDocument>)
        requires
            self.wf(),
        ensures
            ref_views(found@) == self@.docs,
    {
        let mut found: Vec<&SearchDocument> = Vec::new();
        let n = self.documents.len();
        let mut i: usize = 0;
        while i < n
            invariant
                self.wf(),
                n == self.documents.keys().len(),
                i <= n,
                ref_views(found@) == self@.docs.take(i as int),
            decreases n - i,
        {
            let ghost before = ref_views(found@);
            let doc = self.documents.value_at(i);
            found.push(doc);
            assert(ref_views(found@) =~= before.push(doc@));
            assert(self@.docs.take(i + 1) =~= self@.docs.take(i as int).push(doc@));
            i += 1;
        }
        assert(self@.docs.take(n as int) =~= self@.docs);
        found
    }

    /// Searches the names for the query, both lowercased. A document whose
    /// name holds the query scores 100 where the name is the query, 90 where
    /// it starts with it, and else 70, plus 5 where the first match follows a
    /// space. The results come highest score first, documents of one score in
    /// the order of the store, and no more than `limit` of them.
    pub fn search_exact(&self, query: &str, limit: usize) -> (results: Vec<SearchResult>)
        requires
            self.wf(),
        ensures
            hit_views(results@) == self@.exact_results(query@, limit as nat),
    {
        let query_lower = query.to_lowercase();
        let q = chars_of(query_lower.as_str());
        let docs = self.documents();
        let hits = Self::hits_among(&docs, q.as_slice());
        let mut results = rank(&hits);
        keep_top(&mut results, limit);
        results
    }

    /// Searches for documents whose lowercased name starts with the lowercased
    /// query, by way of the word index: a document is found where its id is
    /// posted under a word that starts with a word of the query. Each document
    /// is found once and scores 95; the results come in the order of the
    /// store, and no more than `limit` of them.
    pub fn search_prefix(&self, query: &str, limit: usize) -> (results: Vec<SearchResult>)
        requires
            self.wf(),
        ensures
            hit_views(results@) == self@.prefix_results(query@, limit as nat),
    {
        let query_lower = query.to_lowercase();
        let q = chars_of(query_lower.as_str());
        let tokens = split_words(query_lower.as_str());
        let mut hits: Vec<SearchResult> = Vec::new();
        let n = self.documents.len();
        let mut i: usize = 0;
        proof {
            assert(self@.docs.take(0) =~= Seq::<DocView>::empty());
            assert(hit_views(hits@) =~= Seq::<HitView>::empty());
        }
        while i < n
            invariant
                self.wf(),
                n == self.documents.keys().len(),
                i <= n,
                q@ == lowercased(query@),
                views_of(tokens@) == words(lowercased(query@)),
                hit_views(hits@) == prefix_hits(
                    self@.words,
                    self@.docs.take(i as int),
                    lowercased(query@),
                ),
            decreases n - i,
        {
            let ghost before = hit_views(hits@);
            let doc = self.documents.value_at(i);
            let ghost prefix = self@.docs.take(i + 1);
            assert(prefix.drop_last() =~= self@.docs.take(i as int));
            assert(prefix.last() == doc@);
            let name_lower = doc.name.as_str().to_lowercase();
            let name = chars_of(name_lower.as_str());
            if starts_with(name.as_slice(), q.as_slice()) && self.posted_for(&tokens, doc) {
                let hit = SearchResult {
                    node_id: doc.node_id.clone(),
                    name: doc.name.clone(),
                    score: SCORE_PREFIX,
                    account_id: doc.account_id.clone(),
                    provider: doc.provider.clone(),
                };
                hits.push(hit);
                assert(hit_views(hits@) =~= before.push(hit_of(doc@, 95)));
            }
            i += 1;
        }
        assert(self@.docs.take(n as int) =~= self@.docs);
        let mut results = rank(&hits);
        keep_top(&mut results, limit);
        results
    }

    /// Whether the id of `doc` is posted under a word that starts with one of
    /// `tokens`.
    fn posted_for(&self, tokens: &Vec<String>, doc: &SearchDocument) -> (found: bool)
        requires
            self.wf(),
        ensures
            found == some_word_posted(self@.words, views_of(tokens@), doc@.node_id),
    {
        let n = tokens.len();
        let mut i: usize = 0;
        while i < n
            invariant
                self.wf(),
                n == tokens@.len(),
                i <= n,
                forall|j: int|
                    0 <= j < i ==> !#[trigger] word_posted(
                        self@.words,
                        views_of(tokens@)[j],
                        doc@.node_id,
                    ),
            decreases n - i,
        {
            if is_posted(&self.name_index, tokens[i].as_str(), doc.node_id.as_str()) {
                assert(word_posted(self@.words, views_of(tokens@)[i as int], doc@.node_id));
                return true;
            }
            i += 1;
        }
        false
    }

    /// Searches the documents posted under an account, scored and ranked as in
    /// an exact search. A document occurs as often as its id is posted.
    pub fn search_by_account(&self, query: &str, account_id: &str, limit: usize) -> (results: Vec<
        SearchResult,
    >)
        requires
            self.wf(),
        ensures
            hit_views(results@) == self@.account_results(query@, account_id@, limit as nat),
    {
        let query_lower = query.to_lowercase();
        let q = chars_of(query_lower.as_str());
        let docs = self.get_by_account(account_id);
        let hits = Self::hits_among(&docs, q.as_slice());
        let mut results = rank(&hits);
        keep_top(&mut results, limit);
        results
    }

    /// The stored documents posted under an account, in the order of the
    /// posting.
    pub fn get_by_account(&self, account_id: &str) -> (docs: Vec<&SearchDocument>)
        requires
            self.wf(),
        ensures
            ref_views(docs@) == docs_among(self@.docs, posted_under(self@.accounts, account_id@)),
    {
        match self.account_index.get(account_id) {
            Some(ids) => self.stored_among(ids),
            None => {
                let docs: Vec<&SearchDocument> = Vec::new();
                assert(ref_views(docs@) =~= Seq::<DocView>::empty());
                docs
            },
        }
    }
}

/// The index after each of `docs` is added in turn.
pub open spec fn loaded(index: IndexModel, docs: Seq<DocView>) -> IndexModel
    decreases docs.len(),
{
    if docs.len() == 0 {
        index
    } else {
        loaded(index, docs.drop_last()).added(docs.last())
    }
}

/// A search index that is kept in a file. The index decides what is kept;
/// the host reads and writes the file.
pub struct PersistentSearchIndex {
    index: SearchIndex,
    path: String,
}

impl PersistentSearchIndex {
    /// Whether the index is in order. Every operation asks for it and keeps
    /// it.
    pub closed spec fn wf(&self) -> bool {
        self.index.wf()
    }

    /// What the index holds.
    pub closed spec fn view(&self) -> IndexModel {
        self.index@
    }

    /// Where the index is kept.
    pub closed spec fn path_view(&self) -> Seq<char> {
        self.path@
    }

    /// An empty index that is kept at `path`. Documents that the host found
    /// there are handed to [`Self::restore`].
    pub fn new(path: String) -> (index: Self)
        ensures
            index.wf(),
            index@ == IndexModel::empty(),
            index.path_view() == path@,
    {
        PersistentSearchIndex { index: SearchIndex::new(), path }
    }

    /// Where the index is kept.
    pub fn path(&self) -> (path: &str)
        ensures
            path@ == self.path_view(),
    {
        self.path.as_str()
    }

    /// Adds the documents that were kept, in the order given.
    pub fn restore(&mut self, docs: Vec<SearchDocument>)
        requires
            old(self).wf(),
        ensures
            final(self).wf(),
            final(self).path_view() == old(self).path_view(),
            final(self)@ == loaded(old(self)@, doc_views(docs@)),
    {
        let n = docs.len();
        let mut i: usize = 0;
        assert(doc_views(docs@).take(0) =~= Seq::<DocView>::empty());
        while i < n
            invariant
                n == docs@.len(),
                i <= n,
                self.wf(),
                self.path_view() == old(self).path_view(),
                self@ == loaded(old(self)@, doc_views(docs@).take(i as int)),
            decreases n - i,
        {
            let ghost prefix = doc_views(docs@).take(i + 1);
            assert(prefix.drop_last() =~= doc_views(docs@).take(i as int));
            assert(prefix.last() == docs@[i as int]@);
            self.index.add_document(docs[i].copy());
            i += 1;
        }
        assert(doc_views(docs@).take(n as int) =~= doc_views(docs@));
    }

    /// Adds a document; the host then writes the index out.
    pub fn add_document(&mut self, doc: SearchDocument)
        requires
            old(self).wf(),
        ensures
            final(self).wf(),
            final(self).path_view() == old(self).path_view(),
            final(self)@ == old(self)@.added(doc@),
    {
        self.index.add_document(doc);
    }

    /// Removes a document; the host then writes the index out.
    pub fn remove_document(&mut self, node_id: &str) -> (removed: Option<SearchDocument>)
        requires
            old(self).wf(),
        ensures
            final(self).wf(),
            final(self).path_view() == old(self).path_view(),
            final(self)@ == old(self)@.removed(node_id@),
            removed is Some <==> old(self)@.has(node_id@),
            removed is Some ==> removed->0@ == old(self)@.doc(node_id@),
    {
        self.index.remove_document(node_id)
    }

    /// Drops every document; the host then writes the index out.
    pub fn clear(&mut self)
        requires
            old(self).wf(),
        ensures
            final(self).wf(),
            final(self).path_view() == old(self).path_view(),
            final(self)@ == IndexModel::empty(),
    {
        self.index.clear();
    }

    /// The index.
    pub fn inner(&self) -> (index: &SearchIndex)
        requires
            self.wf(),
        ensures
            index.wf(),
            index@ == self@,
    {
        &self.index
    }

    /// The index, to change it in place.
    pub fn inner_mut(&mut self) -> (index: &mut SearchIndex)
        requires
            old(self).wf(),
        ensures
            index.wf(),
            index@ == old(self)@,
            final(index).wf() ==> final(self).wf(),
            final(self)@ == final(index)@,
            final(self).path_view() == old(self).path_view(),
    {
        &mut self.index
    }
}

} // verus!
