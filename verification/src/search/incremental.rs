//! Incremental updates of an index, with a record of what changed.

use crate::search::index::{DocView, IndexModel, SearchDocument, SearchIndex};
use crate::str_map::StrMap;
use crate::str_set::StrSet;
use vstd::prelude::*;

verus! {

/// One change to apply to an index.
#[derive(Debug, Clone, PartialEq)]
pub enum DocumentChange {
    /// A document that is new.
    Added(SearchDocument),
    /// A document that takes the place of the one with its id.
    Modified(SearchDocument),
    /// The id of a document that is gone.
    Removed(String),
}

/// What a change says, as plain values.
pub enum ChangeView {
    Added(DocView),
    Modified(DocView),
    Removed(Seq<char>),
}

impl View for DocumentChange {
    type V = ChangeView;

    open spec fn view(&self) -> ChangeView {
        match self {
            DocumentChange::Added(doc) => ChangeView::Added(doc@),
            DocumentChange::Modified(doc) => ChangeView::Modified(doc@),
            DocumentChange::Removed(id) => ChangeView::Removed(id@),
        }
    }
}

/// The views of the changes, in order.
pub open spec fn change_views(changes: Seq<DocumentChange>) -> Seq<ChangeView> {
    Seq::new(changes.len(), |i: int| changes[i]@)
}

/// What an incremental indexer holds: the index, the ids of the documents
/// that were put into it and not taken out since, the ids that changed since
/// changes were last applied, the file of each node, and where the state is
/// kept.
pub struct IncrementalModel {
    pub index: IndexModel,
    pub processed: Set<Seq<char>>,
    pub changed: Set<Seq<char>>,
    pub files: Map<Seq<char>, Seq<char>>,
    pub persistence_path: Option<Seq<char>>,
}

impl IncrementalModel {
    /// The indexer after one change. An added or modified document is in the
    /// index and among the processed ids; a modified one has first been taken
    /// out. A removed id is out of both.
    pub open spec fn applied(self, change: ChangeView) -> IncrementalModel {
        match change {
            ChangeView::Added(doc) => IncrementalModel {
                index: self.index.added(doc),
                processed: self.processed.insert(doc.node_id),
                ..self
            },
            ChangeView::Modified(doc) => IncrementalModel {
                index: self.index.removed(doc.node_id).added(doc),
                processed: self.processed.insert(doc.node_id),
                ..self
            },
            ChangeView::Removed(id) => IncrementalModel {
                index: self.index.removed(id),
                processed: self.processed.remove(id),
                ..self
            },
        }
    }

    /// The indexer after each of `changes`, in order.
    pub open spec fn applied_all(self, changes: Seq<ChangeView>) -> IncrementalModel
        decreases changes.len(),
    {
        if changes.len() == 0 {
            self
        } else {
            self.applied_all(changes.drop_last()).applied(changes.last())
        }
    }
}

/// The character sequences that a map of strings holds.
pub open spec fn string_views(strings: Map<Seq<char>, String>) -> Map<Seq<char>, Seq<char>> {
    Map::new(|k: Seq<char>| strings.contains_key(k), |k: Seq<char>| strings[k]@)
}

/// An index that is updated change by change and keeps track of the ids that
/// it has taken in and of those that changed.
pub struct IncrementalIndexer {
    index: SearchIndex,
    processed_ids: StrSet,
    changed_ids: StrSet,
    node_file_map: StrMap<String>,
    persistence_path: Option<String>,
}

impl IncrementalIndexer {
    /// Whether the indexer is in order. Every operation asks for it and
    /// keeps it.
    pub closed spec fn wf(&self) -> bool {
        &&& self.index.wf()
        &&& self.processed_ids.wf()
        &&& self.changed_ids.wf()
        &&& self.node_file_map.wf()
    }

    /// What the indexer holds.
    pub closed spec fn view(&self) -> IncrementalModel {
        IncrementalModel {
            index: self.index@,
            processed: self.processed_ids@,
            changed: self.changed_ids@,
            files: string_views(self.node_file_map@),
            persistence_path: match self.persistence_path {
                Some(path) => Some(path@),
                None => None,
            },
        }
    }

    /// The processed ids, in the order in which they came.
    pub closed spec fn processed_order(&self) -> Seq<Seq<char>> {
        self.processed_ids.members()
    }

    /// The ids that changed, in the order in which they were first marked.
    pub closed spec fn pending_order(&self) -> Seq<Seq<char>> {
        self.changed_ids.members()
    }

    /// An indexer with an empty index and no state kept anywhere.
    pub fn new() -> (indexer: Self)
        ensures
            indexer.wf(),
            indexer@ == (IncrementalModel {
                index: IndexModel::empty(),
                processed: Set::empty(),
                changed: Set::empty(),
                files: Map::empty(),
                persistence_path: None,
            }),
    {
        let indexer = IncrementalIndexer {
            index: SearchIndex::new(),
            processed_ids: StrSet::new(),
            changed_ids: StrSet::new(),
            node_file_map: StrMap::new(),
            persistence_path: None,
        };
        assert(indexer@.files =~= Map::<Seq<char>, Seq<char>>::empty());
        indexer
    }

    /// An empty indexer whose state is kept at `path`. Reading what is kept
    /// there is left to the caller, who hands it to [`Self::restore_state`].
    pub fn with_persistence(path: String) -> (indexer: Self)
        ensures
            indexer.wf(),
            indexer@ == (IncrementalModel {
                index: IndexModel::empty(),
                processed: Set::empty(),
                changed: Set::empty(),
                files: Map::empty(),
                persistence_path: Some(path@),
            }),
    {
        let indexer = IncrementalIndexer {
            index: SearchIndex::new(),
            processed_ids: StrSet::new(),
            changed_ids: StrSet::new(),
            node_file_map: StrMap::new(),
            persistence_path: Some(path),
        };
        assert(indexer@.files =~= Map::<Seq<char>, Seq<char>>::empty());
        indexer
    }

    /// Where the state is kept, if anywhere.
    pub fn persistence_path(&self) -> (path: Option<&String>)
        ensures
            match path {
                Some(p) => self@.persistence_path == Some(p@),
                None => self@.persistence_path is None,
            },
    {
        match &self.persistence_path {
            Some(path) => Some(path),
            None => None,
        }
    }

    /// Marks a document as changed: it waits to be indexed again.
    pub fn mark_changed(&mut self, node_id: String)
        requires
            old(self).wf(),
        ensures
            final(self).wf(),
            final(self)@ == (IncrementalModel {
                changed: old(self)@.changed.insert(node_id@),
                ..old(self)@
            }),
    {
        let _ = self.changed_ids.insert(node_id);
    }

    /// Adds a document to the index, and its id to the processed and to the
    /// changed ids.
    pub fn mark_added(&mut self, doc: SearchDocument)
        requires
            old(self).wf(),
        ensures
            final(self).wf(),
            final(self)@ == (IncrementalModel {
                index: old(self)@.index.added(doc@),
                processed: old(self)@.processed.insert(doc@.node_id),
                changed: old(self)@.changed.insert(doc@.node_id),
                ..old(self)@
            }),
    {
        let _ = self.changed_ids.insert(doc.node_id.clone());
        let _ = self.processed_ids.insert(doc.node_id.clone());
        self.index.add_document(doc);
    }

    /// Removes a document from the index and its id from the processed ids,
    /// and marks the id as changed.
    pub fn mark_removed(&mut self, node_id: &str)
        requires
            old(self).wf(),
        ensures
            final(self).wf(),
            final(self)@ == (IncrementalModel {
                index: old(self)@.index.removed(node_id@),
                processed: old(self)@.processed.remove(node_id@),
                changed: old(self)@.changed.insert(node_id@),
                ..old(self)@
            }),
    {
        let _ = self.changed_ids.insert(node_id.to_owned());
        let _ = self.processed_ids.remove(node_id);
        let _ = self.index.remove_document(node_id);
    }

    /// Applies one change to the index and to the processed ids.
    fn apply_change(&mut self, change: &DocumentChange)
        requires
            old(self).wf(),
        ensures
            final(self).wf(),
            final(self)@ == old(self)@.applied(change@),
    {
        match change {
            DocumentChange::Added(doc) => {
                let _ = self.processed_ids.insert(doc.node_id.clone());
                self.index.add_document(doc.copy());
            },
            DocumentChange::Modified(doc) => {
                let _ = self.processed_ids.insert(doc.node_id.clone());
                let _ = self.index.remove_document(doc.node_id.as_str());
                self.index.add_document(doc.copy());
            },
            DocumentChange::Removed(node_id) => {
                let _ = self.processed_ids.remove(node_id.as_str());
                let _ = self.index.remove_document(node_id.as_str());
            },
        }
    }

    /// Applies the changes in order; after that no id counts as changed.
    pub fn apply_changes(&mut self, changes: &[DocumentChange])
        requires
            old(self).wf(),
        ensures
            final(self).wf(),
            final(self)@ == (IncrementalModel {
                changed: Set::empty(),
                ..old(self)@.applied_all(change_views(changes@))
            }),
    {
        let n = changes.len();
        let mut i: usize = 0;
        assert(change_views(changes@).take(0) =~= Seq::<ChangeView>::empty());
        while i < n
            invariant
                n == changes@.len(),
                i <= n,
                self.wf(),
                self@ == old(self)@.applied_all(change_views(changes@).take(i as int)),
            decreases n - i,
        {
            let ghost prefix = change_views(changes@).take(i + 1);
            assert(prefix.drop_last() =~= change_views(changes@).take(i as int));
            assert(prefix.last() == changes@[i as int]@);
            self.apply_change(&changes[i]);
            i += 1;
        }
        assert(change_views(changes@).take(n as int) =~= change_views(changes@));
        self.changed_ids.clear();
    }

    /// The ids that changed since changes were last applied, each once, in
    /// the order in which they were first marked.
    pub fn get_pending_changes(&self) -> (pending: Vec<&String>)
        requires
            self.wf(),
        ensures
            pending@.len() == self.pending_order().len(),
            forall|i: int|
                0 <= i < pending@.len() ==> (#[trigger] pending@[i])@ == self.pending_order()[i],
            forall|i: int| 0 <= i < pending@.len() ==> self@.changed.contains(pending@[i]@),
            forall|i: int, j: int|
                0 <= i < j < pending@.len() ==> (#[trigger] pending@[i])@ != (
                #[trigger] pending@[j])@,
            pending@.len() == self@.changed.len(),
    {
        proof {
            self.changed_ids.lemma_members();
        }
        let mut pending: Vec<&String> = Vec::new();
        let n = self.changed_ids.len();
        let mut i: usize = 0;
        while i < n
            invariant
                self.wf(),
                n == self.changed_ids.members().len(),
                n == self@.changed.len(),
                i <= n,
                pending@.len() == i,
                forall|j: int|
                    0 <= j < i ==> (#[trigger] pending@[j])@ == self.changed_ids.members()[j],
                forall|j: int| 0 <= j < i ==> self@.changed.contains(pending@[j]@),
            decreases n - i,
        {
            pending.push(self.changed_ids.member_at(i));
            i += 1;
        }
        pending
    }

    /// Whether some id changed since changes were last applied.
    pub fn has_pending_changes(&self) -> (pending: bool)
        requires
            self.wf(),
        ensures
            pending == (self@.changed.len() > 0),
    {
        !self.changed_ids.is_empty()
    }

    /// Number of ids that changed since changes were last applied.
    pub fn changed_count(&self) -> (n: usize)
        requires
            self.wf(),
        ensures
            n == self@.changed.len(),
    {
        self.changed_ids.len()
    }

    /// Number of ids that are in the index by way of this indexer.
    pub fn processed_count(&self) -> (n: usize)
        requires
            self.wf(),
        ensures
            n == self@.processed.len(),
    {
        self.processed_ids.len()
    }

    /// The index.
    pub fn inner(&self) -> (index: &SearchIndex)
        requires
            self.wf(),
        ensures
            index.wf(),
            index@ == self@.index,
    {
        &self.index
    }

    /// The index, to change it in place. The record of ids is not touched.
    pub fn inner_mut(&mut self) -> (index: &mut SearchIndex)
        requires
            old(self).wf(),
        ensures
            index.wf(),
            index@ == old(self)@.index,
            final(index).wf() ==> final(self).wf(),
            final(self)@ == (IncrementalModel { index: final(index)@, ..old(self)@ }),
    {
        &mut self.index
    }

    /// The processed ids, in the order in which they came: what is kept of
    /// the state between runs.
    pub fn processed_ids(&self) -> (ids: Vec<String>)
        requires
            self.wf(),
        ensures
            ids@.len() == self@.processed.len(),
            forall|i: int| 0 <= i < ids@.len() ==> self@.processed.contains((#[trigger] ids@[i])@),
            forall|i: int, j: int|
                0 <= i < j < ids@.len() ==> (#[trigger] ids@[i])@ != (#[trigger] ids@[j])@,
            crate::text::views_of(ids@) == self.processed_order(),
    {
        proof {
            self.processed_ids.lemma_members();
        }
        let mut ids: Vec<String> = Vec::new();
        let n = self.processed_ids.len();
        let mut i: usize = 0;
        while i < n
            invariant
                self.wf(),
                n == self.processed_ids.members().len(),
                n == self@.processed.len(),
                i <= n,
                ids@.len() == i,
                forall|j: int| 0 <= j < i ==> self@.processed.contains((#[trigger] ids@[j])@),
                crate::text::views_of(ids@) == self.processed_ids.members().take(i as int),
            decreases n - i,
        {
            let ghost before = crate::text::views_of(ids@);
            let id = self.processed_ids.member_at(i).clone();
            ids.push(id);
            assert(crate::text::views_of(ids@) =~= before.push(id@));
            assert(self.processed_ids.members().take(i + 1) =~= self.processed_ids.members().take(
                i as int,
            ).push(id@));
            i += 1;
        }
        assert(self.processed_ids.members().take(n as int) =~= self.processed_ids.members());
        assert forall|i: int, j: int| 0 <= i < j < ids@.len() implies (#[trigger] ids@[i])@ != (
        #[trigger] ids@[j])@ by {
            assert(crate::text::views_of(ids@)[i] == ids@[i]@);
            assert(crate::text::views_of(ids@)[j] == ids@[j]@);
        }
        ids
    }

    /// Records the file of a node.
    pub fn set_node_file(&mut self, node_id: String, file: String)
        requires
            old(self).wf(),
        ensures
            final(self).wf(),
            final(self)@ == (IncrementalModel {
                files: old(self)@.files.insert(node_id@, file@),
                ..old(self)@
            }),
    {
        let ghost before = self@;
        let _ = self.node_file_map.insert(node_id, file);
        assert(self@.files =~= before.files.insert(node_id@, file@));
    }

    /// The file recorded for a node.
    pub fn node_file(&self, node_id: &str) -> (file: Option<&String>)
        requires
            self.wf(),
        ensures
            match file {
                Some(f) => self@.files.contains_key(node_id@) && self@.files[node_id@] == f@,
                None => !self@.files.contains_key(node_id@),
            },
    {
        self.node_file_map.get(node_id)
    }

    /// Puts back the processed ids that were kept between runs, in place of
    /// those at hand. The index and the changed ids are not touched.
    pub fn restore_state(&mut self, processed_ids: Vec<String>)
        requires
            old(self).wf(),
        ensures
            final(self).wf(),
            final(self)@ == (IncrementalModel {
                processed: crate::text::views_of(processed_ids@).to_set(),
                ..old(self)@
            }),
    {
        self.processed_ids.clear();
        let n = processed_ids.len();
        let mut i: usize = 0;
        let ghost views = crate::text::views_of(processed_ids@);
        assert(views.take(0).to_set() =~= Set::<Seq<char>>::empty());
        while i < n
            invariant
                n == processed_ids@.len(),
                i <= n,
                views == crate::text::views_of(processed_ids@),
                self.wf(),
                self@ == (IncrementalModel {
                    processed: views.take(i as int).to_set(),
                    ..old(self)@
                }),
            decreases n - i,
        {
            let _ = self.processed_ids.insert(processed_ids[i].clone());
            assert(views.take(i + 1).to_set() =~= views.take(i as int).to_set().insert(
                views[i as int],
            )) by {
                let a = views.take(i + 1);
                let b = views.take(i as int);
                assert(a =~= b.push(views[i as int]));
                assert forall|x: Seq<char>| a.to_set().contains(x) <==> b.to_set().insert(
                    views[i as int],
                ).contains(x) by {
                    if a.contains(x) {
                        let k = choose|k: int| 0 <= k < a.len() && a[k] == x;
                        if k < i {
                            assert(b[k] == x);
                        }
                    }
                    if b.contains(x) {
                        let k = choose|k: int| 0 <= k < b.len() && b[k] == x;
                        assert(a[k] == x);
                    }
                    if x == views[i as int] {
                        assert(a[i as int] == x);
                    }
                }
            }
            i += 1;
        }
        assert(views.take(n as int) =~= views);
    }

    /// Drops the index and every record.
    pub fn clear(&mut self)
        requires
            old(self).wf(),
        ensures
            final(self).wf(),
            final(self)@ == (IncrementalModel {
                index: IndexModel::empty(),
                processed: Set::empty(),
                changed: Set::empty(),
                files: Map::empty(),
                persistence_path: old(self)@.persistence_path,
            }),
    {
        self.index.clear();
        self.processed_ids.clear();
        self.changed_ids.clear();
        self.node_file_map.clear();
        assert(self@.files =~= Map::<Seq<char>, Seq<char>>::empty());
    }
}

} // verus!
