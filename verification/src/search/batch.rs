//! Bulk addition of documents in batches.

use crate::search::index::{DocView, IndexModel, SearchDocument, SearchIndex};
use vstd::prelude::*;

verus! {

/// The index after each of `docs` is added in turn.
pub open spec fn added_all(index: IndexModel, docs: Seq<DocView>) -> IndexModel
    decreases docs.len(),
{
    if docs.len() == 0 {
        index
    } else {
        added_all(index, docs.drop_last()).added(docs.last())
    }
}

/// The views of the documents, in order.
pub open spec fn batch_views(docs: Seq<SearchDocument>) -> Seq<DocView> {
    Seq::new(docs.len(), |i: int| docs[i]@)
}

/// The sum of two counts, held at the largest count there is.
pub open spec fn capped_sum(a: nat, b: nat) -> nat {
    if a + b > usize::MAX {
        usize::MAX as nat
    } else {
        a + b
    }
}

/// What a batch indexer holds: the index, the documents that wait for the
/// next flush, the size at which a batch is flushed, and the number of
/// documents flushed so far.
pub struct BatchModel {
    pub index: IndexModel,
    pub pending: Seq<DocView>,
    pub batch_size: nat,
    pub total_indexed: nat,
}

impl BatchModel {
    /// The indexer after a flush: the waiting documents are in the index, in
    /// their order, and are counted.
    pub open spec fn flushed(self) -> BatchModel {
        BatchModel {
            index: added_all(self.index, self.pending),
            pending: Seq::empty(),
            batch_size: self.batch_size,
            total_indexed: capped_sum(self.total_indexed, self.pending.len()),
        }
    }

    /// Whether a document that joins the batch fills it.
    pub open spec fn fills(self) -> bool {
        self.pending.len() + 1 >= self.batch_size
    }

    /// The indexer after `doc` is handed in: it joins the batch, and a batch
    /// that has reached its size is flushed.
    pub open spec fn pushed(self, doc: DocView) -> BatchModel {
        let waiting = BatchModel { pending: self.pending.push(doc), ..self };
        if self.fills() {
            waiting.flushed()
        } else {
            waiting
        }
    }

    /// The indexer after each of `docs` is handed in, in order.
    pub open spec fn pushed_all(self, docs: Seq<DocView>) -> BatchModel
        decreases docs.len(),
    {
        if docs.len() == 0 {
            self
        } else {
            self.pushed_all(docs.drop_last()).pushed(docs.last())
        }
    }
}

/// Collects documents and puts them into a search index one batch at a time.
pub struct BatchIndexer {
    index: SearchIndex,
    batch_size: usize,
    current_batch: Vec<SearchDocument>,
    total_indexed: usize,
}

/// Receives the progress of a batch operation.
pub trait BatchProgressCallback {
    fn on_progress(&self, processed: usize, total: usize);
}

impl BatchProgressCallback for () {
    fn on_progress(&self, _processed: usize, _total: usize) {
    }
}

impl BatchIndexer {
    /// Whether the indexer is in order. Every operation asks for it and
    /// keeps it.
    pub closed spec fn wf(&self) -> bool {
        self.index.wf()
    }

    /// What the indexer holds.
    pub closed spec fn view(&self) -> BatchModel {
        BatchModel {
            index: self.index@,
            pending: batch_views(self.current_batch@),
            batch_size: self.batch_size as nat,
            total_indexed: self.total_indexed as nat,
        }
    }

    /// An indexer with an empty index that flushes every `batch_size`
    /// documents.
    pub fn new(batch_size: usize) -> (indexer: Self)
        ensures
            indexer.wf(),
            indexer@ == (BatchModel {
                index: IndexModel::empty(),
                pending: Seq::empty(),
                batch_size: batch_size as nat,
                total_indexed: 0,
            }),
    {
        let indexer = BatchIndexer {
            index: SearchIndex::new(),
            batch_size,
            current_batch: Vec::new(),
            total_indexed: 0,
        };
        assert(indexer@.pending =~= Seq::<DocView>::empty());
        indexer
    }

    /// Hands in a document. It joins the batch; when the batch has reached its
    /// size it is flushed, and the result says so.
    pub fn add_document(&mut self, doc: SearchDocument) -> (flushed: bool)
        requires
            old(self).wf(),
        ensures
            final(self).wf(),
            final(self)@ == old(self)@.pushed(doc@),
            flushed == old(self)@.fills(),
    {
        let ghost before = self@;
        self.current_batch.push(doc);
        assert(self@.pending =~= before.pending.push(doc@));
        if self.current_batch.len() >= self.batch_size {
            let _ = self.flush();
            true
        } else {
            false
        }
    }

    /// Hands in each of `docs`, in order, and flushes what then waits: after
    /// this call all of them are in the index.
    pub fn add_documents(&mut self, docs: &[SearchDocument]) -> (result: Result<(), String>)
        requires
            old(self).wf(),
        ensures
            final(self).wf(),
            result is Ok,
            final(self)@ == old(self)@.pushed_all(batch_views(docs@)).flushed(),
    {
        let n = docs.len();
        let mut i: usize = 0;
        assert(batch_views(docs@).take(0) =~= Seq::<DocView>::empty());
        while i < n
            invariant
                n == docs@.len(),
                i <= n,
                self.wf(),
                self@ == old(self)@.pushed_all(batch_views(docs@).take(i as int)),
            decreases n - i,
        {
            let ghost prefix = batch_views(docs@).take(i + 1);
            assert(prefix.drop_last() =~= batch_views(docs@).take(i as int));
            assert(prefix.last() == docs@[i as int]@);
            let _ = self.add_document(docs[i].copy());
            i += 1;
        }
        assert(batch_views(docs@).take(n as int) =~= batch_views(docs@));
        let _ = self.flush();
        Ok(())
    }

    /// Puts the waiting documents into the index, in their order, and says
    /// how many they were.
    pub fn flush(&mut self) -> (result: Result<usize, String>)
        requires
            old(self).wf(),
        ensures
            final(self).wf(),
            final(self)@ == old(self)@.flushed(),
            result is Ok,
            result->Ok_0 == old(self)@.pending.len(),
    {
        let ghost before = self@;
        let count = self.current_batch.len();
        let mut done: usize = 0;
        assert(before.pending.take(0) =~= Seq::<DocView>::empty());
        assert(before.pending.skip(0) =~= before.pending);
        while self.current_batch.len() > 0
            invariant
                self.wf(),
                done + self.current_batch@.len() == count,
                count == before.pending.len(),
                self.batch_size == before.batch_size,
                self.total_indexed == before.total_indexed,
                batch_views(self.current_batch@) == before.pending.skip(done as int),
                self.index@ == added_all(before.index, before.pending.take(done as int)),
            decreases self.current_batch@.len(),
        {
            let ghost prefix = before.pending.take(done + 1);
            assert(prefix.drop_last() =~= before.pending.take(done as int));
            assert(prefix.last() == self.current_batch@[0]@) by {
                assert(batch_views(self.current_batch@)[0] == before.pending.skip(done as int)[0]);
            }
            let ghost waiting = batch_views(self.current_batch@);
            let doc = self.current_batch.remove(0);
            assert(batch_views(self.current_batch@) =~= waiting.remove(0));
            assert(waiting.remove(0) =~= before.pending.skip(done + 1));
            self.index.add_document(doc);
            done += 1;
        }
        assert(before.pending.take(count as int) =~= before.pending);
        assert(batch_views(self.current_batch@) =~= Seq::<DocView>::empty());
        self.total_indexed = self.total_indexed.saturating_add(count);
        Ok(count)
    }

    /// The index.
    pub fn inner(&self) -> (index: &SearchIndex)
        requires
            self.wf(),
        ensures
            index.wf(),
            index@ == self@.index,
    {
        &self.index
    }

    /// The index, to change it in place. What waits in the batch is not
    /// touched.
    pub fn inner_mut(&mut self) -> (index: &mut SearchIndex)
        requires
            old(self).wf(),
        ensures
            index.wf(),
            index@ == old(self)@.index,
            final(index).wf() ==> final(self).wf(),
            final(self)@ == (BatchModel { index: final(index)@, ..old(self)@ }),
    {
        &mut self.index
    }

    /// Number of documents flushed so far.
    pub fn total_indexed(&self) -> (n: usize)
        ensures
            n == self@.total_indexed,
    {
        self.total_indexed
    }

    /// Number of documents that wait in the batch.
    pub fn current_batch_size(&self) -> (n: usize)
        ensures
            n == self@.pending.len(),
    {
        self.current_batch.len()
    }

    /// The size at which a batch is flushed.
    pub fn batch_size(&self) -> (n: usize)
        ensures
            n == self@.batch_size,
    {
        self.batch_size
    }

    /// Gives up the indexer for its index. What waits in the batch is
    /// dropped.
    pub fn into_index(self) -> (index: SearchIndex)
        requires
            self.wf(),
        ensures
            index.wf(),
            index@ == self@.index,
    {
        self.index
    }
}

} // verus!
