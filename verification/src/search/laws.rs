//! What holds of the index whatever is done with it: the shape that adding
//! and removing keep, and what searches are bound to find.

use crate::search::index::{
    exact_hits, hit_of, ids_of, index_words, is_prefix_match, posted, posted_all, posted_under,
    prefix_hits, scrubbed, scrubbed_all, some_word_posted, store_put, store_without, without_id,
    word_posted, DocView, IndexModel, Postings,
};
use crate::search::ranking::{
    lemma_ranked, match_score, rank_position, ranked, top, HitView,
};
use crate::str_map::all_distinct;
use crate::text::{
    contains_seq, is_prefix, is_space_char, lemma_first_occurrences, lowercased, occurs_at, words,
    words_from,
};
use vstd::prelude::*;

verus! {

/// Leaving out an id that a list does not hold leaves the list as it is.
pub proof fn lemma_without_absent(list: Seq<Seq<char>>, id: Seq<char>)
    requires
        !list.contains(id),
    ensures
        without_id(list, id) == list,
    decreases list.len(),
{
    if list.len() > 0 {
        assert(list.last() == list[list.len() - 1]);
        assert(list.last() != id);
        assert(!list.drop_last().contains(id)) by {
            if list.drop_last().contains(id) {
                let k = choose|k: int| 0 <= k < list.drop_last().len() && list.drop_last()[k] == id;
                assert(list[k] == id);
            }
        }
        lemma_without_absent(list.drop_last(), id);
        assert(list.drop_last().push(list.last()) =~= list);
    }
}

/// What is left when an id is left out: the members that are not the id.
pub proof fn lemma_without_members(list: Seq<Seq<char>>, id: Seq<char>)
    ensures
        !without_id(list, id).contains(id),
        forall|x: Seq<char>|
            #![trigger without_id(list, id).contains(x)]
            without_id(list, id).contains(x) <==> list.contains(x) && x != id,
    decreases list.len(),
{
    if list.len() > 0 {
        let rest = list.drop_last();
        let last = list.last();
        lemma_without_members(rest, id);
        let out = without_id(list, id);
        assert forall|x: Seq<char>|
            #![trigger out.contains(x)]
            out.contains(x) <==> list.contains(x) && x != id by {
            if out.contains(x) {
                let k = choose|k: int| 0 <= k < out.len() && out[k] == x;
                if last != id && k == out.len() - 1 {
                    assert(list[list.len() - 1] == x);
                } else {
                    assert(without_id(rest, id)[k] == x);
                    assert(without_id(rest, id).contains(x));
                    let j = choose|j: int| 0 <= j < rest.len() && rest[j] == x;
                    assert(list[j] == x);
                }
            }
            if list.contains(x) && x != id {
                let j = choose|j: int| 0 <= j < list.len() && list[j] == x;
                if j == list.len() - 1 {
                    assert(out[out.len() - 1] == x);
                } else {
                    assert(rest[j] == x);
                    assert(rest.contains(x));
                    assert(without_id(rest, id).contains(x));
                    let k = choose|k: int|
                        0 <= k < without_id(rest, id).len() && without_id(rest, id)[k] == x;
                    assert(out[k] == x);
                }
            }
        }
    }
}

/// Leaving out the id that was just put at the end gives what leaving it out
/// gave before.
pub proof fn lemma_without_pushed(list: Seq<Seq<char>>, id: Seq<char>)
    ensures
        without_id(list.push(id), id) == without_id(list, id),
{
    assert(list.push(id).drop_last() =~= list);
}

/// Leaving out an id twice is leaving it out once.
pub proof fn lemma_without_twice(list: Seq<Seq<char>>, id: Seq<char>)
    ensures
        without_id(without_id(list, id), id) == without_id(list, id),
{
    lemma_without_members(list, id);
    lemma_without_absent(without_id(list, id), id);
}

/// Whether every list of the index holds something.
pub open spec fn lists_hold_something(index: Postings) -> bool {
    forall|key: Seq<char>| #[trigger] index.contains_key(key) ==> index[key].len() > 0
}

/// Whether `id` is in no list of the index.
pub open spec fn nowhere_posted(index: Postings, id: Seq<char>) -> bool {
    forall|key: Seq<char>| #[trigger] index.contains_key(key) ==> !index[key].contains(id)
}

/// What posting an id under a run of keys does: the keys of the run are in
/// the index, each with the id in its list; every list holds what it held,
/// and apart from the id nothing more; lists of other keys are as they were.
pub proof fn lemma_posted_all(index: Postings, keys: Seq<Seq<char>>, id: Seq<char>)
    ensures
        forall|key: Seq<char>|
            #[trigger] posted_all(index, keys, id).contains_key(key) <==> index.contains_key(key)
                || keys.contains(key),
        forall|key: Seq<char>|
            #[trigger] posted_all(index, keys, id).contains_key(key) ==> without_id(
                posted_all(index, keys, id)[key],
                id,
            ) == without_id(posted_under(index, key), id),
        forall|key: Seq<char>|
            #[trigger] posted_all(index, keys, id).contains_key(key) && !keys.contains(key)
                ==> posted_all(index, keys, id)[key] == index[key],
        forall|key: Seq<char>|
            #[trigger] keys.contains(key) ==> posted_all(index, keys, id)[key].contains(id),
        forall|key: Seq<char>, x: Seq<char>|
            index.contains_key(key) && index[key].contains(x) ==> #[trigger] posted_all(
                index,
                keys,
                id,
            )[key].contains(x),
        forall|key: Seq<char>|
            keys.contains(key) ==> #[trigger] posted_all(index, keys, id)[key].len() > 0,
    decreases keys.len(),
{
    if keys.len() > 0 {
        let earlier = keys.drop_last();
        let last = keys.last();
        let before = posted_all(index, earlier, id);
        let after = posted_all(index, keys, id);
        lemma_posted_all(index, earlier, id);
        assert(after == before.insert(last, posted_under(before, last).push(id)));
        assert(keys.contains(last)) by {
            assert(keys[keys.len() - 1] == last);
        }
        assert forall|key: Seq<char>| earlier.contains(key) implies keys.contains(key) by {
            let k = choose|k: int| 0 <= k < earlier.len() && earlier[k] == key;
            assert(keys[k] == key);
        }
        assert forall|key: Seq<char>| keys.contains(key) implies earlier.contains(key) || key
            == last by {
            let k = choose|k: int| 0 <= k < keys.len() && keys[k] == key;
            if k < keys.len() - 1 {
                assert(earlier[k] == key);
            }
        }
        lemma_without_pushed(posted_under(before, last), id);
        assert forall|key: Seq<char>| #[trigger] after.contains_key(key) implies without_id(
            after[key],
            id,
        ) == without_id(posted_under(index, key), id) by {
            if key == last {
                if !before.contains_key(last) {
                    assert(!index.contains_key(last));
                }
            }
        }
        assert forall|key: Seq<char>| #[trigger] keys.contains(key) implies after[key].contains(
            id,
        ) by {
            if key == last {
                let list = posted_under(before, last).push(id);
                assert(list[list.len() - 1] == id);
            } else {
                assert(earlier.contains(key));
                assert(before[key].contains(id));
            }
        }
        assert forall|key: Seq<char>, x: Seq<char>|
            index.contains_key(key) && index[key].contains(x) implies #[trigger] after[key].contains(
            x,
        ) by {
            assert(before[key].contains(x));
            if key == last {
                let list = posted_under(before, last);
                let k = choose|k: int| 0 <= k < list.len() && list[k] == x;
                assert(list.push(id)[k] == x);
            }
        }
        assert forall|key: Seq<char>| keys.contains(key) implies #[trigger] after[key].len()
            > 0 by {
            if key != last {
                assert(earlier.contains(key));
            }
        }
    }
}

/// What scrubbing an id from under a run of keys does: a key stays unless it
/// is in the run and its list held nothing but the id; the list of a key of
/// the run loses the id; lists of other keys are as they were.
pub proof fn lemma_scrubbed_all(index: Postings, keys: Seq<Seq<char>>, id: Seq<char>)
    ensures
        forall|key: Seq<char>|
            #[trigger] scrubbed_all(index, keys, id).contains_key(key) <==> index.contains_key(key)
                && (!keys.contains(key) || without_id(index[key], id).len() > 0),
        forall|key: Seq<char>|
            #[trigger] scrubbed_all(index, keys, id).contains_key(key) ==> scrubbed_all(
                index,
                keys,
                id,
            )[key] == if keys.contains(key) {
                without_id(index[key], id)
            } else {
                index[key]
            },
    decreases keys.len(),
{
    if keys.len() > 0 {
        let earlier = keys.drop_last();
        let last = keys.last();
        let before = scrubbed_all(index, earlier, id);
        let after = scrubbed_all(index, keys, id);
        lemma_scrubbed_all(index, earlier, id);
        assert(after == scrubbed(before, last, id));
        assert(keys.contains(last)) by {
            assert(keys[keys.len() - 1] == last);
        }
        assert forall|key: Seq<char>| earlier.contains(key) implies keys.contains(key) by {
            let k = choose|k: int| 0 <= k < earlier.len() && earlier[k] == key;
            assert(keys[k] == key);
        }
        assert forall|key: Seq<char>| keys.contains(key) implies earlier.contains(key) || key
            == last by {
            let k = choose|k: int| 0 <= k < keys.len() && keys[k] == key;
            if k < keys.len() - 1 {
                assert(earlier[k] == key);
            }
        }
        if index.contains_key(last) {
            lemma_without_twice(index[last], id);
        }
        assert forall|key: Seq<char>| #[trigger]
            after.contains_key(key) <==> index.contains_key(key) && (!keys.contains(key)
                || without_id(index[key], id).len() > 0) by {
            if key == last {
                if before.contains_key(last) {
                    assert(before[last] == if earlier.contains(last) {
                        without_id(index[last], id)
                    } else {
                        index[last]
                    });
                }
            }
        }
        assert forall|key: Seq<char>| #[trigger] after.contains_key(key) implies after[key] == if keys.contains(
            key,
        ) {
            without_id(index[key], id)
        } else {
            index[key]
        } by {
            if key == last {
                assert(before.contains_key(last));
            } else {
                assert(before.contains_key(key));
            }
        }
    }
}

/// Posting an id under a run of keys of which none comes twice pushes the id
/// once onto the list of each key of the run.
pub proof fn lemma_posted_once(index: Postings, keys: Seq<Seq<char>>, id: Seq<char>)
    requires
        all_distinct(keys),
    ensures
        forall|key: Seq<char>| #[trigger]
            keys.contains(key) ==> posted_all(index, keys, id).contains_key(key) && posted_all(
                index,
                keys,
                id,
            )[key] == posted_under(index, key).push(id),
    decreases keys.len(),
{
    if keys.len() > 0 {
        let earlier = keys.drop_last();
        let last = keys.last();
        let before = posted_all(index, earlier, id);
        let after = posted_all(index, keys, id);
        assert forall|i: int, j: int| 0 <= i < j < earlier.len() implies earlier[i]
            != earlier[j] by {
            assert(earlier[i] == keys[i] && earlier[j] == keys[j]);
        }
        lemma_posted_once(index, earlier, id);
        lemma_posted_all(index, earlier, id);
        assert(!earlier.contains(last)) by {
            if earlier.contains(last) {
                let k = choose|k: int| 0 <= k < earlier.len() && earlier[k] == last;
                assert(keys[k] != keys[keys.len() - 1]);
            }
        }
        assert(posted_under(before, last) == posted_under(index, last));
        assert forall|key: Seq<char>| #[trigger] keys.contains(key) implies after.contains_key(key)
            && after[key] == posted_under(index, key).push(id) by {
            if key != last {
                let k = choose|k: int| 0 <= k < keys.len() && keys[k] == key;
                assert(earlier[k] == key);
                assert(earlier.contains(key));
            }
        }
    }
}

/// Adding a document puts it into the store and pushes its id once onto the
/// list of each word of its lowercased name, however often the name holds the
/// word, and once onto the list of its account; the lists of all other words
/// and accounts are as they were. Where the id was posted nowhere before, it
/// then stands exactly once in each of these lists.
pub proof fn lemma_added_posts_once(index: IndexModel, doc: DocView)
    ensures
        index.added(doc).docs == store_put(index.docs, doc),
        !index.has(doc.node_id) ==> index.added(doc).docs == index.docs.push(doc),
        forall|word: Seq<char>| #[trigger]
            words(lowercased(doc.name)).contains(word) ==> index.added(doc).words.contains_key(
                word,
            ) && index.added(doc).words[word] == posted_under(index.words, word).push(doc.node_id),
        forall|word: Seq<char>|
            !words(lowercased(doc.name)).contains(word) ==> (#[trigger] index.added(
                doc,
            ).words.contains_key(word) <==> index.words.contains_key(word)) && posted_under(
                index.added(doc).words,
                word,
            ) == posted_under(index.words, word),
        index.added(doc).accounts.contains_key(doc.account_id),
        index.added(doc).accounts[doc.account_id] == posted_under(
            index.accounts,
            doc.account_id,
        ).push(doc.node_id),
        forall|account: Seq<char>|
            account != doc.account_id ==> (#[trigger] index.added(doc).accounts.contains_key(
                account,
            ) <==> index.accounts.contains_key(account)) && posted_under(
                index.added(doc).accounts,
                account,
            ) == posted_under(index.accounts, account),
        nowhere_posted(index.words, doc.node_id) ==> forall|word: Seq<char>| #[trigger]
            words(lowercased(doc.name)).contains(word) ==> index.added(
                doc,
            ).words[word].to_multiset().count(doc.node_id) == 1,
        nowhere_posted(index.accounts, doc.node_id) ==> index.added(
            doc,
        ).accounts[doc.account_id].to_multiset().count(doc.node_id) == 1,
{
    broadcast use vstd::multiset::group_multiset_axioms;

    let keys = index_words(doc);
    let id = doc.node_id;
    let after = index.added(doc);
    lemma_first_occurrences(words(lowercased(doc.name)));
    lemma_posted_once(index.words, keys, id);
    lemma_posted_all(index.words, keys, id);
    assert forall|word: Seq<char>| #[trigger]
        words(lowercased(doc.name)).contains(word) implies after.words.contains_key(word)
        && after.words[word] == posted_under(index.words, word).push(id) by {
        assert(keys.contains(word));
    }
    assert forall|word: Seq<char>|
        !words(lowercased(doc.name)).contains(word) implies (#[trigger] after.words.contains_key(
        word,
    ) <==> index.words.contains_key(word)) && posted_under(after.words, word) == posted_under(
        index.words,
        word,
    ) by {
        assert(!keys.contains(word));
    }
    if nowhere_posted(index.words, id) {
        assert forall|word: Seq<char>| #[trigger]
            words(lowercased(doc.name)).contains(word) implies after.words[word].to_multiset().count(
            id,
        ) == 1 by {
            let old_list = posted_under(index.words, word);
            old_list.to_multiset_ensures();
            assert(!old_list.contains(id));
            assert(old_list.push(id).to_multiset() =~= old_list.to_multiset().insert(id));
        }
    }
    if nowhere_posted(index.accounts, id) {
        let old_list = posted_under(index.accounts, doc.account_id);
        old_list.to_multiset_ensures();
        assert(!old_list.contains(id));
        assert(old_list.push(id).to_multiset() =~= old_list.to_multiset().insert(id));
    }
}

/// Whether the index is in shape: no two documents share an id; no posting
/// list is empty; and every document is posted under each word of its
/// lowercased name. Adding and removing keep it.
pub open spec fn in_shape(index: IndexModel) -> bool {
    &&& all_distinct(ids_of(index.docs))
    &&& lists_hold_something(index.words)
    &&& lists_hold_something(index.accounts)
    &&& forall|i: int, k: int|
        0 <= i < index.docs.len() && 0 <= k < index_words(index.docs[i]).len()
            ==> index.words.contains_key(#[trigger] index_words(index.docs[i])[k])
            && index.words[index_words(index.docs[i])[k]].contains(index.docs[i].node_id)
}

/// Adding a document and then removing it leaves the index as it was: the
/// store and both posting indexes. This is so where the document is new to
/// the index: no stored document has its id, and its id is posted nowhere.
pub proof fn lemma_add_then_remove(index: IndexModel, doc: DocView)
    requires
        all_distinct(ids_of(index.docs)),
        lists_hold_something(index.words),
        lists_hold_something(index.accounts),
        !index.has(doc.node_id),
        nowhere_posted(index.words, doc.node_id),
        nowhere_posted(index.accounts, doc.node_id),
    ensures
        index.added(doc).removed(doc.node_id) == index,
{
    let id = doc.node_id;
    let added = index.added(doc);
    let keys = index_words(doc);
    // the store
    let ids = ids_of(index.docs);
    let docs2 = index.docs.push(doc);
    let ids2 = ids_of(docs2);
    assert(added.docs == docs2);
    assert(ids2 =~= ids.push(id));
    assert(ids2[ids.len() as int] == id);
    assert(ids2.contains(id));
    let at = ids2.index_of(id);
    assert(at == ids.len()) by {
        if at < ids.len() {
            assert(ids[at] == id);
            assert(ids.contains(id));
        }
    }
    assert(added.doc(id) == doc);
    assert(store_without(docs2, id) =~= index.docs);
    // the account index
    let accounts2 = posted(index.accounts, doc.account_id, id);
    let old_list = posted_under(index.accounts, doc.account_id);
    lemma_without_pushed(old_list, id);
    assert(!old_list.contains(id));
    lemma_without_absent(old_list, id);
    assert(scrubbed(accounts2, doc.account_id, id) =~= index.accounts);
    // the word index
    let words2 = posted_all(index.words, keys, id);
    let words3 = scrubbed_all(words2, keys, id);
    lemma_posted_all(index.words, keys, id);
    lemma_scrubbed_all(words2, keys, id);
    assert forall|key: Seq<char>| #[trigger] words2.contains_key(key) implies without_id(
        words2[key],
        id,
    ) == posted_under(index.words, key) by {
        assert(!posted_under(index.words, key).contains(id));
        lemma_without_absent(posted_under(index.words, key), id);
    }
    assert forall|key: Seq<char>| words3.contains_key(key) <==> index.words.contains_key(
        key,
    ) by {
        if words2.contains_key(key) {
            assert(without_id(words2[key], id) == posted_under(index.words, key));
        }
    }
    assert forall|key: Seq<char>| words3.contains_key(key) implies words3[key]
        == index.words[key] by {
        assert(words2.contains_key(key));
        assert(without_id(words2[key], id) == posted_under(index.words, key));
    }
    assert(words3 =~= index.words);
}

/// The empty index is in shape.
pub proof fn lemma_empty_in_shape()
    ensures
        in_shape(IndexModel::empty()),
{
}

/// A store without repeated ids has none after a document is put in.
pub proof fn lemma_store_put(docs: Seq<DocView>, doc: DocView)
    requires
        all_distinct(ids_of(docs)),
    ensures
        all_distinct(ids_of(store_put(docs, doc))),
        store_put(docs, doc).len() >= docs.len(),
        forall|j: int|
            0 <= j < store_put(docs, doc).len() ==> (#[trigger] store_put(docs, doc)[j]) == doc
                || (j < docs.len() && store_put(docs, doc)[j] == docs[j]),
        ids_of(store_put(docs, doc)).contains(doc.node_id),
        store_put(docs, doc)[ids_of(store_put(docs, doc)).index_of(doc.node_id)] == doc,
{
    let ids = ids_of(docs);
    let after = store_put(docs, doc);
    let ids2 = ids_of(after);
    if ids.contains(doc.node_id) {
        let at = ids.index_of(doc.node_id);
        assert(ids2 =~= ids);
        assert(after[at] == doc);
    } else {
        assert(ids2 =~= ids.push(doc.node_id));
        assert forall|i: int, j: int| 0 <= i < j < ids2.len() implies ids2[i] != ids2[j] by {
            if j == ids.len() {
                if ids2[i] == doc.node_id {
                    assert(ids[i] == doc.node_id);
                }
            }
        }
        assert(ids2[ids.len() as int] == doc.node_id);
    }
    let at2 = ids2.index_of(doc.node_id);
    assert(0 <= at2 < ids2.len() && ids2[at2] == doc.node_id);
    assert(after[at2].node_id == doc.node_id);
    if after[at2] != doc {
        // the one place that holds the id holds the document
        let place = if ids.contains(doc.node_id) {
            ids.index_of(doc.node_id)
        } else {
            ids.len() as int
        };
        assert(after[place] == doc);
        assert(ids2[place] == doc.node_id);
        if place < at2 {
            assert(ids2[place] != ids2[at2]);
        } else if at2 < place {
            assert(ids2[at2] != ids2[place]);
        }
    }
}

/// Adding a document keeps the index in shape.
pub proof fn lemma_added_in_shape(index: IndexModel, doc: DocView)
    requires
        in_shape(index),
    ensures
        in_shape(index.added(doc)),
{
    let after = index.added(doc);
    let keys = index_words(doc);
    lemma_store_put(index.docs, doc);
    lemma_posted_all(index.words, keys, doc.node_id);
    assert forall|key: Seq<char>| #[trigger] after.words.contains_key(key) implies after.words[key].len()
        > 0 by {
        if !keys.contains(key) {
            assert(index.words.contains_key(key));
        }
    }
    assert forall|key: Seq<char>| #[trigger] after.accounts.contains_key(key) implies after.accounts[key].len()
        > 0 by {
        if key != doc.account_id {
            assert(index.accounts.contains_key(key));
        }
    }
    assert forall|i: int, k: int|
        0 <= i < after.docs.len()
            && 0 <= k < index_words(after.docs[i]).len() implies after.words.contains_key(
        #[trigger] index_words(after.docs[i])[k],
    ) && after.words[index_words(after.docs[i])[k]].contains(after.docs[i].node_id) by {
        let word = index_words(after.docs[i])[k];
        if after.docs[i] == doc {
            assert(keys[k] == word);
            assert(keys.contains(word));
        } else {
            assert(after.docs[i] == index.docs[i]);
            assert(index.words.contains_key(index_words(index.docs[i])[k]));
            assert(index.words[word].contains(index.docs[i].node_id));
        }
    }
}

/// Removing a document keeps the index in shape.
pub proof fn lemma_removed_in_shape(index: IndexModel, id: Seq<char>)
    requires
        in_shape(index),
    ensures
        in_shape(index.removed(id)),
{
    if index.has(id) {
        let after = index.removed(id);
        let ids = ids_of(index.docs);
        let at = ids.index_of(id);
        assert(0 <= at < ids.len() && ids[at] == id);
        let gone = index.doc(id);
        let keys = index_words(gone);
        let ids2 = ids_of(after.docs);
        assert(after.docs == index.docs.remove(at));
        assert(ids2 =~= ids.remove(at));
        assert forall|i: int, j: int| 0 <= i < j < ids2.len() implies ids2[i] != ids2[j] by {
            let i0 = if i < at { i } else { i + 1 };
            let j0 = if j < at { j } else { j + 1 };
            assert(ids2[i] == ids[i0] && ids2[j] == ids[j0]);
        }
        lemma_scrubbed_all(index.words, keys, id);
        assert forall|key: Seq<char>| #[trigger] after.words.contains_key(key) implies after.words[key].len()
            > 0 by {
            assert(index.words.contains_key(key));
        }
        assert forall|key: Seq<char>| #[trigger] after.accounts.contains_key(key) implies after.accounts[key].len()
            > 0 by {
            assert(index.accounts.contains_key(key));
        }
        assert forall|i: int, k: int|
            0 <= i < after.docs.len()
                && 0 <= k < index_words(after.docs[i]).len() implies after.words.contains_key(
            #[trigger] index_words(after.docs[i])[k],
        ) && after.words[index_words(after.docs[i])[k]].contains(after.docs[i].node_id) by {
            let i0 = if i < at { i } else { i + 1 };
            assert(after.docs[i] == index.docs[i0]);
            let other = index.docs[i0].node_id;
            assert(other == ids[i0]);
            assert(other != id) by {
                if i0 < at {
                    assert(ids[i0] != ids[at]);
                } else {
                    assert(ids[at] != ids[i0]);
                }
            }
            let word = index_words(index.docs[i0])[k];
            assert(index.words.contains_key(word) && index.words[word].contains(other));
            lemma_without_members(index.words[word], id);
            assert(without_id(index.words[word], id).contains(other));
            assert(without_id(index.words[word], id).len() > 0);
        }
    }
}

/// Every hit of an exact search stands for a stored document whose name
/// holds the query, with the score of that match; and every such document has
/// its hit.
pub proof fn lemma_exact_hits(docs: Seq<DocView>, query: Seq<char>)
    ensures
        forall|h: HitView| #[trigger]
            exact_hits(docs, query).contains(h) ==> exists|j: int|
                0 <= j < docs.len() && match_score(lowercased(docs[j].name), query) == Some(
                    h.score,
                ) && h == hit_of(docs[j], h.score),
        forall|j: int|
            0 <= j < docs.len() && match_score(lowercased(docs[j].name), query) is Some
                ==> exact_hits(docs, query).contains(
                hit_of(#[trigger] docs[j], match_score(lowercased(docs[j].name), query)->0),
            ),
    decreases docs.len(),
{
    if docs.len() > 0 {
        let earlier = docs.drop_last();
        let last = docs.last();
        let before = exact_hits(earlier, query);
        let all = exact_hits(docs, query);
        lemma_exact_hits(earlier, query);
        let score = match_score(lowercased(last.name), query);
        assert forall|h: HitView| #[trigger] all.contains(h) implies exists|j: int|
            0 <= j < docs.len() && match_score(lowercased(docs[j].name), query) == Some(h.score)
                && h == hit_of(docs[j], h.score) by {
            let k = choose|k: int| 0 <= k < all.len() && all[k] == h;
            if score is Some && k == all.len() - 1 {
                assert(docs[docs.len() - 1] == last);
            } else {
                assert(before[k] == h);
                assert(before.contains(h));
                let j = choose|j: int|
                    0 <= j < earlier.len() && match_score(lowercased(earlier[j].name), query)
                        == Some(h.score) && h == hit_of(earlier[j], h.score);
                assert(docs[j] == earlier[j]);
            }
        }
        assert forall|j: int|
            0 <= j < docs.len() && match_score(lowercased(docs[j].name), query)
                is Some implies all.contains(
            hit_of(#[trigger] docs[j], match_score(lowercased(docs[j].name), query)->0),
        ) by {
            let h = hit_of(docs[j], match_score(lowercased(docs[j].name), query)->0);
            if j == docs.len() - 1 {
                assert(all[all.len() - 1] == h);
            } else {
                assert(earlier[j] == docs[j]);
                assert(before.contains(h));
                let k = choose|k: int| 0 <= k < before.len() && before[k] == h;
                assert(all[k] == h);
            }
        }
    }
}

/// The hits of an exact search hold a hit once where one stored document
/// gives it and no other does, and not at all where none does.
pub proof fn lemma_exact_hit_counted_once(docs: Seq<DocView>, query: Seq<char>, at: int, hit: HitView)
    requires
        forall|j: int|
            0 <= j < docs.len() ==> ((match_score(lowercased(#[trigger] docs[j].name), query)
                is Some && hit_of(docs[j], match_score(lowercased(docs[j].name), query)->0) == hit)
                <==> j == at),
    ensures
        exact_hits(docs, query).to_multiset().count(hit) == if 0 <= at < docs.len() {
            1nat
        } else {
            0nat
        },
    decreases docs.len(),
{
    broadcast use vstd::multiset::group_multiset_axioms;

    if docs.len() == 0 {
        assert(exact_hits(docs, query) =~= Seq::<HitView>::empty());
        exact_hits(docs, query).to_multiset_ensures();
        assert(exact_hits(docs, query).to_multiset().len() == 0);
    } else {
        let earlier = docs.drop_last();
        let last = docs.last();
        let before = exact_hits(earlier, query);
        assert forall|j: int| 0 <= j < earlier.len() implies ((match_score(
            lowercased(#[trigger] earlier[j].name),
            query,
        ) is Some && hit_of(earlier[j], match_score(lowercased(earlier[j].name), query)->0) == hit)
            <==> j == at) by {
            assert(earlier[j] == docs[j]);
        }
        lemma_exact_hit_counted_once(earlier, query, at, hit);
        assert(docs[docs.len() - 1] == last);
        before.to_multiset_ensures();
        match match_score(lowercased(last.name), query) {
            Some(score) => {
                assert(exact_hits(docs, query) == before.push(hit_of(last, score)));
                assert(before.push(hit_of(last, score)).to_multiset() =~= before.to_multiset().insert(
                    hit_of(last, score),
                ));
            },
            None => {},
        }
    }
}

/// An exact search for a query whose lowercase is the lowercased name of a
/// stored document (the name itself, in whatever case) gives that document
/// first, with the full score of 100, and gives no other result that score,
/// where no other document has that lowercased name and at least one result
/// is asked for.
pub proof fn lemma_exact_search_finds_name(
    index: IndexModel,
    at: int,
    typed: Seq<char>,
    limit: nat,
)
    requires
        0 <= at < index.docs.len(),
        limit >= 1,
        lowercased(typed) == lowercased(index.docs[at].name),
        forall|j: int|
            0 <= j < index.docs.len() && j != at ==> lowercased(#[trigger] index.docs[j].name)
                != lowercased(index.docs[at].name),
    ensures
        index.exact_results(typed, limit).len() >= 1,
        index.exact_results(typed, limit)[0] == hit_of(index.docs[at], 100),
        forall|k: int|
            1 <= k < index.exact_results(typed, limit).len() ==> (#[trigger] index.exact_results(
                typed,
                limit,
            )[k]).score != 100,
{
    broadcast use vstd::multiset::group_multiset_axioms;

    let doc = index.docs[at];
    let query = lowercased(doc.name);
    let hits = exact_hits(index.docs, query);
    let order = ranked(hits);
    let wanted = hit_of(doc, 100);
    assert(occurs_at(query, query, 0)) by {
        assert(query.subrange(0, 0int + query.len()) =~= query);
    }
    assert(contains_seq(query, query));
    assert(match_score(query, query) == Some(100nat));
    lemma_exact_hits(index.docs, query);
    assert(hits.contains(hit_of(index.docs[at], match_score(lowercased(doc.name), query)->0)));
    assert(hits.contains(wanted));
    lemma_ranked(hits);
    hits.to_multiset_ensures();
    order.to_multiset_ensures();
    assert(order.to_multiset().count(wanted) > 0);
    assert(order.contains(wanted));
    let k = choose|k: int| 0 <= k < order.len() && order[k] == wanted;
    let first = order[0];
    assert(first.score >= order[k].score);
    assert(order.contains(first));
    assert(hits.to_multiset().count(first) > 0);
    assert(hits.contains(first));
    let j = choose|j: int|
        0 <= j < index.docs.len() && match_score(lowercased(index.docs[j].name), query) == Some(
            first.score,
        ) && first == hit_of(index.docs[j], first.score);
    assert(first.score == 100);
    assert(lowercased(index.docs[j].name) == query);
    assert(j == at);
    assert(top(order, limit)[0] == order[0]);
    let results = index.exact_results(typed, limit);
    assert forall|j: int|
        0 <= j < index.docs.len() implies ((match_score(
        lowercased(#[trigger] index.docs[j].name),
        query,
    ) is Some && hit_of(index.docs[j], match_score(lowercased(index.docs[j].name), query)->0)
        == wanted) <==> j == at) by {}
    lemma_exact_hit_counted_once(index.docs, query, at, wanted);
    let rest = order.remove(0);
    rest.to_multiset_ensures();
    assert(order[0] == wanted);
    assert(order.to_multiset().count(wanted) == 1);
    assert(rest.to_multiset() =~= order.to_multiset().remove(order[0]));
    assert(rest.to_multiset().count(wanted) == 0);
    assert(!rest.contains(wanted));
    assert forall|k: int| 1 <= k < results.len() implies (#[trigger] results[k]).score != 100 by {
        let other = order[k];
        assert(results[k] == other);
        if other.score == 100 {
            assert(order.contains(other));
            assert(hits.to_multiset().count(other) > 0);
            assert(hits.contains(other));
            let i = choose|i: int|
                0 <= i < index.docs.len() && match_score(lowercased(index.docs[i].name), query)
                    == Some(other.score) && other == hit_of(index.docs[i], other.score);
            assert(lowercased(index.docs[i].name) == query);
            assert(i == at);
            assert(rest[k - 1] == other);
            assert(rest.contains(wanted));
        }
    }
}

/// The first word that is read from position `at` on, where `current` holds
/// the characters of a word under way, starts with `current`.
pub proof fn lemma_word_under_way(s: Seq<char>, at: int, current: Seq<char>)
    requires
        0 <= at <= s.len(),
        current.len() > 0,
    ensures
        words_from(s, at, current).len() > 0,
        is_prefix(current, words_from(s, at, current)[0]),
    decreases s.len() - at,
{
    if at < s.len() && !is_space_char(s[at]) {
        lemma_word_under_way(s, at + 1, current.push(s[at]));
        let first = words_from(s, at + 1, current.push(s[at]))[0];
        assert(first.take(current.len() as int) =~= current) by {
            assert(first.take(current.len() as int + 1) == current.push(s[at]));
            assert forall|i: int| 0 <= i < current.len() implies first[i] == current[i] by {
                assert(first.take(current.len() as int + 1)[i] == first[i]);
            }
        }
    } else {
        assert(current.take(current.len() as int) =~= current);
    }
}

/// Where `q` is what `s` starts with and `q` has a word, the first word of
/// `q` is what the first word of `s` starts with.
pub proof fn lemma_first_word_of_prefix(q: Seq<char>, s: Seq<char>, at: int, current: Seq<char>)
    requires
        is_prefix(q, s),
        0 <= at <= q.len(),
        words_from(q, at, current).len() > 0,
    ensures
        words_from(s, at, current).len() > 0,
        is_prefix(words_from(q, at, current)[0], words_from(s, at, current)[0]),
    decreases q.len() - at,
{
    let first_q = words_from(q, at, current)[0];
    if at < q.len() {
        assert(s[at] == q[at]) by {
            assert(s.take(q.len() as int)[at] == s[at]);
        }
        if is_space_char(q[at]) {
            if current.len() > 0 {
                assert(first_q == current);
                assert(current.take(current.len() as int) =~= current);
            } else {
                assert(words_from(q, at, current) =~= words_from(q, at + 1, Seq::empty()));
                assert(words_from(s, at, current) =~= words_from(s, at + 1, Seq::empty()));
                lemma_first_word_of_prefix(q, s, at + 1, Seq::empty());
            }
        } else {
            lemma_first_word_of_prefix(q, s, at + 1, current.push(q[at]));
        }
    } else {
        assert(current.len() > 0);
        assert(first_q == current);
        lemma_word_under_way(s, at, current);
    }
}

/// Every document that a prefix search finds has its hit among the hits.
pub proof fn lemma_prefix_hits(words_index: Postings, docs: Seq<DocView>, query: Seq<char>, at: int)
    requires
        0 <= at < docs.len(),
        is_prefix_match(words_index, docs[at], query),
    ensures
        prefix_hits(words_index, docs, query).contains(hit_of(docs[at], 95)),
    decreases docs.len(),
{
    let all = prefix_hits(words_index, docs, query);
    let wanted = hit_of(docs[at], 95);
    if at == docs.len() - 1 {
        assert(all[all.len() - 1] == wanted);
    } else {
        let earlier = docs.drop_last();
        assert(earlier[at] == docs[at]);
        lemma_prefix_hits(words_index, earlier, query, at);
        let before = prefix_hits(words_index, earlier, query);
        let k = choose|k: int| 0 <= k < before.len() && before[k] == wanted;
        assert(all[k] == wanted);
    }
}

/// In a list whose hits all score as much as `score` or more, the place for
/// a hit of that score is the end.
pub proof fn lemma_rank_position_last(list: Seq<HitView>, score: nat)
    requires
        forall|i: int| 0 <= i < list.len() ==> (#[trigger] list[i]).score >= score,
    ensures
        rank_position(list, score) == list.len(),
    decreases list.len(),
{
    if list.len() > 0 {
        let rest = list.drop_first();
        assert forall|i: int| 0 <= i < rest.len() implies (#[trigger] rest[i]).score >= score by {
            assert(rest[i] == list[i + 1]);
        }
        lemma_rank_position_last(rest, score);
        assert(list[0].score >= score);
    }
}

/// Hits that all have one score are ranked as they stand.
pub proof fn lemma_ranked_of_one_score(hits: Seq<HitView>, score: nat)
    requires
        forall|i: int| 0 <= i < hits.len() ==> (#[trigger] hits[i]).score == score,
    ensures
        ranked(hits) == hits,
    decreases hits.len(),
{
    if hits.len() == 0 {
        assert(ranked(hits) =~= hits);
    } else {
        let earlier = hits.drop_last();
        assert forall|i: int| 0 <= i < earlier.len() implies (#[trigger] earlier[i]).score
            == score by {
            assert(earlier[i] == hits[i]);
        }
        lemma_ranked_of_one_score(earlier, score);
        assert forall|i: int| 0 <= i < earlier.len() implies (#[trigger] earlier[i]).score
            >= score by {}
        lemma_rank_position_last(earlier, score);
        assert(hits[hits.len() - 1].score == score);
        assert(earlier.insert(earlier.len() as int, hits.last()) =~= hits);
    }
}

/// The hits of a prefix search all score 95 and each stands for a stored
/// document; where no two stored documents share an id, no two hits do.
pub proof fn lemma_prefix_hits_once(words_index: Postings, docs: Seq<DocView>, query: Seq<char>)
    ensures
        forall|k: int|
            0 <= k < prefix_hits(words_index, docs, query).len() ==> exists|j: int|
                0 <= j < docs.len() && #[trigger] prefix_hits(words_index, docs, query)[k]
                    == hit_of(docs[j], 95),
        all_distinct(ids_of(docs)) ==> forall|i: int, j: int|
            0 <= i < j < prefix_hits(words_index, docs, query).len() ==> (
            #[trigger] prefix_hits(words_index, docs, query)[i]).node_id != (
            #[trigger] prefix_hits(words_index, docs, query)[j]).node_id,
    decreases docs.len(),
{
    if docs.len() > 0 {
        let earlier = docs.drop_last();
        let last = docs.last();
        let before = prefix_hits(words_index, earlier, query);
        let all = prefix_hits(words_index, docs, query);
        lemma_prefix_hits_once(words_index, earlier, query);
        assert(docs[docs.len() - 1] == last);
        assert forall|k: int| 0 <= k < all.len() implies exists|j: int|
            0 <= j < docs.len() && #[trigger] all[k] == hit_of(docs[j], 95) by {
            if k < before.len() {
                assert(all[k] == before[k]);
                let j = choose|j: int| 0 <= j < earlier.len() && before[k] == hit_of(earlier[j], 95);
                assert(earlier[j] == docs[j]);
            } else {
                assert(all[k] == hit_of(docs[docs.len() - 1], 95));
            }
        }
        if all_distinct(ids_of(docs)) {
            assert forall|i: int, j: int| 0 <= i < j < ids_of(earlier).len() implies ids_of(
                earlier,
            )[i] != ids_of(earlier)[j] by {
                assert(ids_of(earlier)[i] == ids_of(docs)[i]);
                assert(ids_of(earlier)[j] == ids_of(docs)[j]);
            }
            assert forall|i: int, j: int| 0 <= i < j < all.len() implies (#[trigger] all[i]).node_id
                != (#[trigger] all[j]).node_id by {
                if j < before.len() {
                    assert(all[i] == before[i] && all[j] == before[j]);
                } else {
                    assert(all[i] == before[i]);
                    let d = choose|d: int|
                        0 <= d < earlier.len() && before[i] == hit_of(earlier[d], 95);
                    assert(earlier[d] == docs[d]);
                    assert(ids_of(docs)[d] != ids_of(docs)[docs.len() - 1]);
                }
            }
        }
    }
}

/// A prefix search gives its hits in the order of the store, each with the
/// score of 95, and gives no document twice where no two stored documents
/// share an id.
pub proof fn lemma_prefix_results_once(index: IndexModel, query: Seq<char>, limit: nat)
    ensures
        index.prefix_results(query, limit) == top(
            prefix_hits(index.words, index.docs, lowercased(query)),
            limit,
        ),
        forall|k: int|
            0 <= k < index.prefix_results(query, limit).len() ==> (
            #[trigger] index.prefix_results(query, limit)[k]).score == 95,
        all_distinct(ids_of(index.docs)) ==> forall|i: int, j: int|
            0 <= i < j < index.prefix_results(query, limit).len() ==> (
            #[trigger] index.prefix_results(query, limit)[i]).node_id != (
            #[trigger] index.prefix_results(query, limit)[j]).node_id,
{
    let hits = prefix_hits(index.words, index.docs, lowercased(query));
    lemma_prefix_hits_once(index.words, index.docs, lowercased(query));
    assert forall|i: int| 0 <= i < hits.len() implies (#[trigger] hits[i]).score == 95 by {
        let j = choose|j: int| 0 <= j < index.docs.len() && hits[i] == hit_of(index.docs[j], 95);
    }
    lemma_ranked_of_one_score(hits, 95);
    let results = index.prefix_results(query, limit);
    assert(results == top(hits, limit));
    assert forall|k: int| 0 <= k < results.len() implies (#[trigger] results[k]).score == 95 by {
        assert(results[k] == hits[k]);
    }
    if all_distinct(ids_of(index.docs)) {
        assert forall|i: int, j: int| 0 <= i < j < results.len() implies (
        #[trigger] results[i]).node_id != (#[trigger] results[j]).node_id by {
            assert(results[i] == hits[i] && results[j] == hits[j]);
        }
    }
}

/// A prefix search for a query whose lowercase is what the lowercased name of
/// a stored document starts with finds that document, with the score of 95,
/// where the lowercased query has a word; where the results are not cut
/// short it is among them, once.
pub proof fn lemma_prefix_search_finds_name(index: IndexModel, at: int, query: Seq<char>, limit: nat)
    requires
        in_shape(index),
        0 <= at < index.docs.len(),
        is_prefix(lowercased(query), lowercased(index.docs[at].name)),
        words(lowercased(query)).len() > 0,
    ensures
        prefix_hits(index.words, index.docs, lowercased(query)).contains(
            hit_of(index.docs[at], 95),
        ),
        prefix_hits(index.words, index.docs, lowercased(query)).len() <= limit
            ==> index.prefix_results(query, limit).contains(hit_of(index.docs[at], 95)),
        forall|i: int, j: int|
            0 <= i < index.prefix_results(query, limit).len() && 0 <= j < index.prefix_results(
                query,
                limit,
            ).len() && (#[trigger] index.prefix_results(query, limit)[i]).node_id
                == index.docs[at].node_id && (#[trigger] index.prefix_results(
                query,
                limit,
            )[j]).node_id == index.docs[at].node_id ==> i == j,
        forall|k: int|
            0 <= k < index.prefix_results(query, limit).len() && (
            #[trigger] index.prefix_results(query, limit)[k]).node_id == index.docs[at].node_id
                ==> index.prefix_results(query, limit)[k] == hit_of(index.docs[at], 95),
{
    lemma_prefix_results_once(index, query, limit);
    lemma_prefix_hits_once(index.words, index.docs, lowercased(query));
    assert forall|k: int|
        0 <= k < index.prefix_results(query, limit).len() && (#[trigger] index.prefix_results(
            query,
            limit,
        )[k]).node_id == index.docs[at].node_id implies index.prefix_results(query, limit)[k]
        == hit_of(index.docs[at], 95) by {
        let all = prefix_hits(index.words, index.docs, lowercased(query));
        assert(index.prefix_results(query, limit)[k] == all[k]);
        let j = choose|j: int| 0 <= j < index.docs.len() && all[k] == hit_of(index.docs[j], 95);
        if j != at {
            assert(ids_of(index.docs)[j] == index.docs[j].node_id);
            assert(ids_of(index.docs)[at] == index.docs[at].node_id);
            if j < at {
                assert(ids_of(index.docs)[j] != ids_of(index.docs)[at]);
            } else {
                assert(ids_of(index.docs)[at] != ids_of(index.docs)[j]);
            }
        }
    }
    let doc = index.docs[at];
    let q = lowercased(query);
    let name = lowercased(doc.name);
    lemma_first_word_of_prefix(q, name, 0, Seq::empty());
    let token = words(q)[0];
    let key = words(name)[0];
    lemma_first_occurrences(words(name));
    assert(index_words(doc)[0] == key);
    assert(index.words.contains_key(index_words(index.docs[at])[0]));
    assert(index.words[key].contains(doc.node_id));
    assert(word_posted(index.words, words(q)[0], doc.node_id));
    assert(some_word_posted(index.words, words(q), doc.node_id));
    assert(is_prefix_match(index.words, doc, q));
    lemma_prefix_hits(index.words, index.docs, q, at);
    let hits = prefix_hits(index.words, index.docs, q);
    let wanted = hit_of(doc, 95);
    lemma_ranked(hits);
    hits.to_multiset_ensures();
    ranked(hits).to_multiset_ensures();
    assert(ranked(hits).to_multiset().count(wanted) > 0);
    assert(ranked(hits).contains(wanted));
    if hits.len() <= limit {
        if limit <= ranked(hits).len() {
            assert(ranked(hits).take(limit as int) =~= ranked(hits));
        }
    }
}

} // verus!
