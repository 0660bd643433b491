//! Ranking by key: highest first, equal keys in the order in which they came.

use vstd::prelude::*;

verus! {

/// Where an item with this key goes in a ranking: behind every item whose
/// key is as high or higher.
pub open spec fn slot_for(order: Seq<int>, keys: Seq<u64>, key: u64) -> nat
    decreases order.len(),
{
    if order.len() == 0 || keys[order[0]] < key {
        0
    } else {
        1 + slot_for(order.drop_first(), keys, key)
    }
}

/// The positions of the first `upto` keys, highest key first; positions of
/// one key stay in their order.
pub open spec fn ranking(keys: Seq<u64>, upto: nat) -> Seq<int>
    decreases upto,
{
    if upto == 0 {
        Seq::empty()
    } else {
        let before = ranking(keys, (upto - 1) as nat);
        before.insert(slot_for(before, keys, keys[upto - 1]) as int, upto - 1)
    }
}

/// Whether the keys fall along the positions.
pub open spec fn keys_fall(order: Seq<int>, keys: Seq<u64>) -> bool {
    forall|i: int, j: int| 0 <= i <= j < order.len() ==> keys[order[i]] >= keys[order[j]]
}

/// In a run of positions along which the keys fall, the slot for a key has
/// only keys as high or higher before it, and only lower ones from it on.
pub proof fn lemma_slot_for(order: Seq<int>, keys: Seq<u64>, key: u64)
    requires
        keys_fall(order, keys),
    ensures
        slot_for(order, keys, key) <= order.len(),
        forall|i: int| 0 <= i < slot_for(order, keys, key) ==> keys[order[i]] >= key,
        forall|i: int| slot_for(order, keys, key) <= i < order.len() ==> keys[order[i]] < key,
    decreases order.len(),
{
    if order.len() > 0 && keys[order[0]] >= key {
        let rest = order.drop_first();
        assert forall|i: int, j: int| 0 <= i <= j < rest.len() implies keys[rest[i]]
            >= keys[rest[j]] by {
            assert(rest[i] == order[i + 1] && rest[j] == order[j + 1]);
        }
        lemma_slot_for(rest, keys, key);
        let p = slot_for(rest, keys, key);
        assert forall|i: int| 0 <= i < p + 1 implies keys[order[i]] >= key by {
            if i > 0 {
                assert(order[i] == rest[i - 1]);
            }
        }
        assert forall|i: int| p + 1 <= i < order.len() implies keys[order[i]] < key by {
            assert(order[i] == rest[i - 1]);
        }
    } else if order.len() > 0 {
        assert forall|i: int| 0 <= i < order.len() implies keys[order[i]] < key by {
            assert(keys[order[0]] >= keys[order[i]]);
        }
    }
}

/// A ranking of the first `upto` keys holds each of their positions once, and
/// the keys fall along it.
pub proof fn lemma_ranking(keys: Seq<u64>, upto: nat)
    requires
        upto <= keys.len(),
    ensures
        ranking(keys, upto).len() == upto,
        forall|k: int| 0 <= k < upto ==> 0 <= #[trigger] ranking(keys, upto)[k] < upto,
        forall|i: int, j: int|
            0 <= i < j < upto ==> ranking(keys, upto)[i] != ranking(keys, upto)[j],
        keys_fall(ranking(keys, upto), keys),
    decreases upto,
{
    if upto > 0 {
        let before = ranking(keys, (upto - 1) as nat);
        let key = keys[upto - 1];
        lemma_ranking(keys, (upto - 1) as nat);
        lemma_slot_for(before, keys, key);
        let p = slot_for(before, keys, key) as int;
        let after = before.insert(p, upto - 1);
        assert forall|k: int| 0 <= k < upto implies 0 <= #[trigger] after[k] < upto by {
            if k < p {
                assert(after[k] == before[k]);
            } else if k > p {
                assert(after[k] == before[k - 1]);
            }
        }
        assert forall|i: int, j: int| 0 <= i < j < upto implies after[i] != after[j] by {
            let i0 = if i < p { i } else { i - 1 };
            let j0 = if j < p { j } else { j - 1 };
            if i != p && j != p {
                assert(after[i] == before[i0] && after[j] == before[j0]);
            } else if i == p {
                assert(after[j] == before[j0]);
            } else {
                assert(after[i] == before[i0]);
            }
        }
        assert forall|i: int, j: int| 0 <= i <= j < after.len() implies keys[after[i]]
            >= keys[after[j]] by {
            let i0 = if i < p { i } else { i - 1 };
            let j0 = if j < p { j } else { j - 1 };
            if i != p && j != p {
                assert(after[i] == before[i0] && after[j] == before[j0]);
            } else if i == p && j != p {
                assert(after[j] == before[j0]);
            } else if j == p && i != p {
                assert(after[i] == before[i0]);
            }
        }
    }
}

/// The positions in `order`, as integers.
pub open spec fn positions(order: Seq<usize>) -> Seq<int> {
    Seq::new(order.len(), |i: int| order[i] as int)
}

/// Ranks the positions of `keys`: highest key first, positions of one key in
/// their order.
pub fn ranking_of(keys: &Vec<u64>) -> (order: Vec<usize>)
    ensures
        positions(order@) == ranking(keys@, keys@.len()),
        order@.len() == keys@.len(),
        forall|k: int| 0 <= k < order@.len() ==> order@[k] < keys@.len(),
        forall|i: int, j: int| 0 <= i < j < order@.len() ==> order@[i] != order@[j],
        keys_fall(positions(order@), keys@),
{
    let mut order: Vec<usize> = Vec::new();
    let n = keys.len();
    let mut i: usize = 0;
    assert(positions(order@) =~= Seq::<int>::empty());
    while i < n
        invariant
            n == keys@.len(),
            i <= n,
            order@.len() == i,
            forall|k: int| 0 <= k < order@.len() ==> order@[k] < i,
            positions(order@) == ranking(keys@, i as nat),
        decreases n - i,
    {
        let key = keys[i];
        let ghost before = positions(order@);
        let m = order.len();
        let mut p: usize = 0;
        assert(before.skip(0) =~= before);
        while p < m && keys[order[p]] >= key
            invariant
                n == keys@.len(),
                i < n,
                m == order@.len(),
                p <= m,
                before == positions(order@),
                forall|k: int| 0 <= k < order@.len() ==> order@[k] < i,
                slot_for(before, keys@, key) == p + slot_for(
                    before.skip(p as int),
                    keys@,
                    key,
                ),
            decreases m - p,
        {
            assert(before.skip(p as int).drop_first() =~= before.skip(p + 1));
            assert(before.skip(p as int)[0] == order@[p as int]);
            p += 1;
        }
        proof {
            if p < m {
                assert(before.skip(p as int)[0] == order@[p as int]);
            }
        }
        order.insert(p, i);
        assert(positions(order@) =~= before.insert(p as int, i as int));
        i += 1;
    }
    proof {
        lemma_ranking(keys@, n as nat);
        assert forall|i: int, j: int| 0 <= i < j < order@.len() implies order@[i] != order@[j] by {
            assert(positions(order@)[i] == order@[i] && positions(order@)[j] == order@[j]);
        }
    }
    order
}

} // verus!
