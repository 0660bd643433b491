//! Scores of matches and the order of results.

use crate::text::{
    contains_seq, find_first, is_first_occurrence, is_prefix, occurs_at, same_chars, starts_with,
};
use vstd::prelude::*;

verus! {

/// Score of a name that equals the query, in hundredths.
pub const SCORE_EQUAL: u32 = 100;

/// Score of a name that starts with the query without being it.
pub const SCORE_STARTS_WITH: u32 = 90;

/// Score of a document that a prefix search finds.
pub const SCORE_PREFIX: u32 = 95;

/// Score of any other name that holds the query, before bonuses.
pub const SCORE_CONTAINS: u32 = 70;

/// Bonus for a match at position 0.
pub const BONUS_POSITION: u32 = 10;

/// Bonus for a match that starts the name or follows a space.
pub const BONUS_WORD_BOUNDARY: u32 = 5;

/// One result of a search. The score is in hundredths: 100 stands for 1.00.
#[derive(Debug, Clone)]
pub struct SearchResult {
    pub node_id: String,
    pub name: String,
    pub score: u32,
    pub account_id: String,
    pub provider: String,
}

/// What a result says, as plain values.
pub struct HitView {
    pub node_id: Seq<char>,
    pub name: Seq<char>,
    pub score: nat,
    pub account_id: Seq<char>,
    pub provider: Seq<char>,
}

impl View for SearchResult {
    type V = HitView;

    open spec fn view(&self) -> HitView {
        HitView {
            node_id: self.node_id@,
            name: self.name@,
            score: self.score as nat,
            account_id: self.account_id@,
            provider: self.provider@,
        }
    }
}

impl SearchResult {
    /// A copy of the result.
    pub fn copy(&self) -> (hit: SearchResult)
        ensures
            hit@ == self@,
    {
        SearchResult {
            node_id: self.node_id.clone(),
            name: self.name.clone(),
            score: self.score,
            account_id: self.account_id.clone(),
            provider: self.provider.clone(),
        }
    }
}

/// The views of the results, in order.
pub open spec fn hit_views(hits: Seq<SearchResult>) -> Seq<HitView> {
    Seq::new(hits.len(), |i: int| hits[i]@)
}

/// Bonus for where the first match stands: 10 at position 0.
pub open spec fn position_bonus(at: int) -> nat {
    if at == 0 {
        10
    } else {
        0
    }
}

/// Bonus for a match at a word boundary: 5 where the first match starts the
/// name or follows a space.
pub open spec fn boundary_bonus(name: Seq<char>, at: int) -> nat {
    if at == 0 || name[at - 1] == ' ' {
        5
    } else {
        0
    }
}

/// Score, in hundredths, of a lowercased name against a lowercased query;
/// nothing where the name does not hold the query. 100 for equality, 90 for a
/// name that starts with the query, else 70 plus the bonuses for the place of
/// the first match.
pub open spec fn match_score(name: Seq<char>, query: Seq<char>) -> Option<nat> {
    if !contains_seq(name, query) {
        None
    } else if name == query {
        Some(100)
    } else if is_prefix(query, name) {
        Some(90)
    } else {
        let at = choose|at: int| is_first_occurrence(name, query, at);
        Some(70 + position_bonus(at) + boundary_bonus(name, at))
    }
}

/// There is one first occurrence at most.
pub proof fn lemma_first_occurrence_unique(s: Seq<char>, q: Seq<char>, a: int, b: int)
    requires
        is_first_occurrence(s, q, a),
        is_first_occurrence(s, q, b),
    ensures
        a == b,
{
    if a < b {
        assert(!occurs_at(s, q, a));
    } else if b < a {
        assert(!occurs_at(s, q, b));
    }
}

/// A name that holds the query without starting with it scores 70, and 75
/// where a space stands before the first match.
pub proof fn lemma_score_of_inner_match(name: Seq<char>, query: Seq<char>, at: int)
    requires
        is_first_occurrence(name, query, at),
        at > 0,
    ensures
        match_score(name, query) == Some(
            if name[at - 1] == ' ' {
                75nat
            } else {
                70nat
            },
        ),
{
    assert(contains_seq(name, query));
    if is_prefix(query, name) {
        assert(name.subrange(0, 0int + query.len()) =~= name.take(query.len() as int));
        assert(occurs_at(name, query, 0));
    }
    if name == query {
        assert(name.subrange(0, 0int + query.len()) =~= name);
        assert(occurs_at(name, query, 0));
    }
    let chosen = choose|c: int| is_first_occurrence(name, query, c);
    lemma_first_occurrence_unique(name, query, at, chosen);
}

/// Computes [`match_score`] of a lowercased name against a lowercased query.
pub fn score_of(name: &[char], query: &[char]) -> (score: Option<u32>)
    ensures
        match score {
            Some(s) => match_score(name@, query@) == Some(s as nat),
            None => match_score(name@, query@) is None,
        },
{
    let at = match find_first(name, query) {
        Some(at) => at,
        None => {
            return None;
        },
    };
    assert(contains_seq(name@, query@));
    if same_chars(name, query) {
        Some(SCORE_EQUAL)
    } else if starts_with(name, query) {
        Some(SCORE_STARTS_WITH)
    } else {
        proof {
            if at == 0 {
                assert(name@.subrange(0, 0int + query@.len()) =~= name@.take(query@.len() as int));
            }
            lemma_score_of_inner_match(name@, query@, at as int);
        }
        let position: u32 = if at == 0 {
            BONUS_POSITION
        } else {
            0
        };
        let boundary: u32 = if at == 0 || name[at - 1] == ' ' {
            BONUS_WORD_BOUNDARY
        } else {
            0
        };
        Some(SCORE_CONTAINS + position + boundary)
    }
}

/// Where a hit of this score goes in a ranked list: behind every hit that
/// scores as much or more.
pub open spec fn rank_position(ranked: Seq<HitView>, score: nat) -> nat
    decreases ranked.len(),
{
    if ranked.len() == 0 || ranked[0].score < score {
        0
    } else {
        1 + rank_position(ranked.drop_first(), score)
    }
}

/// The hits by score, highest first; hits of one score stay in their order.
pub open spec fn ranked(hits: Seq<HitView>) -> Seq<HitView>
    decreases hits.len(),
{
    if hits.len() == 0 {
        Seq::empty()
    } else {
        let before = ranked(hits.drop_last());
        before.insert(rank_position(before, hits.last().score) as int, hits.last())
    }
}

/// The first `limit` of `hits`, or all where there are fewer.
pub open spec fn top(hits: Seq<HitView>, limit: nat) -> Seq<HitView> {
    if limit <= hits.len() {
        hits.take(limit as int)
    } else {
        hits
    }
}

/// Whether the scores fall from the first hit to the last.
pub open spec fn scores_fall(hits: Seq<HitView>) -> bool {
    forall|i: int, j: int| 0 <= i <= j < hits.len() ==> hits[i].score >= hits[j].score
}

/// In a list whose scores fall, the place for a score has only hits of that
/// score or more before it, and only lower ones from it on.
pub proof fn lemma_rank_position(list: Seq<HitView>, score: nat)
    requires
        scores_fall(list),
    ensures
        rank_position(list, score) <= list.len(),
        forall|i: int| 0 <= i < rank_position(list, score) ==> list[i].score >= score,
        forall|i: int| rank_position(list, score) <= i < list.len() ==> list[i].score < score,
    decreases list.len(),
{
    if list.len() > 0 && list[0].score >= score {
        let rest = list.drop_first();
        assert forall|i: int, j: int| 0 <= i <= j < rest.len() implies rest[i].score
            >= rest[j].score by {
            assert(rest[i] == list[i + 1] && rest[j] == list[j + 1]);
        }
        lemma_rank_position(rest, score);
        let p = rank_position(rest, score);
        assert forall|i: int| 0 <= i < p + 1 implies list[i].score >= score by {
            if i > 0 {
                assert(list[i] == rest[i - 1]);
            }
        }
        assert forall|i: int| p + 1 <= i < list.len() implies list[i].score < score by {
            assert(list[i] == rest[i - 1]);
        }
    } else if list.len() > 0 {
        assert forall|i: int| 0 <= i < list.len() implies list[i].score < score by {
            assert(list[0].score >= list[i].score);
        }
    }
}

/// Ranking orders the hits by falling score and keeps every hit: the ranked
/// list holds the same hits as often as the list ranked.
pub proof fn lemma_ranked(hits: Seq<HitView>)
    ensures
        scores_fall(ranked(hits)),
        ranked(hits).len() == hits.len(),
        ranked(hits).to_multiset() == hits.to_multiset(),
    decreases hits.len(),
{
    if hits.len() == 0 {
        assert(ranked(hits) =~= hits);
    } else {
        let before = ranked(hits.drop_last());
        let last = hits.last();
        lemma_ranked(hits.drop_last());
        lemma_rank_position(before, last.score);
        let p = rank_position(before, last.score) as int;
        let after = before.insert(p, last);
        assert forall|i: int, j: int| 0 <= i <= j < after.len() implies after[i].score
            >= after[j].score by {
            let i0 = if i < p { i } else { i - 1 };
            let j0 = if j < p { j } else { j - 1 };
            if i != p && j != p {
                assert(after[i] == before[i0] && after[j] == before[j0]);
            } else if i == p && j != p {
                assert(after[j] == before[j0]);
            } else if j == p && i != p {
                assert(after[i] == before[i0]);
            }
        }
        assert(hits =~= hits.drop_last().push(last));
        hits.drop_last().to_multiset_ensures();
        after.to_multiset_ensures();
        assert(after.remove(p) =~= before);
        assert(after[p] == last);
        assert(after.contains(last));
        assert(after.to_multiset() =~= before.to_multiset().insert(last)) by {
            broadcast use vstd::multiset::group_multiset_axioms;

            assert(before.to_multiset() =~= after.to_multiset().remove(last));
        }
    }
}

/// Ranks the hits: highest score first, hits of one score in their order.
pub fn rank(hits: &Vec<SearchResult>) -> (sorted: Vec<SearchResult>)
    ensures
        hit_views(sorted@) == ranked(hit_views(hits@)),
        scores_fall(hit_views(sorted@)),
        hit_views(sorted@).to_multiset() == hit_views(hits@).to_multiset(),
{
    let mut sorted: Vec<SearchResult> = Vec::new();
    let n = hits.len();
    let mut i: usize = 0;
    assert(hit_views(hits@).take(0) =~= Seq::<HitView>::empty());
    assert(hit_views(sorted@) =~= Seq::<HitView>::empty());
    while i < n
        invariant
            n == hits@.len(),
            i <= n,
            hit_views(sorted@) == ranked(hit_views(hits@).take(i as int)),
        decreases n - i,
    {
        let hit = hits[i].copy();
        let ghost before = hit_views(sorted@);
        let ghost prefix = hit_views(hits@).take(i + 1);
        assert(prefix.drop_last() =~= hit_views(hits@).take(i as int));
        assert(prefix.last() == hit@);
        let m = sorted.len();
        let mut p: usize = 0;
        assert(before.skip(0) =~= before);
        while p < m && sorted[p].score >= hit.score
            invariant
                m == sorted@.len(),
                p <= m,
                before == hit_views(sorted@),
                rank_position(before, hit@.score) == p + rank_position(
                    before.skip(p as int),
                    hit@.score,
                ),
            decreases m - p,
        {
            assert(before.skip(p as int).drop_first() =~= before.skip(p + 1));
            assert(before.skip(p as int)[0] == sorted@[p as int]@);
            p += 1;
        }
        proof {
            if p < m {
                assert(before.skip(p as int)[0] == sorted@[p as int]@);
            }
        }
        sorted.insert(p, hit);
        assert(hit_views(sorted@) =~= before.insert(p as int, hit@));
        i += 1;
    }
    assert(hit_views(hits@).take(n as int) =~= hit_views(hits@));
    proof {
        lemma_ranked(hit_views(hits@));
    }
    sorted
}

/// Cuts a list of results down to its first `limit`.
pub fn keep_top(hits: &mut Vec<SearchResult>, limit: usize)
    ensures
        hit_views(final(hits)@) == top(hit_views(old(hits)@), limit as nat),
{
    hits.truncate(limit);
    assert(hit_views(hits@) =~= top(hit_views(old(hits)@), limit as nat));
}

} // verus!
