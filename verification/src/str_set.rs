//! A set of strings that keeps its members in the order in which they came.

use crate::str_map::{all_distinct, StrMap};
use vstd::prelude::*;

verus! {

/// A set of strings.
pub struct StrSet {
    members: StrMap<()>,
}

impl StrSet {
    /// Whether the set is in order. Every operation asks for it and keeps it.
    pub closed spec fn wf(&self) -> bool {
        self.members.wf()
    }

    /// The members, in the order in which they came.
    pub closed spec fn members(&self) -> Seq<Seq<char>> {
        self.members.keys()
    }

    /// The set as such.
    pub closed spec fn view(&self) -> Set<Seq<char>> {
        self.members@.dom()
    }

    /// No member stands twice among the members, and the members are what
    /// the set holds.
    pub proof fn lemma_members(&self)
        requires
            self.wf(),
        ensures
            all_distinct(self.members()),
            forall|member: Seq<char>| self@.contains(member) <==> self.members().contains(member),
    {
    }

    /// An empty set.
    pub fn new() -> (set: Self)
        ensures
            set.wf(),
            set@ == Set::<Seq<char>>::empty(),
            set.members() == Seq::<Seq<char>>::empty(),
    {
        let set = StrSet { members: StrMap::new() };
        assert(set@ =~= Set::<Seq<char>>::empty());
        set
    }

    /// Puts `member` into the set; says whether it was new.
    pub fn insert(&mut self, member: String) -> (added: bool)
        requires
            old(self).wf(),
        ensures
            final(self).wf(),
            final(self)@ == old(self)@.insert(member@),
            added == !old(self)@.contains(member@),
            final(self).members() == if added {
                old(self).members().push(member@)
            } else {
                old(self).members()
            },
    {
        let ghost before = self@;
        let added = self.members.insert(member, ()).is_none();
        assert(self@ =~= before.insert(member@));
        added
    }

    /// Takes `member` out of the set; says whether it was in it.
    pub fn remove(&mut self, member: &str) -> (removed: bool)
        requires
            old(self).wf(),
        ensures
            final(self).wf(),
            final(self)@ == old(self)@.remove(member@),
            removed == old(self)@.contains(member@),
    {
        let ghost before = self@;
        let removed = self.members.remove(member).is_some();
        assert(self@ =~= before.remove(member@));
        removed
    }

    /// Whether `member` is in the set.
    pub fn contains(&self, member: &str) -> (found: bool)
        requires
            self.wf(),
        ensures
            found == self@.contains(member@),
    {
        self.members.contains_key(member)
    }

    /// Number of members.
    pub fn len(&self) -> (n: usize)
        requires
            self.wf(),
        ensures
            n == self@.len(),
            n == self.members().len(),
            self@.finite(),
    {
        self.members.len()
    }

    /// Whether the set has no members.
    pub fn is_empty(&self) -> (empty: bool)
        requires
            self.wf(),
        ensures
            empty == (self@.len() == 0),
            self@.finite(),
    {
        self.len() == 0
    }

    /// The member at position `at`, in the order in which the members came.
    pub fn member_at(&self, at: usize) -> (member: &String)
        requires
            self.wf(),
            at < self.members().len(),
        ensures
            member@ == self.members()[at as int],
            self@.contains(member@),
    {
        let member = self.members.key_at(at);
        proof {
            crate::str_map::lemma_position(self.members.keys(), at as int);
        }
        member
    }

    /// Takes every member out.
    pub fn clear(&mut self)
        requires
            old(self).wf(),
        ensures
            final(self).wf(),
            final(self)@ == Set::<Seq<char>>::empty(),
            final(self).members() == Seq::<Seq<char>>::empty(),
    {
        self.members.clear();
        assert(self@ =~= Set::<Seq<char>>::empty());
    }
}

} // verus!
