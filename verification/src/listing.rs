//! Directory listings as the host hands them over, and their order.

use crate::text::chars_of;
use vstd::prelude::*;
use vstd::string::StringExecFns;

verus! {

/// What kind of thing a directory entry is.
#[derive(Clone, Copy, Debug, PartialEq, Eq, Structural)]
pub enum EntryKind {
    /// A regular file, or anything else that is neither of the two below.
    File,
    /// A directory.
    Directory,
    /// A symbolic link; links are never followed.
    Symlink,
}

/// One entry of a directory, as the host found it.
#[derive(Debug, Clone)]
pub struct DirEntryInfo {
    /// The name of the entry in its directory.
    pub name: String,
    /// The absolute path of the entry.
    pub absolute_path: String,
    /// What the entry is.
    pub kind: EntryKind,
    /// Its size in bytes; nothing where its metadata could not be read.
    pub size: Option<u64>,
}

/// What an entry says, as plain values.
pub struct EntryInfoView {
    pub name: Seq<char>,
    pub absolute_path: Seq<char>,
    pub kind: EntryKind,
    pub size: Option<u64>,
}

impl View for DirEntryInfo {
    type V = EntryInfoView;

    open spec fn view(&self) -> EntryInfoView {
        EntryInfoView {
            name: self.name@,
            absolute_path: self.absolute_path@,
            kind: self.kind,
            size: self.size,
        }
    }
}

impl DirEntryInfo {
    /// A copy of the entry.
    pub fn copy(&self) -> (entry: DirEntryInfo)
        ensures
            entry@ == self@,
    {
        DirEntryInfo {
            name: self.name.clone(),
            absolute_path: self.absolute_path.clone(),
            kind: self.kind,
            size: self.size,
        }
    }
}

/// The views of the entries, in order.
pub open spec fn listing_views(entries: Seq<DirEntryInfo>) -> Seq<EntryInfoView> {
    Seq::new(entries.len(), |i: int| entries[i]@)
}

/// Whether `a` comes before `b`, or is `b`, in the order of names: character
/// by character by code point, a name before its continuations. This is the
/// order of the names' bytes.
pub open spec fn name_le(a: Seq<char>, b: Seq<char>) -> bool
    decreases a.len(),
{
    if a.len() == 0 {
        true
    } else if b.len() == 0 {
        false
    } else if a[0] != b[0] {
        (a[0] as u32) < (b[0] as u32)
    } else {
        name_le(a.drop_first(), b.drop_first())
    }
}

/// Whether `a` may stand before `b` in a listing. Directories come first
/// where `dirs_first` is set and last where it is not; within each group the
/// names decide.
pub open spec fn entry_le(a: EntryInfoView, b: EntryInfoView, dirs_first: bool) -> bool {
    let a_dir = a.kind == EntryKind::Directory;
    let b_dir = b.kind == EntryKind::Directory;
    if a_dir != b_dir {
        a_dir == dirs_first
    } else {
        name_le(a.name, b.name)
    }
}

/// Where an entry goes in an ordered listing: behind every entry that may
/// stand before it.
pub open spec fn listing_slot(ordered: Seq<EntryInfoView>, entry: EntryInfoView, dirs_first: bool) -> nat
    decreases ordered.len(),
{
    if ordered.len() == 0 || !entry_le(ordered[0], entry, dirs_first) {
        0
    } else {
        1 + listing_slot(ordered.drop_first(), entry, dirs_first)
    }
}

/// The listing in order; entries that the order does not tell apart stay as
/// they came.
pub open spec fn ordered_listing(entries: Seq<EntryInfoView>, dirs_first: bool) -> Seq<
    EntryInfoView,
>
    decreases entries.len(),
{
    if entries.len() == 0 {
        Seq::empty()
    } else {
        let before = ordered_listing(entries.drop_last(), dirs_first);
        before.insert(listing_slot(before, entries.last(), dirs_first) as int, entries.last())
    }
}

/// Of two names, one comes before the other or is the other.
pub proof fn lemma_name_le_total(a: Seq<char>, b: Seq<char>)
    ensures
        name_le(a, b) || name_le(b, a),
    decreases a.len(),
{
    if a.len() > 0 && b.len() > 0 {
        if a[0] == b[0] {
            lemma_name_le_total(a.drop_first(), b.drop_first());
        } else {
            vstd::utf8::char_u32_cast(a[0], a[0] as u32);
            vstd::utf8::char_u32_cast(b[0], b[0] as u32);
        }
    }
}

/// The order of names is transitive.
pub proof fn lemma_name_le_transitive(a: Seq<char>, b: Seq<char>, c: Seq<char>)
    requires
        name_le(a, b),
        name_le(b, c),
    ensures
        name_le(a, c),
    decreases a.len(),
{
    if a.len() > 0 && a[0] == b[0] && b[0] == c[0] {
        lemma_name_le_transitive(a.drop_first(), b.drop_first(), c.drop_first());
    }
}

/// Whether each entry of the listing may stand before all that follow it.
pub open spec fn in_order(listing: Seq<EntryInfoView>, dirs_first: bool) -> bool {
    forall|i: int, j: int|
        0 <= i <= j < listing.len() ==> entry_le(listing[i], listing[j], dirs_first)
}

/// In a listing in order, the slot for an entry has before it only entries
/// that may stand before the entry, and from it on only entries that the
/// entry may stand before.
pub proof fn lemma_listing_slot(ordered: Seq<EntryInfoView>, entry: EntryInfoView, dirs_first: bool)
    requires
        in_order(ordered, dirs_first),
    ensures
        listing_slot(ordered, entry, dirs_first) <= ordered.len(),
        forall|i: int|
            0 <= i < listing_slot(ordered, entry, dirs_first) ==> entry_le(
                #[trigger] ordered[i],
                entry,
                dirs_first,
            ),
        forall|i: int|
            listing_slot(ordered, entry, dirs_first) <= i < ordered.len() ==> entry_le(
                entry,
                #[trigger] ordered[i],
                dirs_first,
            ),
    decreases ordered.len(),
{
    if ordered.len() > 0 {
        let rest = ordered.drop_first();
        assert forall|i: int, j: int| 0 <= i <= j < rest.len() implies entry_le(
            rest[i],
            rest[j],
            dirs_first,
        ) by {
            assert(rest[i] == ordered[i + 1] && rest[j] == ordered[j + 1]);
        }
        if entry_le(ordered[0], entry, dirs_first) {
            lemma_listing_slot(rest, entry, dirs_first);
            let p = listing_slot(rest, entry, dirs_first);
            assert forall|i: int| 0 <= i < p + 1 implies entry_le(
                #[trigger] ordered[i],
                entry,
                dirs_first,
            ) by {
                if i > 0 {
                    assert(ordered[i] == rest[i - 1]);
                }
            }
            assert forall|i: int| p + 1 <= i < ordered.len() implies entry_le(
                entry,
                #[trigger] ordered[i],
                dirs_first,
            ) by {
                assert(ordered[i] == rest[i - 1]);
            }
        } else {
            lemma_name_le_total(ordered[0].name, entry.name);
            assert forall|i: int| 0 <= i < ordered.len() implies entry_le(
                entry,
                #[trigger] ordered[i],
                dirs_first,
            ) by {
                assert(entry_le(ordered[0], ordered[i], dirs_first));
                if (entry.kind == EntryKind::Directory) == (ordered[0].kind
                    == EntryKind::Directory) && (ordered[0].kind == EntryKind::Directory) == (
                ordered[i].kind == EntryKind::Directory) {
                    lemma_name_le_transitive(entry.name, ordered[0].name, ordered[i].name);
                }
            }
        }
    }
}

/// Putting a listing in order keeps every entry, as often as it came, and
/// lets each entry stand before all that follow it.
pub proof fn lemma_ordered_listing(entries: Seq<EntryInfoView>, dirs_first: bool)
    ensures
        in_order(ordered_listing(entries, dirs_first), dirs_first),
        ordered_listing(entries, dirs_first).len() == entries.len(),
        ordered_listing(entries, dirs_first).to_multiset() == entries.to_multiset(),
    decreases entries.len(),
{
    if entries.len() == 0 {
        assert(ordered_listing(entries, dirs_first) =~= entries);
    } else {
        let earlier = entries.drop_last();
        let last = entries.last();
        let before = ordered_listing(earlier, dirs_first);
        lemma_ordered_listing(earlier, dirs_first);
        lemma_listing_slot(before, last, dirs_first);
        let p = listing_slot(before, last, dirs_first) as int;
        let after = before.insert(p, last);
        lemma_name_le_total(last.name, last.name);
        assert forall|i: int, j: int| 0 <= i <= j < after.len() implies entry_le(
            after[i],
            after[j],
            dirs_first,
        ) by {
            let i0 = if i < p { i } else { i - 1 };
            let j0 = if j < p { j } else { j - 1 };
            if i != p && j != p {
                assert(after[i] == before[i0] && after[j] == before[j0]);
            } else if i == p && j != p {
                assert(after[j] == before[j0]);
            } else if j == p && i != p {
                assert(after[i] == before[i0]);
            }
        }
        assert(entries =~= earlier.push(last));
        earlier.to_multiset_ensures();
        after.to_multiset_ensures();
        assert(after.remove(p) =~= before);
        assert(after[p] == last);
        assert(after.contains(last));
        assert(after.to_multiset() =~= before.to_multiset().insert(last)) by {
            broadcast use vstd::multiset::group_multiset_axioms;

            assert(before.to_multiset() =~= after.to_multiset().remove(last));
        }
    }
}

/// Whether `a` comes before `b`, or is `b`, in the order of names.
pub fn name_before_or_same(a: &[char], b: &[char]) -> (le: bool)
    ensures
        le == name_le(a@, b@),
{
    let n = a.len();
    let m = b.len();
    let mut i: usize = 0;
    assert(a@.skip(0) =~= a@);
    assert(b@.skip(0) =~= b@);
    while i < n && i < m
        invariant
            n == a@.len(),
            m == b@.len(),
            i <= n,
            i <= m,
            name_le(a@, b@) == name_le(a@.skip(i as int), b@.skip(i as int)),
        decreases n - i,
    {
        assert(a@.skip(i as int)[0] == a@[i as int]);
        assert(b@.skip(i as int)[0] == b@[i as int]);
        assert(a@.skip(i as int).drop_first() =~= a@.skip(i + 1));
        assert(b@.skip(i as int).drop_first() =~= b@.skip(i + 1));
        if a[i] != b[i] {
            return (a[i] as u32) < (b[i] as u32);
        }
        i += 1;
    }
    i == n
}

/// Whether entry `a` may stand before entry `b`.
pub fn entry_before_or_same(a: &DirEntryInfo, b: &DirEntryInfo, dirs_first: bool) -> (le: bool)
    ensures
        le == entry_le(a@, b@, dirs_first),
{
    let a_dir = match a.kind {
        EntryKind::Directory => true,
        _ => false,
    };
    let b_dir = match b.kind {
        EntryKind::Directory => true,
        _ => false,
    };
    if a_dir != b_dir {
        a_dir == dirs_first
    } else {
        let an = chars_of(a.name.as_str());
        let bn = chars_of(b.name.as_str());
        name_before_or_same(an.as_slice(), bn.as_slice())
    }
}

/// Puts a listing in order: directories first or last as asked, names
/// ascending within each group.
pub fn order_listing(entries: &Vec<DirEntryInfo>, dirs_first: bool) -> (ordered: Vec<DirEntryInfo>)
    ensures
        listing_views(ordered@) == ordered_listing(listing_views(entries@), dirs_first),
        in_order(listing_views(ordered@), dirs_first),
        listing_views(ordered@).to_multiset() == listing_views(entries@).to_multiset(),
{
    let mut ordered: Vec<DirEntryInfo> = Vec::new();
    let n = entries.len();
    let mut i: usize = 0;
    assert(listing_views(entries@).take(0) =~= Seq::<EntryInfoView>::empty());
    assert(listing_views(ordered@) =~= Seq::<EntryInfoView>::empty());
    while i < n
        invariant
            n == entries@.len(),
            i <= n,
            listing_views(ordered@) == ordered_listing(
                listing_views(entries@).take(i as int),
                dirs_first,
            ),
        decreases n - i,
    {
        let entry = entries[i].copy();
        let ghost before = listing_views(ordered@);
        let ghost prefix = listing_views(entries@).take(i + 1);
        assert(prefix.drop_last() =~= listing_views(entries@).take(i as int));
        assert(prefix.last() == entry@);
        let m = ordered.len();
        let mut p: usize = 0;
        assert(before.skip(0) =~= before);
        while p < m && entry_before_or_same(&ordered[p], &entry, dirs_first)
            invariant
                m == ordered@.len(),
                p <= m,
                before == listing_views(ordered@),
                listing_slot(before, entry@, dirs_first) == p + listing_slot(
                    before.skip(p as int),
                    entry@,
                    dirs_first,
                ),
            decreases m - p,
        {
            assert(before.skip(p as int).drop_first() =~= before.skip(p + 1));
            assert(before.skip(p as int)[0] == ordered@[p as int]@);
            p += 1;
        }
        proof {
            if p < m {
                assert(before.skip(p as int)[0] == ordered@[p as int]@);
            }
        }
        ordered.insert(p, entry);
        assert(listing_views(ordered@) =~= before.insert(p as int, entry@));
        i += 1;
    }
    assert(listing_views(entries@).take(n as int) =~= listing_views(entries@));
    proof {
        lemma_ordered_listing(listing_views(entries@), dirs_first);
    }
    ordered
}

/// The path of an entry relative to the root: its name, behind the relative
/// path of its directory and a slash where the directory is not the root.
pub open spec fn relative_path_of(parent: Seq<char>, name: Seq<char>) -> Seq<char> {
    if parent.len() == 0 {
        name
    } else {
        parent + "/"@ + name
    }
}

/// The path of an entry relative to the root, with forward slashes.
pub fn join_relative(parent: &str, name: &str) -> (path: String)
    ensures
        path@ == relative_path_of(parent@, name@),
{
    if parent.is_empty() {
        name.to_owned()
    } else {
        let mut path = parent.to_owned();
        path.append("/");
        path.append(name);
        path
    }
}

} // verus!
