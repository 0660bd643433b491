//! Display paths of nodes, rebuilt from their parent links.

use crate::search::index::{IndexModel, SearchIndex};
use crate::str_map::StrMap;
use crate::text::{same_str, views_of};
use vstd::prelude::*;
use vstd::string::StringExecFns;

verus! {

/// A search result together with the display path of its node. The score is
/// in hundredths.
#[derive(Debug, Clone)]
pub struct SearchResultWithPath {
    pub node_id: String,
    pub name: String,
    pub score: u32,
    pub account_id: String,
    pub provider: String,
    pub display_path: String,
}

/// What the builder knows of a node: its name and the id of its parent.
pub struct PathNode {
    pub name: String,
    pub parent_id: Option<String>,
}

/// What a node says, as plain values.
pub struct PathNodeView {
    pub name: Seq<char>,
    pub parent_id: Option<Seq<char>>,
}

impl View for PathNode {
    type V = PathNodeView;

    open spec fn view(&self) -> PathNodeView {
        PathNodeView {
            name: self.name@,
            parent_id: match self.parent_id {
                Some(id) => Some(id@),
                None => None,
            },
        }
    }
}

/// The nodes by id.
pub type NodeMap = Map<Seq<char>, PathNodeView>;

/// The names on the way from `current` up to its root, the name of `current`
/// first. The walk ends at a node without a parent, at an id that no node
/// has, and at a node that it has passed already; it takes `budget` steps at
/// most.
pub open spec fn names_upward(
    nodes: NodeMap,
    current: Seq<char>,
    visited: Seq<Seq<char>>,
    budget: nat,
) -> Seq<Seq<char>>
    decreases budget,
{
    if budget == 0 || !nodes.contains_key(current) || visited.contains(current) {
        Seq::empty()
    } else {
        match nodes[current].parent_id {
            Some(parent) => seq![nodes[current].name] + names_upward(
                nodes,
                parent,
                visited.push(current),
                (budget - 1) as nat,
            ),
            None => seq![nodes[current].name],
        }
    }
}

/// The parts in a row, `separator` between each two.
pub open spec fn joined(parts: Seq<Seq<char>>, separator: Seq<char>) -> Seq<char>
    decreases parts.len(),
{
    if parts.len() == 0 {
        Seq::empty()
    } else if parts.len() == 1 {
        parts[0]
    } else {
        joined(parts.drop_last(), separator) + separator + parts.last()
    }
}

/// The display path of a node: the names from its root down to it, joined by
/// `" / "`. Every node is passed once at most, so a walk through all nodes is
/// long enough.
pub open spec fn display_path(nodes: NodeMap, node_id: Seq<char>) -> Seq<char> {
    joined(names_upward(nodes, node_id, Seq::empty(), nodes.len()).reverse(), " / "@)
}

/// The name by which a provider is shown: `Google Drive` for `gdrive`, and
/// the identifier itself for any other.
pub open spec fn provider_label(provider: Seq<char>) -> Seq<char> {
    if provider == "gdrive"@ {
        "Google Drive"@
    } else {
        provider
    }
}

/// The display path of a node behind the account it belongs to: the email,
/// the provider's label in brackets, and the path where there is one.
pub open spec fn display_path_with_account(
    nodes: NodeMap,
    node_id: Seq<char>,
    email: Seq<char>,
    provider: Seq<char>,
) -> Seq<char> {
    let prefix = email + " ("@ + provider_label(provider) + ")"@;
    if display_path(nodes, node_id).len() == 0 {
        prefix
    } else {
        prefix + " / "@ + display_path(nodes, node_id)
    }
}

/// The node views that a map of nodes holds.
pub open spec fn node_views(nodes: Map<Seq<char>, PathNode>) -> NodeMap {
    Map::new(|k: Seq<char>| nodes.contains_key(k), |k: Seq<char>| nodes[k]@)
}

/// Joins the parts, last part first, with `separator` between each two.
fn join_reversed(parts: &Vec<String>, separator: &str) -> (path: String)
    ensures
        path@ == joined(views_of(parts@).reverse(), separator@),
{
    let ghost views = views_of(parts@).reverse();
    let mut path = String::new();
    let n = parts.len();
    let mut i: usize = 0;
    assert(views.take(0) =~= Seq::<Seq<char>>::empty());
    while i < n
        invariant
            n == parts@.len(),
            i <= n,
            views == views_of(parts@).reverse(),
            path@ == joined(views.take(i as int), separator@),
        decreases n - i,
    {
        let ghost prefix = views.take(i + 1);
        assert(prefix.drop_last() =~= views.take(i as int));
        assert(prefix.last() == parts@[n - 1 - i]@);
        if i > 0 {
            path.append(separator);
        }
        path.append(parts[n - 1 - i].as_str());
        proof {
            if i == 0 {
                assert(path@ =~= prefix[0]);
            }
        }
        i += 1;
    }
    assert(views.take(n as int) =~= views);
    path
}

/// Rebuilds display paths from the parent links of the nodes it was told of.
pub struct PathBuilder {
    node_cache: StrMap<PathNode>,
}

impl PathBuilder {
    /// Whether the builder is in order. Every operation asks for it and
    /// keeps it.
    pub closed spec fn wf(&self) -> bool {
        self.node_cache.wf()
    }

    /// The nodes by id.
    pub closed spec fn view(&self) -> NodeMap {
        node_views(self.node_cache@)
    }

    /// A builder that knows no node.
    pub fn new() -> (builder: Self)
        ensures
            builder.wf(),
            builder@ == Map::<Seq<char>, PathNodeView>::empty(),
    {
        let builder = PathBuilder { node_cache: StrMap::new() };
        assert(builder@ =~= Map::<Seq<char>, PathNodeView>::empty());
        builder
    }

    /// Tells the builder of a node; what it knew of the id before is gone.
    pub fn add_node(&mut self, node_id: String, name: String, parent_id: Option<String>)
        requires
            old(self).wf(),
        ensures
            final(self).wf(),
            final(self)@ == old(self)@.insert(
                node_id@,
                PathNodeView {
                    name: name@,
                    parent_id: match parent_id {
                        Some(id) => Some(id@),
                        None => None,
                    },
                },
            ),
    {
        let ghost before = self@;
        let node = PathNode { name, parent_id };
        let ghost view = node@;
        let _ = self.node_cache.insert(node_id, node);
        assert(self@ =~= before.insert(node_id@, view));
    }

    /// The display path of a node: the names from its root down to it, joined
    /// by `" / "`. An id that no node has gives the empty path; a chain of
    /// parents that runs in a circle is followed once around.
    pub fn build_path(&self, node_id: &str) -> (path: String)
        requires
            self.wf(),
        ensures
            path@ == display_path(self@, node_id@),
    {
        let mut parts: Vec<String> = Vec::new();
        let mut visited: Vec<String> = Vec::new();
        let mut current: String = node_id.to_owned();
        let mut budget: usize = self.node_cache.len();
        let mut done = false;
        let ghost nodes = self@;
        let ghost all = names_upward(nodes, node_id@, Seq::empty(), nodes.len());
        proof {
            assert(nodes.dom() =~= self.node_cache@.dom());
            assert(views_of(parts@) =~= Seq::<Seq<char>>::empty());
            assert(views_of(visited@) =~= Seq::<Seq<char>>::empty());
            assert(Seq::<Seq<char>>::empty() + all =~= all);
        }
        while !done && budget > 0
            invariant
                self.wf(),
                nodes == self@,
                done ==> views_of(parts@) == all,
                !done ==> views_of(parts@) + names_upward(
                    nodes,
                    current@,
                    views_of(visited@),
                    budget as nat,
                ) == all,
            decreases
                    (if done {
                        0int
                    } else {
                        budget as int
                    }),
        {
            let ghost before = views_of(parts@);
            let ghost seen = views_of(visited@);
            let ghost here = current@;
            if Self::listed(&visited, current.as_str()) {
                assert(before + Seq::<Seq<char>>::empty() =~= before);
                done = true;
            } else {
                match self.node_cache.get(current.as_str()) {
                    None => {
                        assert(before + Seq::<Seq<char>>::empty() =~= before);
                        done = true;
                    },
                    Some(node) => {
                        assert(node@ == nodes[here]);
                        parts.push(node.name.clone());
                        assert(views_of(parts@) =~= before.push(node@.name));
                        match &node.parent_id {
                            Some(parent) => {
                                let next = parent.clone();
                                visited.push(current);
                                assert(views_of(visited@) =~= seen.push(here));
                                current = next;
                                budget = budget - 1;
                                proof {
                                    let later = names_upward(
                                        nodes,
                                        current@,
                                        seen.push(here),
                                        budget as nat,
                                    );
                                    assert(before + (seq![node@.name] + later) =~= before.push(
                                        node@.name,
                                    ) + later);
                                }
                            },
                            None => {
                                assert(before + seq![node@.name] =~= before.push(node@.name));
                                done = true;
                            },
                        }
                    },
                }
            }
        }
        proof {
            if !done {
                assert(views_of(parts@) + Seq::<Seq<char>>::empty() =~= views_of(parts@));
            }
        }
        join_reversed(&parts, " / ")
    }

    /// The display path of a node behind its account: the email, the
    /// provider's label in brackets, then the path where there is one.
    pub fn build_path_with_account(&self, node_id: &str, email: &str, provider: &str) -> (path:
        String)
        requires
            self.wf(),
        ensures
            path@ == display_path_with_account(self@, node_id@, email@, provider@),
    {
        let mut path = email.to_owned();
        path.append(" (");
        if same_str(provider, "gdrive") {
            path.append("Google Drive");
        } else {
            path.append(provider);
        }
        path.append(")");
        let inner = self.build_path(node_id);
        if !inner.as_str().is_empty() {
            path.append(" / ");
            path.append(inner.as_str());
        }
        path
    }

    /// Whether `id` is in `list`.
    fn listed(list: &Vec<String>, id: &str) -> (found: bool)
        ensures
            found == views_of(list@).contains(id@),
    {
        let n = list.len();
        let mut i: usize = 0;
        while i < n
            invariant
                n == list@.len(),
                i <= n,
                forall|j: int| 0 <= j < i ==> views_of(list@)[j] != id@,
            decreases n - i,
        {
            if same_str(list[i].as_str(), id) {
                assert(views_of(list@)[i as int] == id@);
                return true;
            }
            i += 1;
        }
        false
    }

    /// Forgets every node.
    pub fn clear(&mut self)
        requires
            old(self).wf(),
        ensures
            final(self).wf(),
            final(self)@ == Map::<Seq<char>, PathNodeView>::empty(),
    {
        self.node_cache.clear();
        assert(self@ =~= Map::<Seq<char>, PathNodeView>::empty());
    }

    /// Number of nodes that the builder knows.
    pub fn len(&self) -> (n: usize)
        requires
            self.wf(),
        ensures
            n == self@.len(),
            self@.dom().finite(),
    {
        proof {
            assert(self@.dom() =~= self.node_cache@.dom());
        }
        self.node_cache.len()
    }

    /// Whether the builder knows no node.
    pub fn is_empty(&self) -> (empty: bool)
        requires
            self.wf(),
        ensures
            empty == (self@.len() == 0),
            self@.dom().finite(),
    {
        self.len() == 0
    }
}

/// The nodes that the documents of an index make: each document by its id,
/// with its name and the id of its parent.
pub open spec fn index_nodes(index: IndexModel) -> NodeMap {
    Map::new(
        |id: Seq<char>| index.has(id),
        |id: Seq<char>| PathNodeView { name: index.doc(id).name, parent_id: index.doc(id).parent_id },
    )
}

/// The names from the root down to a node, by the parent links of the
/// documents in the index. The walk ends as that of [`PathBuilder::build_path`]
/// does, and passes every document once at most.
pub fn build_path_from_index(index: &SearchIndex, node_id: &str) -> (parts: Vec<String>)
    requires
        index.wf(),
    ensures
        views_of(parts@) == names_upward(
            index_nodes(index@),
            node_id@,
            Seq::empty(),
            index@.docs.len(),
        ).reverse(),
{
    let mut upward: Vec<String> = Vec::new();
    let mut visited: Vec<String> = Vec::new();
    let mut current: String = node_id.to_owned();
    let mut budget: usize = index.len();
    let mut done = false;
    let ghost nodes = index_nodes(index@);
    let ghost all = names_upward(nodes, node_id@, Seq::empty(), index@.docs.len());
    proof {
        assert(views_of(upward@) =~= Seq::<Seq<char>>::empty());
        assert(views_of(visited@) =~= Seq::<Seq<char>>::empty());
        assert(Seq::<Seq<char>>::empty() + all =~= all);
    }
    while !done && budget > 0
        invariant
            index.wf(),
            nodes == index_nodes(index@),
            done ==> views_of(upward@) == all,
            !done ==> views_of(upward@) + names_upward(
                nodes,
                current@,
                views_of(visited@),
                budget as nat,
            ) == all,
        decreases
                (if done {
                    0int
                } else {
                    budget as int
                }),
    {
        let ghost before = views_of(upward@);
        let ghost seen = views_of(visited@);
        let ghost here = current@;
        if PathBuilder::listed(&visited, current.as_str()) {
            assert(before + Seq::<Seq<char>>::empty() =~= before);
            done = true;
        } else {
            match index.get(current.as_str()) {
                None => {
                    assert(before + Seq::<Seq<char>>::empty() =~= before);
                    done = true;
                },
                Some(doc) => {
                    assert(nodes[here].name == doc@.name);
                    upward.push(doc.name.clone());
                    assert(views_of(upward@) =~= before.push(doc@.name));
                    match &doc.parent_id {
                        Some(parent) => {
                            let next = parent.clone();
                            visited.push(current);
                            assert(views_of(visited@) =~= seen.push(here));
                            current = next;
                            budget = budget - 1;
                            proof {
                                let later = names_upward(
                                    nodes,
                                    current@,
                                    seen.push(here),
                                    budget as nat,
                                );
                                assert(before + (seq![doc@.name] + later) =~= before.push(
                                    doc@.name,
                                ) + later);
                            }
                        },
                        None => {
                            assert(before + seq![doc@.name] =~= before.push(doc@.name));
                            done = true;
                        },
                    }
                },
            }
        }
    }
    proof {
        if !done {
            assert(views_of(upward@) + Seq::<Seq<char>>::empty() =~= views_of(upward@));
        }
    }
    let mut parts: Vec<String> = Vec::new();
    let n = upward.len();
    let mut i: usize = 0;
    while i < n
        invariant
            n == upward@.len(),
            i <= n,
            views_of(parts@) == views_of(upward@).reverse().take(i as int),
        decreases n - i,
    {
        let ghost so_far = views_of(parts@);
        let part = upward[n - 1 - i].clone();
        parts.push(part);
        assert(views_of(parts@) =~= so_far.push(part@));
        assert(views_of(upward@).reverse().take(i + 1) =~= views_of(upward@).reverse().take(
            i as int,
        ).push(part@));
        i += 1;
    }
    assert(views_of(upward@).reverse().take(n as int) =~= views_of(upward@).reverse());
    parts
}

} // verus!
