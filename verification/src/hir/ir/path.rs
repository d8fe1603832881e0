use std::collections::BTreeMap;
use vstd::prelude::*;
use crate::hir::HirIdentifier;
use crate::text::{decimal, push_decimal};

verus! {

broadcast use vstd::laws_cmp::group_laws_cmp, vstd::std_specs::btree::group_btree_axioms;

/// The index of a node of the path tree.
#[derive(Clone, Copy, Debug, PartialEq, Eq, Structural, Hash, PartialOrd, Ord)]
pub struct HirPathIndex(pub usize);

impl HirPathIndex {
    /// The index in decimal notation.
    pub fn to_string(&self) -> (s: String)
        ensures
            s@ == decimal(self.0 as nat),
    {
        let mut s = String::new();
        push_decimal(&mut s, self.0);
        s
    }
}

impl From<usize> for HirPathIndex {
    fn from(value: usize) -> (index: HirPathIndex) {
        HirPathIndex(value)
    }
}

impl vstd::std_specs::convert::FromSpecImpl<usize> for HirPathIndex {
    open spec fn obeys_from_spec() -> bool {
        true
    }

    open spec fn from_spec(value: usize) -> HirPathIndex {
        HirPathIndex(value)
    }
}

impl From<HirPathIndex> for usize {
    fn from(value: HirPathIndex) -> (n: usize) {
        value.0
    }
}

impl vstd::std_specs::convert::FromSpecImpl<HirPathIndex> for usize {
    open spec fn obeys_from_spec() -> bool {
        true
    }

    open spec fn from_spec(value: HirPathIndex) -> usize {
        value.0
    }
}

/// A value bound to a node of the path tree.
#[derive(Clone, Debug, PartialEq)]
pub struct HirPathIndexBinding<T>(pub HirPathIndex, pub T);

impl<T> HirPathIndexBinding<T> {
    pub fn new(index: HirPathIndex, value: T) -> (binding: HirPathIndexBinding<T>)
        ensures
            binding.0 == index,
            binding.1 == value,
    {
        HirPathIndexBinding(index, value)
    }

    pub fn index(&self) -> (index: &HirPathIndex)
        ensures
            *index == self.0,
    {
        &self.0
    }

    pub fn value(&self) -> (value: &T)
        ensures
            *value == self.1,
    {
        &self.1
    }

    pub fn value_mut(&mut self) -> (value: &mut T)
        ensures
            *value == old(self).1,
            final(self).0 == old(self).0,
            final(self).1 == *final(value),
    {
        &mut self.1
    }
}

/// Hands out fresh path indexes, counting up from zero.
#[derive(Clone, Debug, PartialEq)]
pub struct HirPathIndexGenerator(usize);

impl HirPathIndexGenerator {
    /// The index that the next call of `generate` hands out.
    pub closed spec fn next(&self) -> nat {
        self.0 as nat
    }

    pub fn new() -> (generator: HirPathIndexGenerator)
        ensures
            generator.next() == 0,
    {
        HirPathIndexGenerator(0)
    }

    /// The index handed out last, if any was.
    pub fn index(&self) -> (index: Option<HirPathIndex>)
        ensures
            self.next() == 0 ==> index is None,
            self.next() > 0 ==> index == Some(HirPathIndex((self.next() - 1) as usize)),
    {
        if self.0 >= 1 {
            Some(HirPathIndex(self.0 - 1))
        } else {
            None
        }
    }

    pub fn generate(&mut self) -> (index: HirPathIndex)
        requires
            old(self).next() < usize::MAX,
        ensures
            index.0 == old(self).next(),
            final(self).next() == old(self).next() + 1,
    {
        let index = self.0;
        self.0 += 1;
        HirPathIndex(index)
    }
}

#[derive(Clone, Debug, PartialEq)]
pub struct HirPathNode {
    pub id: HirIdentifier,
    pub kind: HirPathKind,
    pub parent: Option<HirPathIndex>,
    pub children: Vec<HirPathIndex>,
}

/// The model of a path node.
pub struct SpecPathNode {
    pub id: Seq<char>,
    pub kind: HirPathKind,
    pub parent: Option<HirPathIndex>,
    pub children: Seq<HirPathIndex>,
}

pub open spec fn path_node_view(n: HirPathNode) -> SpecPathNode {
    SpecPathNode { id: n.id@, kind: n.kind, parent: n.parent, children: n.children@ }
}

impl View for HirPathNode {
    type V = SpecPathNode;

    open spec fn view(&self) -> SpecPathNode {
        path_node_view(*self)
    }
}

#[derive(Clone, Debug, PartialEq)]
pub enum HirPathKind {
    Hako,
    Module,
    Function,
    Struct,
    Enum,
    Trait,
}

#[derive(Clone, Debug, PartialEq)]
pub enum HirPath {
    Resolved(HirPathIndex),
    Unresolved(Vec<HirPathSegment>),
}

pub type HirPathSegment = HirIdentifier;

/// The model of a path: a resolved index, or the names of its segments.
pub enum SpecPath {
    Resolved(HirPathIndex),
    Unresolved(Seq<Seq<char>>),
}

impl View for HirPath {
    type V = SpecPath;

    open spec fn view(&self) -> SpecPath {
        match self {
            HirPath::Resolved(i) => SpecPath::Resolved(*i),
            HirPath::Unresolved(segments) => SpecPath::Unresolved(segment_names(segments@)),
        }
    }
}

/// The tree of named places (hakos, modules, functions, ...) that paths refer to.
#[derive(Clone, Debug, PartialEq)]
pub struct HirPathTree {
    pub(crate) hako_indexes: Vec<HirPathIndex>,
    pub(crate) nodes: BTreeMap<usize, HirPathNode>,
}

/// The first of `indexes` whose node exists and is named `segment`.
pub open spec fn spec_find_child(
    nodes: Map<usize, SpecPathNode>,
    indexes: Seq<HirPathIndex>,
    segment: Seq<char>,
) -> Option<HirPathIndex>
    decreases indexes.len(),
{
    if indexes.len() == 0 {
        None
    } else {
        let i = indexes[0];
        if nodes.contains_key(i.0) && nodes[i.0].id == segment {
            Some(i)
        } else {
            spec_find_child(nodes, indexes.drop_first(), segment)
        }
    }
}

/// Follows `segments` downwards from the node found so far.
pub open spec fn spec_find_from(
    nodes: Map<usize, SpecPathNode>,
    current: HirPathIndex,
    segments: Seq<Seq<char>>,
) -> Option<HirPathIndex>
    decreases segments.len(),
{
    if segments.len() == 0 {
        Some(current)
    } else {
        match spec_find_child(nodes, nodes[current.0].children, segments[0]) {
            Some(next) => spec_find_from(nodes, next, segments.drop_first()),
            None => None,
        }
    }
}

/// The node that a path of segments names: the first segment names a hako,
/// each further one a child of the node named so far.
pub open spec fn spec_find(
    nodes: Map<usize, SpecPathNode>,
    hakos: Seq<HirPathIndex>,
    segments: Seq<Seq<char>>,
) -> Option<HirPathIndex> {
    if segments.len() == 0 {
        None
    } else {
        match spec_find_child(nodes, hakos, segments[0]) {
            Some(hako) => spec_find_from(nodes, hako, segments.drop_first()),
            None => None,
        }
    }
}

/// What adding a node writes, reading gives back: after a node is added under an
/// index, the tree holds that node under that index, and every other index holds what
/// it held before.
pub proof fn lemma_get_after_add(before: HirPathTree, after: HirPathTree, index: HirPathIndex, node: HirPathNode)
    requires
        after.node_map() == before.node_map().insert(index.0, node),
    ensures
        after.node_map().contains_key(index.0),
        after.node_map()[index.0] == node,
        forall|k: usize| k != index.0 ==> (after.node_map().contains_key(k) <==> before.node_map().contains_key(k)),
        forall|k: usize| k != index.0 && before.node_map().contains_key(k) ==> after.node_map()[k] == before.node_map()[k],
{
}

/// The names of a sequence of path segments.
pub open spec fn segment_names(segments: Seq<HirPathSegment>) -> Seq<Seq<char>> {
    segments.map_values(|s: HirPathSegment| s@)
}

impl HirPathTree {
    /// The nodes, by index.
    pub closed spec fn node_map(&self) -> Map<usize, HirPathNode> {
        self.nodes@
    }

    /// The models of the nodes, by index.
    pub open spec fn nodes_view(&self) -> Map<usize, SpecPathNode> {
        self.node_map().map_values(|n: HirPathNode| path_node_view(n))
    }

    /// The indexes of the hako nodes, in the order they were added.
    pub closed spec fn hakos(&self) -> Seq<HirPathIndex> {
        self.hako_indexes@
    }

    pub fn new() -> (tree: HirPathTree)
        ensures
            tree.node_map() == Map::<usize, HirPathNode>::empty(),
            tree.hakos() == Seq::<HirPathIndex>::empty(),
    {
        HirPathTree { hako_indexes: Vec::new(), nodes: BTreeMap::new() }
    }

    pub fn get(&self, index: &HirPathIndex) -> (node: Option<&HirPathNode>)
        ensures
            match node {
                Some(n) => self.node_map().contains_key(index.0) && *n == self.node_map()[index.0],
                None => !self.node_map().contains_key(index.0),
            },
    {
        self.nodes.get(&index.0)
    }

    /// Adds a node under the given index, or under a fresh one from the generator
    /// when none is given, and returns the index. A hako node is also recorded as a hako.
    pub fn add_node(
        &mut self,
        index_generator: &mut HirPathIndexGenerator,
        index: Option<HirPathIndex>,
        node: HirPathNode,
    ) -> (node_index: HirPathIndex)
        requires
            !(node.kind is Hako && node.parent is Some),
            index is None ==> old(index_generator).next() < usize::MAX,
        ensures
            match index {
                Some(i) => node_index == i && final(index_generator).next() == old(index_generator).next(),
                None => node_index.0 == old(index_generator).next()
                    && final(index_generator).next() == old(index_generator).next() + 1,
            },
            final(self).node_map() == old(self).node_map().insert(node_index.0, node),
            final(self).hakos() == if node.kind is Hako {
                old(self).hakos().push(node_index)
            } else {
                old(self).hakos()
            },
    {
        let node_index = if let Some(v) = index {
            v
        } else {
            index_generator.generate()
        };
        let is_hako = match node.kind {
            HirPathKind::Hako => true,
            _ => false,
        };
        if is_hako {
            self.hako_indexes.push(node_index);
        }
        self.nodes.insert(node_index.0, node);
        node_index
    }

    /// The node that the path names, with its index.
    pub fn find<'a>(&'a self, path_segments: &'a Vec<HirPathSegment>) -> (found: Option<
        (&'a HirPathIndex, &'a HirPathNode),
    >)
        ensures
            match found {
                Some((i, n)) => spec_find(self.nodes_view(), self.hakos(), segment_names(path_segments@)) == Some(*i)
                    && self.node_map().contains_key(i.0) && *n == self.node_map()[i.0],
                None => spec_find(self.nodes_view(), self.hakos(), segment_names(path_segments@)) is None,
            },
    {
        if path_segments.len() == 0 {
            return None;
        }
        let ghost names = segment_names(path_segments@);
        let mut current = match self.find_hako(&path_segments[0]) {
            Some(v) => v,
            None => return None,
        };
        let mut k: usize = 1;
        assert(names.skip(1) =~= names.drop_first());
        while k < path_segments.len()
            invariant
                1 <= k <= path_segments.len(),
                names == segment_names(path_segments@),
                self.node_map().contains_key(current.0.0),
                *current.1 == self.node_map()[current.0.0],
                spec_find(self.nodes_view(), self.hakos(), names) == spec_find_from(
                    self.nodes_view(),
                    *current.0,
                    names.skip(k as int),
                ),
            decreases path_segments.len() - k,
        {
            assert(names.skip(k as int).drop_first() =~= names.skip(k + 1));
            assert(self.nodes_view()[current.0.0] == current.1@);
            match self.find_child(&current.1.children, &path_segments[k]) {
                Some(pair) => current = pair,
                None => return None,
            }
            k += 1;
        }
        assert(names.skip(k as int) =~= Seq::<Seq<char>>::empty());
        Some(current)
    }

    /// The hako node of the given name, with its index.
    pub fn find_hako<'a>(&'a self, segment: &'a HirPathSegment) -> (found: Option<
        (&'a HirPathIndex, &'a HirPathNode),
    >)
        ensures
            match found {
                Some((i, n)) => spec_find_child(self.nodes_view(), self.hakos(), segment@) == Some(*i)
                    && self.node_map().contains_key(i.0) && *n == self.node_map()[i.0],
                None => spec_find_child(self.nodes_view(), self.hakos(), segment@) is None,
            },
    {
        self.find_child(&self.hako_indexes, segment)
    }

    /// The first of `indexes` whose node is named `segment`, with that node.
    pub fn find_child<'a>(&'a self, indexes: &'a Vec<HirPathIndex>, segment: &'a HirPathSegment) -> (found: Option<
        (&'a HirPathIndex, &'a HirPathNode),
    >)
        ensures
            match found {
                Some((i, n)) => spec_find_child(self.nodes_view(), indexes@, segment@) == Some(*i)
                    && self.node_map().contains_key(i.0) && *n == self.node_map()[i.0],
                None => spec_find_child(self.nodes_view(), indexes@, segment@) is None,
            },
    {
        let mut k: usize = 0;
        assert(indexes@.skip(0) =~= indexes@);
        while k < indexes.len()
            invariant
                k <= indexes.len(),
                spec_find_child(self.nodes_view(), indexes@, segment@) == spec_find_child(
                    self.nodes_view(),
                    indexes@.skip(k as int),
                    segment@,
                ),
            decreases indexes.len() - k,
        {
            assert(indexes@.skip(k as int).drop_first() =~= indexes@.skip(k + 1));
            let each_index = &indexes[k];
            if let Some(path_node) = self.get(each_index) {
                assert(self.nodes_view()[each_index.0] == path_node@);
                if path_node.id.same_as(segment) {
                    return Some((each_index, path_node));
                }
            } else {
                assert(!self.nodes_view().contains_key(each_index.0));
            }
            k += 1;
        }
        None
    }
}

} // verus!
