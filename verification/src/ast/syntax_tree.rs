use vstd::prelude::*;
use crate::text::text_eq;

verus! {

/// A syntax tree: what the parser makes of a source text.
#[derive(Clone, Debug, PartialEq)]
pub struct SyntaxTree {
    pub root: SyntaxNode,
}

/// A node of a syntax tree: the name of the rule or group that produced it, and its
/// children.
#[derive(Debug, PartialEq)]
pub struct SyntaxNode {
    pub name: String,
    pub children: Vec<SyntaxChild>,
}

#[derive(Debug, PartialEq)]
pub enum SyntaxChild {
    Node(SyntaxNode),
    Leaf(SyntaxLeaf),
    /// A malformed piece of source, named after the kind of mistake.
    Error(SyntaxNode),
}

/// A piece of source text, with the position of its first character.
#[derive(Clone, Debug, PartialEq)]
pub struct SyntaxLeaf {
    pub start: usize,
    pub value: String,
}

// The model of syntax trees.

pub struct SpecNode {
    pub name: Seq<char>,
    pub children: Seq<SpecChild>,
}

pub enum SpecChild {
    Node(SpecNode),
    /// The position of the first character, and the text.
    Leaf(usize, Seq<char>),
    Error(SpecNode),
}

pub open spec fn node_view(n: SyntaxNode) -> SpecNode
    decreases n,
{
    SpecNode { name: n.name@, children: children_view(n.children@) }
}

pub open spec fn child_view(c: SyntaxChild) -> SpecChild
    decreases c,
{
    match c {
        SyntaxChild::Node(n) => SpecChild::Node(node_view(n)),
        SyntaxChild::Leaf(l) => SpecChild::Leaf(l.start, l.value@),
        SyntaxChild::Error(n) => SpecChild::Error(node_view(n)),
    }
}

pub open spec fn children_view(s: Seq<SyntaxChild>) -> Seq<SpecChild>
    decreases s,
{
    if s.len() == 0 {
        Seq::empty()
    } else {
        seq![child_view(s[0])] + children_view(s.subrange(1, s.len() as int))
    }
}

pub proof fn lemma_children_view(s: Seq<SyntaxChild>)
    ensures
        children_view(s).len() == s.len(),
        forall|j: int| 0 <= j < s.len() ==> #[trigger] children_view(s)[j] == child_view(s[j]),
    decreases s.len(),
{
    if s.len() > 0 {
        lemma_children_view(s.subrange(1, s.len() as int));
    }
}

impl View for SyntaxNode {
    type V = SpecNode;

    open spec fn view(&self) -> SpecNode {
        node_view(*self)
    }
}

impl View for SyntaxChild {
    type V = SpecChild;

    open spec fn view(&self) -> SpecChild {
        child_view(*self)
    }
}

impl View for SyntaxTree {
    type V = SpecNode;

    open spec fn view(&self) -> SpecNode {
        node_view(self.root)
    }
}

impl Clone for SyntaxNode {
    /// A copy of the node with the same model.
    fn clone(&self) -> (copy: SyntaxNode)
        ensures
            copy@ == self@,
        decreases self,
    {
        let mut children: Vec<SyntaxChild> = Vec::new();
        let mut i: usize = 0;
        proof {
            lemma_children_view(self.children@);
        }
        while i < self.children.len()
            invariant
                i <= self.children.len(),
                children.len() == i,
                forall|j: int| 0 <= j < i ==> #[trigger] children@[j]@ == self.children@[j]@,
            decreases self.children.len() - i,
        {
            proof {
                assert(decreases_to!(self => self.children));
            }
            children.push(self.children[i].clone());
            i += 1;
        }
        proof {
            lemma_children_view(children@);
            lemma_children_view(self.children@);
            assert forall|j: int| 0 <= j < children.len() implies children_view(children@)[j] == children_view(self.children@)[j] by {
                assert(children@[j]@ == self.children@[j]@);
            }
            assert(children_view(children@) =~= children_view(self.children@));
        }
        SyntaxNode { name: self.name.clone(), children }
    }
}

impl Clone for SyntaxChild {
    /// A copy of the child with the same model.
    fn clone(&self) -> (copy: SyntaxChild)
        ensures
            copy@ == self@,
        decreases self,
    {
        match self {
            SyntaxChild::Node(n) => SyntaxChild::Node(n.clone()),
            SyntaxChild::Leaf(l) => SyntaxChild::Leaf(SyntaxLeaf { start: l.start, value: l.value.clone() }),
            SyntaxChild::Error(n) => SyntaxChild::Error(n.clone()),
        }
    }
}

/// Whether a child is a node of the given name.
pub open spec fn is_node_named(c: SpecChild, name: Seq<char>) -> bool {
    c is Node && c->Node_0.name == name
}

/// The position of the first child node of the given name.
pub open spec fn find_index(children: Seq<SpecChild>, name: Seq<char>) -> Option<int>
    decreases children.len(),
{
    if children.len() == 0 {
        None
    } else if is_node_named(children[0], name) {
        Some(0)
    } else {
        match find_index(children.subrange(1, children.len() as int), name) {
            Some(i) => Some(i + 1),
            None => None,
        }
    }
}

/// The text of the child at the given position, if it is a leaf.
pub open spec fn leaf_value(n: SpecNode, i: int) -> Option<Seq<char>> {
    if 0 <= i < n.children.len() && n.children[i] is Leaf {
        Some(n.children[i]->Leaf_1)
    } else {
        None
    }
}

/// Whether a leaf with the given text is among the children.
pub open spec fn has_leaf_valued(children: Seq<SpecChild>, value: Seq<char>) -> bool {
    exists|i: int| 0 <= i < children.len() && children[i] is Leaf && (#[trigger] children[i])->Leaf_1 == value
}

/// The child nodes, in order.
pub open spec fn nodes_of(children: Seq<SpecChild>) -> Seq<SpecNode>
    decreases children.len(),
{
    if children.len() == 0 {
        Seq::empty()
    } else {
        let rest = nodes_of(children.subrange(1, children.len() as int));
        if children[0] is Node {
            seq![children[0]->Node_0] + rest
        } else {
            rest
        }
    }
}

/// The texts of the child leaves, in order.
pub open spec fn leaf_values(children: Seq<SpecChild>) -> Seq<Seq<char>>
    decreases children.len(),
{
    if children.len() == 0 {
        Seq::empty()
    } else {
        let rest = leaf_values(children.subrange(1, children.len() as int));
        if children[0] is Leaf {
            seq![children[0]->Leaf_1] + rest
        } else {
            rest
        }
    }
}

pub proof fn lemma_find_index(children: Seq<SpecChild>, name: Seq<char>)
    ensures
        match find_index(children, name) {
            Some(i) => 0 <= i < children.len() && is_node_named(children[i], name)
                && forall|j: int| 0 <= j < i ==> !is_node_named(#[trigger] children[j], name),
            None => forall|j: int| 0 <= j < children.len() ==> !is_node_named(#[trigger] children[j], name),
        },
    decreases children.len(),
{
    if children.len() > 0 {
        let rest = children.subrange(1, children.len() as int);
        lemma_find_index(rest, name);
        assert forall|j: int| 1 <= j < children.len() implies children[j] == rest[j - 1] by {}
    }
}

pub proof fn lemma_nodes_of_push(children: Seq<SpecChild>, c: SpecChild)
    ensures
        nodes_of(children.push(c)) == if c is Node { nodes_of(children).push(c->Node_0) } else { nodes_of(children) },
    decreases children.len(),
{
    if children.len() == 0 {
        assert(children.push(c).subrange(1, 1) =~= Seq::<SpecChild>::empty());
        assert(nodes_of(children.push(c).subrange(1, 1)) == Seq::<SpecNode>::empty());
        assert(children.push(c)[0] == c);
        assert(seq![c->Node_0] + Seq::<SpecNode>::empty() =~= Seq::<SpecNode>::empty().push(c->Node_0));
    } else {
        let rest = children.subrange(1, children.len() as int);
        lemma_nodes_of_push(rest, c);
        assert(children.push(c).subrange(1, children.len() + 1int) =~= rest.push(c));
        if children[0] is Node {
            if c is Node {
                assert(seq![children[0]->Node_0] + nodes_of(rest).push(c->Node_0)
                    =~= (seq![children[0]->Node_0] + nodes_of(rest)).push(c->Node_0));
            }
        }
    }
}

pub proof fn lemma_leaf_values_push(children: Seq<SpecChild>, c: SpecChild)
    ensures
        leaf_values(children.push(c)) == if c is Leaf { leaf_values(children).push(c->Leaf_1) } else { leaf_values(children) },
    decreases children.len(),
{
    if children.len() == 0 {
        assert(children.push(c).subrange(1, 1) =~= Seq::<SpecChild>::empty());
        assert(leaf_values(children.push(c).subrange(1, 1)) == Seq::<Seq<char>>::empty());
        assert(children.push(c)[0] == c);
        assert(seq![c->Leaf_1] + Seq::<Seq<char>>::empty() =~= Seq::<Seq<char>>::empty().push(c->Leaf_1));
    } else {
        let rest = children.subrange(1, children.len() as int);
        lemma_leaf_values_push(rest, c);
        assert(children.push(c).subrange(1, children.len() + 1int) =~= rest.push(c));
        if children[0] is Leaf {
            if c is Leaf {
                assert(seq![children[0]->Leaf_1] + leaf_values(rest).push(c->Leaf_1)
                    =~= (seq![children[0]->Leaf_1] + leaf_values(rest)).push(c->Leaf_1));
            }
        }
    }
}

impl SyntaxChild {
    /// The node that this child is.
    pub fn into_node(&self) -> (node: &SyntaxNode)
        requires
            *self is Node,
        ensures
            *node == self->Node_0,
            node@ == self@->Node_0,
    {
        match self {
            SyntaxChild::Node(node) => node,
            _ => vstd::pervasive::unreached(),
        }
    }
}

impl SyntaxNode {
    /// The leaf at the given position.
    pub fn get_leaf(&self, index: usize) -> (leaf: &SyntaxLeaf)
        requires
            leaf_value(self@, index as int) is Some,
        ensures
            leaf.value@ == leaf_value(self@, index as int)->0,
    {
        proof {
            lemma_children_view(self.children@);
        }
        match &self.children[index] {
            SyntaxChild::Leaf(leaf) => leaf,
            _ => vstd::pervasive::unreached(),
        }
    }

    /// The leaf at the given position, if there is one.
    pub fn get_leaf_or_none(&self, index: usize) -> (leaf: Option<&SyntaxLeaf>)
        ensures
            match leaf {
                Some(l) => leaf_value(self@, index as int) == Some(l.value@),
                None => leaf_value(self@, index as int) is None,
            },
    {
        proof {
            lemma_children_view(self.children@);
        }
        if index < self.children.len() {
            match &self.children[index] {
                SyntaxChild::Leaf(leaf) => Some(leaf),
                _ => None,
            }
        } else {
            None
        }
    }

    /// The node at the given position.
    pub fn get_node(&self, index: usize) -> (node: &SyntaxNode)
        requires
            index < self@.children.len(),
            self@.children[index as int] is Node,
        ensures
            node@ == self@.children[index as int]->Node_0,
    {
        proof {
            lemma_children_view(self.children@);
        }
        match &self.children[index] {
            SyntaxChild::Node(node) => node,
            _ => vstd::pervasive::unreached(),
        }
    }

    /// The node at the given position, if there is one.
    pub fn get_node_or_none(&self, index: usize) -> (node: Option<&SyntaxNode>)
        ensures
            match node {
                Some(n) => index < self@.children.len() && self@.children[index as int] is Node
                    && n@ == self@.children[index as int]->Node_0,
                None => !(index < self@.children.len() && self@.children[index as int] is Node),
            },
    {
        proof {
            lemma_children_view(self.children@);
        }
        if index < self.children.len() {
            match &self.children[index] {
                SyntaxChild::Node(node) => Some(node),
                _ => None,
            }
        } else {
            None
        }
    }

    /// The first child node of the given name, if there is one.
    pub fn find_node_or_none(&self, name: &str) -> (node: Option<&SyntaxNode>)
        ensures
            match node {
                Some(n) => find_index(self@.children, name@) is Some
                    && n@ == self@.children[find_index(self@.children, name@)->0]->Node_0,
                None => find_index(self@.children, name@) is None,
            },
    {
        let ghost children = self@.children;
        proof {
            lemma_children_view(self.children@);
        }
        let mut i: usize = 0;
        while i < self.children.len()
            invariant
                i <= self.children.len(),
                children == self@.children,
                children.len() == self.children.len(),
                forall|j: int| 0 <= j < children.len() ==> #[trigger] children[j] == self.children@[j]@,
                forall|j: int| 0 <= j < i ==> !is_node_named(#[trigger] children[j], name@),
            decreases self.children.len() - i,
        {
            assert(children[i as int] == self.children@[i as int]@);
            match &self.children[i] {
                SyntaxChild::Node(node) => {
                    if text_eq(&node.name, name) {
                        proof {
                            lemma_find_index(children, name@);
                            let k = find_index(children, name@);
                            assert(is_node_named(children[i as int], name@));
                            if k is Some {
                                let kk = k->0;
                                if kk < i {
                                    assert(!is_node_named(children[kk], name@));
                                } else if kk > i {
                                    assert(is_node_named(children[i as int], name@));
                                }
                            }
                        }
                        return Some(node);
                    }
                },
                _ => {},
            }
            i += 1;
        }
        proof {
            lemma_find_index(children, name@);
        }
        None
    }

    /// The first child node of the given name.
    pub fn find_node(&self, name: &str) -> (node: &SyntaxNode)
        requires
            find_index(self@.children, name@) is Some,
        ensures
            node@ == self@.children[find_index(self@.children, name@)->0]->Node_0,
    {
        match self.find_node_or_none(name) {
            Some(node) => node,
            None => vstd::pervasive::unreached(),
        }
    }

    /// Whether a leaf with the given text is among the children.
    pub fn has_leaf(&self, value: &str) -> (found: bool)
        ensures
            found == has_leaf_valued(self@.children, value@),
    {
        let ghost children = self@.children;
        proof {
            lemma_children_view(self.children@);
        }
        let mut i: usize = 0;
        while i < self.children.len()
            invariant
                i <= self.children.len(),
                children == self@.children,
                children.len() == self.children.len(),
                forall|j: int| 0 <= j < children.len() ==> #[trigger] children[j] == self.children@[j]@,
                forall|j: int| 0 <= j < i ==> !(children[j] is Leaf && (#[trigger] children[j])->Leaf_1 == value@),
            decreases self.children.len() - i,
        {
            assert(children[i as int] == self.children@[i as int]@);
            match &self.children[i] {
                SyntaxChild::Leaf(leaf) => {
                    if text_eq(&leaf.value, value) {
                        return true;
                    }
                },
                _ => {},
            }
            i += 1;
        }
        false
    }
}

} // verus!
