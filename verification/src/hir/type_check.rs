use vstd::prelude::*;
use crate::hir::ir::expr::{
    HirExpression, HirOperation, SpecExpression, SpecOperation, exprs_view, lemma_exprs_view,
};
use crate::hir::ir::item::{HirItem, SpecFunction, SpecItem};
use crate::hir::ir::path::{
    HirPath, HirPathIndex, HirPathIndexBinding, HirPathNode, HirPathTree, SpecPath, SpecPathNode, spec_find,
};

verus! {

#[derive(Clone, Copy, Debug, PartialEq, Eq, Structural)]
pub enum DataTypeError {
    UnknownIdentifier,
}

/// `n` reports of an unknown identifier.
pub open spec fn unknown_identifiers(n: nat) -> Seq<DataTypeError> {
    Seq::new(n, |i: int| DataTypeError::UnknownIdentifier)
}

/// Whether the checker handles the expression: it holds no bare identifier or data
/// type, and no path that is resolved already.
pub open spec fn checkable(e: SpecExpression) -> bool
    decreases e,
{
    match e {
        SpecExpression::Literal(_) => true,
        SpecExpression::Identifier(_) => false,
        SpecExpression::DataType(_) => false,
        SpecExpression::Operation(op) => match *op {
            SpecOperation::Substitute(l, r) => checkable(l) && checkable(r),
            SpecOperation::Add(l, r) => checkable(l) && checkable(r),
            SpecOperation::Subtract(l, r) => checkable(l) && checkable(r),
            SpecOperation::Multiply(l, r) => checkable(l) && checkable(r),
            SpecOperation::Not(t) => checkable(t),
            SpecOperation::BitNot(t) => checkable(t),
            SpecOperation::Negative(t) => checkable(t),
            SpecOperation::Nonnize(t) => checkable(t),
            SpecOperation::Propagate(t) => checkable(t),
            SpecOperation::FunctionCall(t, args) => checkable(t) && all_checkable(args),
            SpecOperation::MemberAccess(l, r) => checkable(l) && checkable(r),
            SpecOperation::Path(p) => p is Unresolved,
            SpecOperation::Group(t) => checkable(t),
        },
    }
}

pub open spec fn all_checkable(s: Seq<SpecExpression>) -> bool
    decreases s,
{
    s.len() == 0 || (checkable(s[0]) && all_checkable(s.subrange(1, s.len() as int)))
}

/// A path with its segments looked up in the tree: resolved to the node found, or
/// left as it is when there is none.
pub open spec fn resolve_path(nodes: Map<usize, SpecPathNode>, hakos: Seq<HirPathIndex>, p: SpecPath) -> SpecPath {
    match p {
        SpecPath::Unresolved(segments) => match spec_find(nodes, hakos, segments) {
            Some(i) => SpecPath::Resolved(i),
            None => p,
        },
        SpecPath::Resolved(_) => p,
    }
}

/// The expression with every path in it resolved as far as the tree allows.
pub open spec fn resolve_expr(nodes: Map<usize, SpecPathNode>, hakos: Seq<HirPathIndex>, e: SpecExpression) -> SpecExpression
    decreases e,
{
    match e {
        SpecExpression::Operation(op) => SpecExpression::Operation(Box::new(match *op {
            SpecOperation::Substitute(l, r) => SpecOperation::Substitute(resolve_expr(nodes, hakos, l), resolve_expr(nodes, hakos, r)),
            SpecOperation::Add(l, r) => SpecOperation::Add(resolve_expr(nodes, hakos, l), resolve_expr(nodes, hakos, r)),
            SpecOperation::Subtract(l, r) => SpecOperation::Subtract(resolve_expr(nodes, hakos, l), resolve_expr(nodes, hakos, r)),
            SpecOperation::Multiply(l, r) => SpecOperation::Multiply(resolve_expr(nodes, hakos, l), resolve_expr(nodes, hakos, r)),
            SpecOperation::Not(t) => SpecOperation::Not(resolve_expr(nodes, hakos, t)),
            SpecOperation::BitNot(t) => SpecOperation::BitNot(resolve_expr(nodes, hakos, t)),
            SpecOperation::Negative(t) => SpecOperation::Negative(resolve_expr(nodes, hakos, t)),
            SpecOperation::Nonnize(t) => SpecOperation::Nonnize(resolve_expr(nodes, hakos, t)),
            SpecOperation::Propagate(t) => SpecOperation::Propagate(resolve_expr(nodes, hakos, t)),
            SpecOperation::FunctionCall(t, args) => SpecOperation::FunctionCall(resolve_expr(nodes, hakos, t), resolve_exprs(nodes, hakos, args)),
            SpecOperation::MemberAccess(l, r) => SpecOperation::MemberAccess(resolve_expr(nodes, hakos, l), resolve_expr(nodes, hakos, r)),
            SpecOperation::Path(p) => SpecOperation::Path(resolve_path(nodes, hakos, p)),
            SpecOperation::Group(t) => SpecOperation::Group(resolve_expr(nodes, hakos, t)),
        })),
        _ => e,
    }
}

pub open spec fn resolve_exprs(nodes: Map<usize, SpecPathNode>, hakos: Seq<HirPathIndex>, s: Seq<SpecExpression>) -> Seq<SpecExpression>
    decreases s,
{
    if s.len() == 0 {
        s
    } else {
        seq![resolve_expr(nodes, hakos, s[0])] + resolve_exprs(nodes, hakos, s.subrange(1, s.len() as int))
    }
}

/// How many paths in the expression name no node of the tree.
pub open spec fn unknown_count(nodes: Map<usize, SpecPathNode>, hakos: Seq<HirPathIndex>, e: SpecExpression) -> nat
    decreases e,
{
    match e {
        SpecExpression::Operation(op) => match *op {
            SpecOperation::Substitute(l, r) => unknown_count(nodes, hakos, l) + unknown_count(nodes, hakos, r),
            SpecOperation::Add(l, r) => unknown_count(nodes, hakos, l) + unknown_count(nodes, hakos, r),
            SpecOperation::Subtract(l, r) => unknown_count(nodes, hakos, l) + unknown_count(nodes, hakos, r),
            SpecOperation::Multiply(l, r) => unknown_count(nodes, hakos, l) + unknown_count(nodes, hakos, r),
            SpecOperation::Not(t) => unknown_count(nodes, hakos, t),
            SpecOperation::BitNot(t) => unknown_count(nodes, hakos, t),
            SpecOperation::Negative(t) => unknown_count(nodes, hakos, t),
            SpecOperation::Nonnize(t) => unknown_count(nodes, hakos, t),
            SpecOperation::Propagate(t) => unknown_count(nodes, hakos, t),
            SpecOperation::FunctionCall(t, args) => unknown_count(nodes, hakos, t) + unknown_counts(nodes, hakos, args),
            SpecOperation::MemberAccess(l, r) => unknown_count(nodes, hakos, l) + unknown_count(nodes, hakos, r),
            SpecOperation::Path(p) => match p {
                SpecPath::Unresolved(segments) => if spec_find(nodes, hakos, segments) is Some { 0 } else { 1 },
                SpecPath::Resolved(_) => 0,
            },
            SpecOperation::Group(t) => unknown_count(nodes, hakos, t),
        },
        _ => 0,
    }
}

pub open spec fn unknown_counts(nodes: Map<usize, SpecPathNode>, hakos: Seq<HirPathIndex>, s: Seq<SpecExpression>) -> nat
    decreases s,
{
    if s.len() == 0 {
        0
    } else {
        unknown_count(nodes, hakos, s[0]) + unknown_counts(nodes, hakos, s.subrange(1, s.len() as int))
    }
}

pub proof fn lemma_all_checkable(s: Seq<SpecExpression>)
    requires
        all_checkable(s),
    ensures
        forall|j: int| 0 <= j < s.len() ==> checkable(#[trigger] s[j]),
    decreases s.len(),
{
    if s.len() > 0 {
        lemma_all_checkable(s.subrange(1, s.len() as int));
        assert forall|j: int| 0 <= j < s.len() implies checkable(#[trigger] s[j]) by {
            if j > 0 {
                assert(s[j] == s.subrange(1, s.len() as int)[j - 1]);
            }
        }
    }
}

pub proof fn lemma_resolve_exprs(nodes: Map<usize, SpecPathNode>, hakos: Seq<HirPathIndex>, s: Seq<SpecExpression>)
    ensures
        resolve_exprs(nodes, hakos, s).len() == s.len(),
        forall|j: int| 0 <= j < s.len() ==> #[trigger] resolve_exprs(nodes, hakos, s)[j] == resolve_expr(nodes, hakos, s[j]),
    decreases s.len(),
{
    if s.len() > 0 {
        lemma_resolve_exprs(nodes, hakos, s.subrange(1, s.len() as int));
    }
}

pub proof fn lemma_unknown_counts_concat(
    nodes: Map<usize, SpecPathNode>,
    hakos: Seq<HirPathIndex>,
    a: Seq<SpecExpression>,
    b: Seq<SpecExpression>,
)
    ensures
        unknown_counts(nodes, hakos, a + b) == unknown_counts(nodes, hakos, a) + unknown_counts(nodes, hakos, b),
    decreases a.len(),
{
    if a.len() == 0 {
        assert(a + b =~= b);
    } else {
        lemma_unknown_counts_concat(nodes, hakos, a.subrange(1, a.len() as int), b);
        assert((a + b).subrange(1, (a + b).len() as int) =~= a.subrange(1, a.len() as int) + b);
    }
}

pub proof fn lemma_unknown_counts_single(nodes: Map<usize, SpecPathNode>, hakos: Seq<HirPathIndex>, e: SpecExpression)
    ensures
        unknown_counts(nodes, hakos, seq![e]) == unknown_count(nodes, hakos, e),
{
    assert(seq![e].subrange(1, 1) =~= Seq::<SpecExpression>::empty());
    assert(unknown_counts(nodes, hakos, seq![e].subrange(1, 1)) == 0);
}

pub proof fn lemma_unknown_identifiers_concat(a: nat, b: nat)
    ensures
        unknown_identifiers(a) + unknown_identifiers(b) == unknown_identifiers(a + b),
{
    assert(unknown_identifiers(a) + unknown_identifiers(b) =~= unknown_identifiers(a + b));
}

/// Whether the checker handles the item: a function whose expressions it handles.
pub open spec fn item_checkable(item: SpecItem) -> bool {
    match item {
        SpecItem::Function(f) => all_checkable(f.expressions),
        _ => false,
    }
}

/// The item with the paths in its expressions resolved.
pub open spec fn resolve_item(nodes: Map<usize, SpecPathNode>, hakos: Seq<HirPathIndex>, item: SpecItem) -> SpecItem {
    match item {
        SpecItem::Function(f) => SpecItem::Function(SpecFunction {
            accessibility: f.accessibility,
            return_type: f.return_type,
            arguments: f.arguments,
            expressions: resolve_exprs(nodes, hakos, f.expressions),
        }),
        _ => item,
    }
}

pub open spec fn item_unknown_count(nodes: Map<usize, SpecPathNode>, hakos: Seq<HirPathIndex>, item: SpecItem) -> nat {
    match item {
        SpecItem::Function(f) => unknown_counts(nodes, hakos, f.expressions),
        _ => 0,
    }
}

/// How many paths in the items name no node of the tree.
pub open spec fn items_unknown_count(
    nodes: Map<usize, SpecPathNode>,
    hakos: Seq<HirPathIndex>,
    items: Seq<HirPathIndexBinding<HirItem>>,
) -> nat
    decreases items.len(),
{
    if items.len() == 0 {
        0
    } else {
        items_unknown_count(nodes, hakos, items.drop_last()) + item_unknown_count(nodes, hakos, items.last().1@)
    }
}

/// Resolves the paths in the checker's tree and counts those it cannot resolve.
#[derive(Debug)]
pub struct DataTypeChecker<'a> {
    pub(crate) path_tree: &'a HirPathTree,
    pub(crate) errors: Vec<DataTypeError>,
}

impl<'a> DataTypeChecker<'a> {
    pub(crate) fn new(path_tree: &'a HirPathTree) -> (checker: DataTypeChecker<'a>)
        ensures
            checker.path_tree == path_tree,
            checker.errors@ == Seq::<DataTypeError>::empty(),
    {
        DataTypeChecker { path_tree, errors: Vec::new() }
    }

    pub(crate) fn expression(&mut self, expr: &mut HirExpression)
        requires
            checkable(old(expr)@),
        ensures
            final(self).path_tree == old(self).path_tree,
            final(expr)@ == resolve_expr(old(self).path_tree.nodes_view(), old(self).path_tree.hakos(), old(expr)@),
            final(self).errors@ == old(self).errors@ + unknown_identifiers(
                unknown_count(old(self).path_tree.nodes_view(), old(self).path_tree.hakos(), old(expr)@),
            ),
        decreases *old(expr),
    {
        match expr {
            HirExpression::Literal(_) => {
                assert(unknown_identifiers(0) =~= Seq::<DataTypeError>::empty());
                assert(self.errors@ + unknown_identifiers(0) =~= self.errors@);
            },
            HirExpression::Operation(operation) => match &mut **operation {
                HirOperation::Substitute(left, right) => {
                    self.expression(left);
                    self.expression(right);
                },
                HirOperation::Add(left, right) => {
                    self.expression(left);
                    self.expression(right);
                },
                HirOperation::Subtract(left, right) => {
                    self.expression(left);
                    self.expression(right);
                },
                HirOperation::Multiply(left, right) => {
                    self.expression(left);
                    self.expression(right);
                },
                HirOperation::Not(term) => self.expression(term),
                HirOperation::BitNot(term) => self.expression(term),
                HirOperation::Negative(term) => self.expression(term),
                HirOperation::Nonnize(term) => self.expression(term),
                HirOperation::Propagate(term) => self.expression(term),
                HirOperation::FunctionCall(term, arguments) => {
                    self.expression(term);
                    self.expressions(arguments);
                },
                HirOperation::MemberAccess(left, right) => {
                    self.expression(left);
                    self.expression(right);
                },
                HirOperation::Path(path) => self.path(path),
                HirOperation::Group(term) => self.expression(term),
            },
            HirExpression::DataType(_) => {},
            HirExpression::Identifier(_) => {},
        }
    }

    /// Resolves the paths in each item, in order, and reports each path that names no
    /// node of the tree.
    pub fn check(path_tree: &'a HirPathTree, items: &mut Vec<HirPathIndexBinding<HirItem>>) -> (errors: Vec<DataTypeError>)
        requires
            forall|i: int| 0 <= i < old(items).len() ==> item_checkable(#[trigger] old(items)@[i].1@),
        ensures
            final(items).len() == old(items).len(),
            forall|i: int| 0 <= i < old(items).len() ==> (#[trigger] final(items)@[i]).0 == old(items)@[i].0
                && final(items)@[i].1@ == resolve_item(path_tree.nodes_view(), path_tree.hakos(), old(items)@[i].1@),
            errors@ == unknown_identifiers(items_unknown_count(path_tree.nodes_view(), path_tree.hakos(), old(items)@)),
    {
        let mut checker = DataTypeChecker::new(path_tree);
        let ghost nodes = path_tree.nodes_view();
        let ghost hakos = path_tree.hakos();
        let ghost orig = items@;
        assert(unknown_identifiers(0) =~= Seq::<DataTypeError>::empty());
        let mut i: usize = 0;
        while i < items.len()
            invariant
                i <= items.len(),
                items.len() == orig.len(),
                orig == old(items)@,
                checker.path_tree == path_tree,
                forall|j: int| 0 <= j < orig.len() ==> item_checkable(#[trigger] orig[j].1@),
                forall|j: int| 0 <= j < i ==> (#[trigger] items@[j]).0 == orig[j].0
                    && items@[j].1@ == resolve_item(nodes, hakos, orig[j].1@),
                forall|j: int| i <= j < items.len() ==> #[trigger] items@[j] == orig[j],
                checker.errors@ == unknown_identifiers(items_unknown_count(nodes, hakos, orig.take(i as int))),
                nodes == path_tree.nodes_view(),
                hakos == path_tree.hakos(),
            decreases items.len() - i,
        {
            assert(items@[i as int] == orig[i as int]);
            assert(item_checkable(orig[i as int].1@));
            checker.item(items[i].value_mut());
            proof {
                assert(orig.take(i + 1).drop_last() =~= orig.take(i as int));
                lemma_unknown_identifiers_concat(
                    items_unknown_count(nodes, hakos, orig.take(i as int)),
                    item_unknown_count(nodes, hakos, orig[i as int].1@),
                );
            }
            i += 1;
        }
        assert(orig.take(i as int) =~= orig);
        checker.errors
    }

    pub(crate) fn item(&mut self, item: &mut HirItem)
        requires
            item_checkable(old(item)@),
        ensures
            final(self).path_tree == old(self).path_tree,
            final(item)@ == resolve_item(old(self).path_tree.nodes_view(), old(self).path_tree.hakos(), old(item)@),
            final(self).errors@ == old(self).errors@ + unknown_identifiers(
                item_unknown_count(old(self).path_tree.nodes_view(), old(self).path_tree.hakos(), old(item)@),
            ),
    {
        match item {
            HirItem::Function(function) => {
                self.expressions(&mut function.expressions);
            },
            _ => {},
        }
    }

    /// Checks each expression of a list in turn.
    fn expressions(&mut self, arguments: &mut Vec<HirExpression>)
        requires
            all_checkable(exprs_view(old(arguments)@)),
        ensures
            final(self).path_tree == old(self).path_tree,
            exprs_view(final(arguments)@) == resolve_exprs(
                old(self).path_tree.nodes_view(),
                old(self).path_tree.hakos(),
                exprs_view(old(arguments)@),
            ),
            final(self).errors@ == old(self).errors@ + unknown_identifiers(
                unknown_counts(old(self).path_tree.nodes_view(), old(self).path_tree.hakos(), exprs_view(old(arguments)@)),
            ),
        decreases old(arguments)@,
    {
        let ghost nodes = self.path_tree.nodes_view();
        let ghost hakos = self.path_tree.hakos();
        let ghost old_args = exprs_view(arguments@);
        let ghost errors0 = self.errors@;
        let ghost orig = arguments@;
        proof {
            lemma_exprs_view(arguments@);
            lemma_all_checkable(old_args);
            lemma_resolve_exprs(nodes, hakos, old_args);
            assert(old_args.take(0) =~= Seq::<SpecExpression>::empty());
            assert(errors0 + unknown_identifiers(0) =~= errors0);
        }
        let mut i: usize = 0;
        while i < arguments.len()
            invariant
                i <= arguments.len(),
                arguments.len() == old_args.len(),
                self.path_tree.nodes_view() == nodes,
                self.path_tree.hakos() == hakos,
                self.path_tree == old(self).path_tree,
                forall|j: int| 0 <= j < old_args.len() ==> checkable(#[trigger] old_args[j]),
                forall|j: int| 0 <= j < i ==> #[trigger] arguments@[j]@ == resolve_exprs(nodes, hakos, old_args)[j],
                forall|j: int| i <= j < arguments.len() ==> #[trigger] arguments@[j] == orig[j],
                orig == old(arguments)@,
                orig.len() == arguments.len(),
                old_args == exprs_view(orig),
                forall|j: int| 0 <= j < orig.len() ==> #[trigger] old_args[j] == orig[j]@,
                forall|j: int| 0 <= j < old_args.len() ==> #[trigger] resolve_exprs(nodes, hakos, old_args)[j]
                    == resolve_expr(nodes, hakos, old_args[j]),
                resolve_exprs(nodes, hakos, old_args).len() == old_args.len(),
                self.errors@ == errors0 + unknown_identifiers(unknown_counts(nodes, hakos, old_args.take(i as int))),
            decreases arguments.len() - i,
        {
            let ghost before = self.errors@;
            proof {
                assert(arguments@[i as int] == orig[i as int]);
                assert(checkable(old_args[i as int]));
                assert(checkable(arguments@[i as int]@));
                assert(decreases_to!(orig => orig[i as int]));
            }
            self.expression(&mut arguments[i]);
            proof {
                lemma_unknown_counts_concat(nodes, hakos, old_args.take(i as int), seq![old_args[i as int]]);
                assert(old_args.take(i as int) + seq![old_args[i as int]] =~= old_args.take(i + 1));
                lemma_unknown_counts_single(nodes, hakos, old_args[i as int]);
                lemma_unknown_identifiers_concat(
                    unknown_counts(nodes, hakos, old_args.take(i as int)),
                    unknown_count(nodes, hakos, old_args[i as int]),
                );
                assert(self.errors@ =~= errors0 + unknown_identifiers(unknown_counts(nodes, hakos, old_args.take(i + 1))));
            }
            i += 1;
        }
        proof {
            lemma_exprs_view(arguments@);
            assert(exprs_view(arguments@) =~= resolve_exprs(nodes, hakos, old_args));
            assert(old_args.take(i as int) =~= old_args);
        }
    }

    pub(crate) fn path(&mut self, path: &mut HirPath)
        requires
            *old(path) is Unresolved,
        ensures
            final(self).path_tree == old(self).path_tree,
            final(path)@ == resolve_path(old(self).path_tree.nodes_view(), old(self).path_tree.hakos(), old(path)@),
            final(self).errors@ == old(self).errors@ + unknown_identifiers(
                match old(path)@ {
                    SpecPath::Unresolved(segments) => if spec_find(
                        old(self).path_tree.nodes_view(),
                        old(self).path_tree.hakos(),
                        segments,
                    ) is Some { 0nat } else { 1nat },
                    SpecPath::Resolved(_) => 0nat,
                },
            ),
    {
        let path_index = match path {
            HirPath::Resolved(_) => return,
            HirPath::Unresolved(segments) => {
                match self.path_tree.find(segments) {
                    Some((path_index, _)) => *path_index,
                    None => {
                        self.errors.push(DataTypeError::UnknownIdentifier);
                        assert(unknown_identifiers(1) =~= seq![DataTypeError::UnknownIdentifier]);
                        return;
                    },
                }
            },
        };
        assert(unknown_identifiers(0) =~= Seq::<DataTypeError>::empty());
        assert(self.errors@ + unknown_identifiers(0) =~= self.errors@);
        *path = HirPath::Resolved(path_index);
    }
}


// ----- what checking leaves behind -----

/// Whether every path in the expression that is still unresolved names no node of
/// the tree.
pub open spec fn only_unknown_unresolved(nodes: Map<usize, SpecPathNode>, hakos: Seq<HirPathIndex>, e: SpecExpression) -> bool
    decreases e,
{
    match e {
        SpecExpression::Operation(op) => match *op {
            SpecOperation::Substitute(l, r) => only_unknown_unresolved(nodes, hakos, l) && only_unknown_unresolved(nodes, hakos, r),
            SpecOperation::Add(l, r) => only_unknown_unresolved(nodes, hakos, l) && only_unknown_unresolved(nodes, hakos, r),
            SpecOperation::Subtract(l, r) => only_unknown_unresolved(nodes, hakos, l) && only_unknown_unresolved(nodes, hakos, r),
            SpecOperation::Multiply(l, r) => only_unknown_unresolved(nodes, hakos, l) && only_unknown_unresolved(nodes, hakos, r),
            SpecOperation::MemberAccess(l, r) => only_unknown_unresolved(nodes, hakos, l) && only_unknown_unresolved(nodes, hakos, r),
            SpecOperation::Not(t) => only_unknown_unresolved(nodes, hakos, t),
            SpecOperation::BitNot(t) => only_unknown_unresolved(nodes, hakos, t),
            SpecOperation::Negative(t) => only_unknown_unresolved(nodes, hakos, t),
            SpecOperation::Nonnize(t) => only_unknown_unresolved(nodes, hakos, t),
            SpecOperation::Propagate(t) => only_unknown_unresolved(nodes, hakos, t),
            SpecOperation::Group(t) => only_unknown_unresolved(nodes, hakos, t),
            SpecOperation::FunctionCall(t, args) => only_unknown_unresolved(nodes, hakos, t) && all_only_unknown_unresolved(nodes, hakos, args),
            SpecOperation::Path(p) => match p { SpecPath::Unresolved(segments) => spec_find(nodes, hakos, segments) is None, SpecPath::Resolved(_) => true },
        },
        _ => true,
    }
}

pub open spec fn all_only_unknown_unresolved(nodes: Map<usize, SpecPathNode>, hakos: Seq<HirPathIndex>, s: Seq<SpecExpression>) -> bool
    decreases s,
{
    s.len() == 0 || (only_unknown_unresolved(nodes, hakos, s[0]) && all_only_unknown_unresolved(nodes, hakos, s.subrange(1, s.len() as int)))
}

/// How many unresolved paths the expression holds, wherever they stand.
pub open spec fn unresolved_paths(e: SpecExpression) -> nat
    decreases e,
{
    match e {
        SpecExpression::Operation(op) => match *op {
            SpecOperation::Substitute(l, r) => unresolved_paths(l) + unresolved_paths(r),
            SpecOperation::Add(l, r) => unresolved_paths(l) + unresolved_paths(r),
            SpecOperation::Subtract(l, r) => unresolved_paths(l) + unresolved_paths(r),
            SpecOperation::Multiply(l, r) => unresolved_paths(l) + unresolved_paths(r),
            SpecOperation::MemberAccess(l, r) => unresolved_paths(l) + unresolved_paths(r),
            SpecOperation::Not(t) => unresolved_paths(t),
            SpecOperation::BitNot(t) => unresolved_paths(t),
            SpecOperation::Negative(t) => unresolved_paths(t),
            SpecOperation::Nonnize(t) => unresolved_paths(t),
            SpecOperation::Propagate(t) => unresolved_paths(t),
            SpecOperation::Group(t) => unresolved_paths(t),
            SpecOperation::FunctionCall(t, args) => unresolved_paths(t) + all_unresolved_paths(args),
            SpecOperation::Path(p) => if p is Unresolved { 1 } else { 0 },
        },
        _ => 0,
    }
}

pub open spec fn all_unresolved_paths(s: Seq<SpecExpression>) -> nat
    decreases s,
{
    if s.len() == 0 { 0 } else { unresolved_paths(s[0]) + all_unresolved_paths(s.subrange(1, s.len() as int)) }
}

/// Checking an expression leaves no path unresolved that names a node of the tree,
/// wherever the path stands (call arguments included), and reports one unknown
/// identifier for each path that it leaves unresolved.
pub proof fn lemma_check_leaves_only_unknown(nodes: Map<usize, SpecPathNode>, hakos: Seq<HirPathIndex>, e: SpecExpression)
    ensures
        only_unknown_unresolved(nodes, hakos, resolve_expr(nodes, hakos, e)),
        unresolved_paths(resolve_expr(nodes, hakos, e)) == unknown_count(nodes, hakos, e),
    decreases e,
{
    match e {
        SpecExpression::Operation(op) => match *op {
            SpecOperation::Substitute(l, r) => { lemma_check_leaves_only_unknown(nodes, hakos, l); lemma_check_leaves_only_unknown(nodes, hakos, r); },
            SpecOperation::Add(l, r) => { lemma_check_leaves_only_unknown(nodes, hakos, l); lemma_check_leaves_only_unknown(nodes, hakos, r); },
            SpecOperation::Subtract(l, r) => { lemma_check_leaves_only_unknown(nodes, hakos, l); lemma_check_leaves_only_unknown(nodes, hakos, r); },
            SpecOperation::Multiply(l, r) => { lemma_check_leaves_only_unknown(nodes, hakos, l); lemma_check_leaves_only_unknown(nodes, hakos, r); },
            SpecOperation::MemberAccess(l, r) => { lemma_check_leaves_only_unknown(nodes, hakos, l); lemma_check_leaves_only_unknown(nodes, hakos, r); },
            SpecOperation::Not(t) => { lemma_check_leaves_only_unknown(nodes, hakos, t); },
            SpecOperation::BitNot(t) => { lemma_check_leaves_only_unknown(nodes, hakos, t); },
            SpecOperation::Negative(t) => { lemma_check_leaves_only_unknown(nodes, hakos, t); },
            SpecOperation::Nonnize(t) => { lemma_check_leaves_only_unknown(nodes, hakos, t); },
            SpecOperation::Propagate(t) => { lemma_check_leaves_only_unknown(nodes, hakos, t); },
            SpecOperation::Group(t) => { lemma_check_leaves_only_unknown(nodes, hakos, t); },
            SpecOperation::FunctionCall(t, args) => { lemma_check_leaves_only_unknown(nodes, hakos, t); lemma_check_all_leave_only_unknown(nodes, hakos, args); },
            SpecOperation::Path(p) => {},
        },
        _ => {},
    }
}

/// The same for a sequence of expressions, such as the arguments of a call or the
/// expressions of a function.
pub proof fn lemma_check_all_leave_only_unknown(nodes: Map<usize, SpecPathNode>, hakos: Seq<HirPathIndex>, s: Seq<SpecExpression>)
    ensures
        all_only_unknown_unresolved(nodes, hakos, resolve_exprs(nodes, hakos, s)),
        all_unresolved_paths(resolve_exprs(nodes, hakos, s)) == unknown_counts(nodes, hakos, s),
    decreases s,
{
    if s.len() > 0 {
        let rest = s.subrange(1, s.len() as int);
        lemma_check_leaves_only_unknown(nodes, hakos, s[0]);
        lemma_check_all_leave_only_unknown(nodes, hakos, rest);
        let r = resolve_exprs(nodes, hakos, s);
        assert(r == seq![resolve_expr(nodes, hakos, s[0])] + resolve_exprs(nodes, hakos, rest));
        assert(r.subrange(1, r.len() as int) =~= resolve_exprs(nodes, hakos, rest));
        assert(r[0] == resolve_expr(nodes, hakos, s[0]));
    }
}


/// A checked item keeps no path unresolved that names a node of the tree, and the
/// checker reports one unknown identifier for each path that the item keeps unresolved.
pub proof fn lemma_checked_item(nodes: Map<usize, SpecPathNode>, hakos: Seq<HirPathIndex>, item: SpecItem)
    ensures
        resolve_item(nodes, hakos, item) matches SpecItem::Function(f) ==> all_only_unknown_unresolved(nodes, hakos, f.expressions)
            && all_unresolved_paths(f.expressions) == item_unknown_count(nodes, hakos, item),
{
    if let SpecItem::Function(f) = item {
        lemma_check_all_leave_only_unknown(nodes, hakos, f.expressions);
    }
}


/// A path that names a node of the tree is resolved to that node's index; one that
/// names none stays as it is, and so does a resolved one.
pub proof fn lemma_check_resolves_paths(nodes: Map<usize, SpecPathNode>, hakos: Seq<HirPathIndex>, segments: Seq<Seq<char>>, index: HirPathIndex)
    ensures
        spec_find(nodes, hakos, segments) == Some(index) ==> resolve_expr(nodes, hakos,
            SpecExpression::Operation(Box::new(SpecOperation::Path(SpecPath::Unresolved(segments)))))
            == SpecExpression::Operation(Box::new(SpecOperation::Path(SpecPath::Resolved(index)))),
        spec_find(nodes, hakos, segments) is None ==> resolve_expr(nodes, hakos,
            SpecExpression::Operation(Box::new(SpecOperation::Path(SpecPath::Unresolved(segments)))))
            == SpecExpression::Operation(Box::new(SpecOperation::Path(SpecPath::Unresolved(segments)))),
        resolve_expr(nodes, hakos, SpecExpression::Operation(Box::new(SpecOperation::Path(SpecPath::Resolved(index)))))
            == SpecExpression::Operation(Box::new(SpecOperation::Path(SpecPath::Resolved(index)))),
{
}

} // verus!
