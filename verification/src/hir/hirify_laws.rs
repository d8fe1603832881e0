use vstd::prelude::*;
use crate::ast::syntax_tree::{SpecChild, SpecNode, leaf_value};
use crate::ast::operator_laws::{
    assign_of, difference_of, lemma_one_infix, product_of, sum_of,
};
use crate::hir::ir::expr::{SpecExpression, SpecOperation, SpecOperator, SpecToken};
use crate::hir::hirify::{spec_expression, spec_operation, spec_operation_token, spec_operation_tokens, spec_operator};
use crate::hir::hirify::{
    HirifyState, SpecHako, SpecItemResult, SpecModule, add_path_node, advance, initial_state, spec_hako,
    spec_hakos, spec_item, spec_items, spec_module, spec_modules, with_logs,
};
use crate::hir::ir::path::HirPathKind;

verus! {

/// The state is consistent: every index in use is below the next one to hand out; the
/// items come in increasing order of their indexes; and the index of each item names
/// a function node of the path tree.
pub open spec fn items_bound_to_functions(st: HirifyState) -> bool {
    &&& forall|k: usize| #[trigger] st.nodes.contains_key(k) ==> k < st.next
    &&& forall|j: int| 0 <= j < st.items.len() ==> #[trigger] st.items[j].0.0 < st.next
    &&& forall|j: int, k: int| 0 <= j < k < st.items.len() ==> #[trigger] st.items[j].0.0 < #[trigger] st.items[k].0.0
    &&& forall|j: int| 0 <= j < st.items.len() ==> st.nodes.contains_key(#[trigger] st.items[j].0.0)
        && st.nodes[st.items[j].0.0].kind is Function
}

/// The later state only adds to the earlier: it hands out no smaller index, keeps
/// the items, and binds what it adds to indexes handed out since.
pub open spec fn grows(st: HirifyState, st2: HirifyState) -> bool {
    &&& st2.next >= st.next
    &&& st2.items.len() >= st.items.len()
    &&& st2.items.subrange(0, st.items.len() as int) == st.items
    &&& forall|j: int| st.items.len() <= j < st2.items.len() ==> #[trigger] st2.items[j].0.0 >= st.next
}

proof fn lemma_grows_trans(a: HirifyState, b: HirifyState, c: HirifyState)
    requires
        grows(a, b),
        grows(b, c),
    ensures
        grows(a, c),
{
    assert(c.items.subrange(0, a.items.len() as int) =~= c.items.subrange(0, b.items.len() as int).subrange(0, a.items.len() as int));
    assert forall|j: int| a.items.len() <= j < c.items.len() implies #[trigger] c.items[j].0.0 >= a.next by {
        if j < b.items.len() {
            assert(c.items.subrange(0, b.items.len() as int)[j] == c.items[j]);
            assert(b.items[j] == c.items[j]);
        }
    }
}

proof fn lemma_grows_refl(st: HirifyState)
    ensures
        grows(st, st),
{
    assert(st.items.subrange(0, st.items.len() as int) =~= st.items);
}

/// Adding a node at an index that no item is bound to keeps the state consistent.
proof fn lemma_add_free_node(st: HirifyState, index: crate::hir::ir::path::HirPathIndex, node: crate::hir::ir::path::SpecPathNode)
    requires
        items_bound_to_functions(st),
        index.0 < st.next,
        forall|j: int| 0 <= j < st.items.len() ==> #[trigger] st.items[j].0 != index,
    ensures
        items_bound_to_functions(add_path_node(st, index, node)),
        add_path_node(st, index, node).items == st.items,
        add_path_node(st, index, node).next == st.next,
{
    let st2 = add_path_node(st, index, node);
    assert forall|j: int| 0 <= j < st2.items.len() implies st2.nodes.contains_key(#[trigger] st2.items[j].0.0)
        && st2.nodes[st2.items[j].0.0].kind is Function by {
        assert(st.items[j].0 != index);
    }
}

proof fn lemma_item(n: SpecNode, parent: crate::hir::ir::path::HirPathIndex, st: HirifyState)
    requires
        items_bound_to_functions(st),
        spec_item(n, parent, st) is Some,
    ensures
        items_bound_to_functions(spec_item(n, parent, st).unwrap().1),
        grows(st, spec_item(n, parent, st).unwrap().1),
        spec_item(n, parent, st).unwrap().1.next == st.next + 1,
{
    let index = crate::hir::ir::path::HirPathIndex(st.next as usize);
    let st1 = advance(st);
    let (r, st_end) = spec_item(n, parent, st)->0;
    match r {
        SpecItemResult::UseDeclaration(_) => {
            assert(st_end.items == st.items);
            lemma_grows_refl(st);
        },
        SpecItemResult::ItemPathIndex(_) => {
            let content = n.children[0]->Node_0;
            let (id, f, logs) = crate::hir::hirify::spec_function(content)->0;
            let st2 = with_logs(st1, logs);
            let node = crate::hir::ir::path::SpecPathNode { id, kind: HirPathKind::Function, parent: Some(parent), children: Seq::empty() };
            assert forall|j: int| 0 <= j < st2.items.len() implies #[trigger] st2.items[j].0 != index by {
                assert(st.items[j].0.0 < st.next);
            }
            lemma_add_free_node(st2, index, node);
            let st3 = add_path_node(st2, index, node);
            assert(st_end.items == st3.items.push((index, crate::hir::ir::item::SpecItem::Function(f))));
            assert(st_end.items.subrange(0, st.items.len() as int) =~= st.items);
            assert forall|j: int, k: int| 0 <= j < k < st_end.items.len() implies #[trigger] st_end.items[j].0.0 < #[trigger] st_end.items[k].0.0 by {
                if k == st_end.items.len() - 1 {
                    assert(st.items[j].0.0 < st.next);
                }
            }
        },
    }
}

proof fn lemma_items(nodes: Seq<SpecNode>, parent: crate::hir::ir::path::HirPathIndex, st: HirifyState)
    requires
        items_bound_to_functions(st),
        spec_items(nodes, parent, st) is Some,
    ensures
        items_bound_to_functions(spec_items(nodes, parent, st).unwrap().1),
        grows(st, spec_items(nodes, parent, st).unwrap().1),
    decreases nodes.len(),
{
    if nodes.len() == 0 {
        lemma_grows_refl(st);
    } else {
        let st1 = spec_item(nodes[0], parent, st).unwrap().1;
        lemma_item(nodes[0], parent, st);
        lemma_items(nodes.subrange(1, nodes.len() as int), parent, st1);
        lemma_grows_trans(st, st1, spec_items(nodes, parent, st).unwrap().1);
    }
}

proof fn lemma_module(m: SpecModule, parent: crate::hir::ir::path::HirPathIndex, st: HirifyState)
    requires
        items_bound_to_functions(st),
        spec_module(m, parent, st) is Some,
    ensures
        items_bound_to_functions(spec_module(m, parent, st).unwrap().1),
        grows(st, spec_module(m, parent, st).unwrap().1),
        spec_module(m, parent, st).unwrap().1.next > st.next,
    decreases m, 0nat,
{
    let index = crate::hir::ir::path::HirPathIndex(st.next as usize);
    let st1 = advance(st);
    lemma_grows_refl(st);
    assert(grows(st, st1));
    assert(items_bound_to_functions(st1));
    let (subs, st2) = spec_modules(m.submodules, index, st1)->0;
    lemma_modules(m.submodules, index, st1);
    let (item_children, st3) = spec_items(crate::ast::syntax_tree::nodes_of(m.node.children), index, st2)->0;
    lemma_items(crate::ast::syntax_tree::nodes_of(m.node.children), index, st2);
    lemma_grows_trans(st1, st2, st3);
    let node = crate::hir::ir::path::SpecPathNode {
        id: m.id,
        kind: HirPathKind::Module,
        parent: Some(parent),
        children: subs + item_children,
    };
    assert forall|j: int| 0 <= j < st3.items.len() implies #[trigger] st3.items[j].0 != index by {
        if j < st.items.len() {
            assert(st3.items.subrange(0, st1.items.len() as int)[j] == st3.items[j]);
            assert(st.items[j].0.0 < st.next);
        } else {
            assert(st3.items[j].0.0 >= st1.next);
        }
    }
    lemma_add_free_node(st3, index, node);
    lemma_grows_trans(st, st1, st3);
}

proof fn lemma_modules(ms: Seq<SpecModule>, parent: crate::hir::ir::path::HirPathIndex, st: HirifyState)
    requires
        items_bound_to_functions(st),
        spec_modules(ms, parent, st) is Some,
    ensures
        items_bound_to_functions(spec_modules(ms, parent, st).unwrap().1),
        grows(st, spec_modules(ms, parent, st).unwrap().1),
    decreases ms, 0nat,
{
    if ms.len() == 0 {
        lemma_grows_refl(st);
    } else {
        let st1 = spec_module(ms[0], parent, st).unwrap().1;
        lemma_module(ms[0], parent, st);
        lemma_modules(ms.subrange(1, ms.len() as int), parent, st1);
        lemma_grows_trans(st, st1, spec_modules(ms, parent, st).unwrap().1);
    }
}

proof fn lemma_hako(h: SpecHako, st: HirifyState)
    requires
        items_bound_to_functions(st),
        spec_hako(h, st) is Some,
    ensures
        items_bound_to_functions(spec_hako(h, st)->0),
        grows(st, spec_hako(h, st)->0),
{
    let index = crate::hir::ir::path::HirPathIndex(st.next as usize);
    let st1 = advance(st);
    lemma_grows_refl(st);
    assert(grows(st, st1));
    let (children, st2) = spec_modules(h.modules, index, st1)->0;
    lemma_modules(h.modules, index, st1);
    let node = crate::hir::ir::path::SpecPathNode { id: h.id, kind: HirPathKind::Hako, parent: None, children };
    assert forall|j: int| 0 <= j < st2.items.len() implies #[trigger] st2.items[j].0 != index by {
        if j < st.items.len() {
            assert(st2.items.subrange(0, st1.items.len() as int)[j] == st2.items[j]);
            assert(st.items[j].0.0 < st.next);
        } else {
            assert(st2.items[j].0.0 >= st1.next);
        }
    }
    lemma_add_free_node(st2, index, node);
    lemma_grows_trans(st, st1, st2);
}

proof fn lemma_hakos(hs: Seq<SpecHako>, st: HirifyState)
    requires
        items_bound_to_functions(st),
        spec_hakos(hs, st) is Some,
    ensures
        items_bound_to_functions(spec_hakos(hs, st)->0),
    decreases hs.len(),
{
    if hs.len() > 0 {
        let st1 = spec_hako(hs[0], st)->0;
        lemma_hako(hs[0], st);
        lemma_hakos(hs.subrange(1, hs.len() as int), st1);
    }
}

/// Hirifying binds every item to a function: in what hirifying hakos gives, the index
/// of each item names a function node of the path tree, and no two items share an
/// index (they come in increasing order of their indexes).
pub proof fn lemma_hirify_binds_items_to_functions(hs: Seq<SpecHako>)
    requires
        spec_hakos(hs, initial_state()) is Some,
    ensures
        items_bound_to_functions(spec_hakos(hs, initial_state())->0),
{
    lemma_hakos(hs, initial_state());
}


/// Each operator symbol of the operation syntax stands for the operator of the same
/// meaning: `=` assigns, `+` adds, `-` subtracts, `*` multiplies, `.` accesses a
/// member, `::` joins a path, `(` and `)` group; `!e`, `~e` and `-e` are the prefix
/// not, bitwise not and negation, `e!` and `e?` the postfix ones.
pub proof fn lemma_operator_symbols(n: SpecNode)
    ensures
        leaf_value(n, 0) == Some("="@) ==> spec_operator(n) == Some(SpecOperator::Substitute),
        leaf_value(n, 0) == Some("+"@) ==> spec_operator(n) == Some(SpecOperator::Add),
        leaf_value(n, 0) == Some("-"@) ==> spec_operator(n) == Some(SpecOperator::Subtract),
        leaf_value(n, 0) == Some("*"@) ==> spec_operator(n) == Some(SpecOperator::Multiply),
        leaf_value(n, 0) == Some("."@) ==> spec_operator(n) == Some(SpecOperator::MemberAccess),
        leaf_value(n, 0) == Some("::"@) ==> spec_operator(n) == Some(SpecOperator::Path),
        leaf_value(n, 0) == Some("("@) ==> spec_operator(n) == Some(SpecOperator::GroupBegin),
        leaf_value(n, 0) == Some(")"@) ==> spec_operator(n) == Some(SpecOperator::GroupEnd),
        leaf_value(n, 0) == Some("!e"@) ==> spec_operator(n) == Some(SpecOperator::Not),
        leaf_value(n, 0) == Some("~e"@) ==> spec_operator(n) == Some(SpecOperator::BitNot),
        leaf_value(n, 0) == Some("-e"@) ==> spec_operator(n) == Some(SpecOperator::Negative),
        leaf_value(n, 0) == Some("e!"@) ==> spec_operator(n) == Some(SpecOperator::Nonnize),
        leaf_value(n, 0) == Some("e?"@) ==> spec_operator(n) == Some(SpecOperator::Propagate),
{
    reveal_strlit("=");
    reveal_strlit("+");
    reveal_strlit("-");
    reveal_strlit("*");
    reveal_strlit(".");
    reveal_strlit("::");
    reveal_strlit("(");
    reveal_strlit(")");
    reveal_strlit("!e");
    reveal_strlit("~e");
    reveal_strlit("-e");
    reveal_strlit("e!");
    reveal_strlit("e?");
    assert("="@[0] == '=' && "+"@[0] == '+' && "-"@[0] == '-' && "*"@[0] == '*' && "."@[0] == '.');
    assert("::"@[0] == ':' && "("@[0] == '(' && ")"@[0] == ')');
    assert("!e"@[0] == '!' && "~e"@[0] == '~' && "-e"@[0] == '-' && "e!"@[0] == 'e' && "e?"@[0] == 'e');
    assert("e!"@[1] == '!' && "e?"@[1] == '?');
    assert("-"@.len() == 1 && "-e"@.len() == 2);
}

/// An operation node `x o y` with one infix operator hirifies to the operation of
/// that operator on the expressions of `x` and `y`, in that order: `x - y` to
/// `Subtract(x, y)`, and likewise for `=`, `+` and `*`.
pub proof fn lemma_infix_operation(n: SpecNode, x: SpecNode, o: SpecNode, y: SpecNode, a: SpecExpression, b: SpecExpression)
    requires
        n.children == seq![SpecChild::Node(x), SpecChild::Node(o), SpecChild::Node(y)],
        x.name != "operator"@,
        o.name == "operator"@,
        y.name != "operator"@,
        spec_expression(x) == Some(a),
        spec_expression(y) == Some(b),
    ensures
        leaf_value(o, 0) == Some("="@) ==> spec_operation(n) == Some(assign_of(a, b)),
        leaf_value(o, 0) == Some("+"@) ==> spec_operation(n) == Some(sum_of(a, b)),
        leaf_value(o, 0) == Some("-"@) ==> spec_operation(n) == Some(difference_of(a, b)),
        leaf_value(o, 0) == Some("*"@) ==> spec_operation(n) == Some(product_of(a, b)),
{
    lemma_operator_symbols(o);
    let c = n.children;
    assert(c.subrange(1, 3) =~= seq![SpecChild::Node(o), SpecChild::Node(y)]);
    assert(seq![SpecChild::Node(o), SpecChild::Node(y)].subrange(1, 2) =~= seq![SpecChild::Node(y)]);
    assert(seq![SpecChild::Node(y)].subrange(1, 1) =~= Seq::<SpecChild>::empty());
    assert(spec_operation_tokens(Seq::<SpecChild>::empty()) == Some(Seq::<SpecToken>::empty()));
    assert(spec_operation_token(y) == Some(SpecToken::Term(b)));
    assert(spec_operation_token(x) == Some(SpecToken::Term(a)));
    assert(seq![SpecChild::Node(y)][0] == SpecChild::Node(y));
    assert(spec_operation_tokens(seq![SpecChild::Node(y)]) == Some(seq![SpecToken::Term(b)] + Seq::<SpecToken>::empty()));
    assert(seq![SpecToken::Term(b)] + Seq::<SpecToken>::empty() =~= seq![SpecToken::Term(b)]);
    match spec_operator(o) {
        Some(op) => {
            let to = SpecToken::Operator(op);
            assert(spec_operation_token(o) == Some(to));
            assert(spec_operation_tokens(seq![SpecChild::Node(o), SpecChild::Node(y)]) == Some(seq![to] + seq![SpecToken::Term(b)]));
            assert(spec_operation_tokens(c) == Some(seq![SpecToken::Term(a)] + (seq![to] + seq![SpecToken::Term(b)])));
            assert(seq![SpecToken::Term(a)] + (seq![to] + seq![SpecToken::Term(b)]) =~= seq![SpecToken::Term(a), to, SpecToken::Term(b)]);
            if op is Substitute || op is Add || op is Subtract || op is Multiply {
                lemma_one_infix(a, op, b);
            }
        },
        None => {},
    }
}

} // verus!
