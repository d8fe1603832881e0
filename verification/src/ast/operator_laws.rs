use vstd::prelude::*;
use vstd::seq_lib::lemma_multiset_commutative;
use crate::hir::ir::expr::{SpecExpression, SpecOperation, SpecOperator, SpecToken};
use crate::ast::operator::{
    OperatorPrecedenceMode, binary_operation, construct_run, construct_step, is_binary,
    operation_expr, operator_precedence, path_join, postfix_run, spec_construct_expression,
    spec_into_postfix, token_precedence, unary_operation,
};

verus! {

broadcast use vstd::multiset::group_multiset_axioms, vstd::seq_lib::group_to_multiset_ensures;

/// The terms of a token sequence, in order.
pub open spec fn terms(s: Seq<SpecToken>) -> Seq<SpecExpression>
    decreases s.len(),
{
    if s.len() == 0 {
        Seq::empty()
    } else {
        let rest = terms(s.drop_first());
        match s[0] {
            SpecToken::Term(e) => seq![e] + rest,
            SpecToken::Operator(_) => rest,
        }
    }
}

proof fn lemma_terms_concat(a: Seq<SpecToken>, b: Seq<SpecToken>)
    ensures
        terms(a + b) == terms(a) + terms(b),
    decreases a.len(),
{
    if a.len() == 0 {
        assert(a + b =~= b);
        assert(terms(a) + terms(b) =~= terms(b));
    } else {
        lemma_terms_concat(a.drop_first(), b);
        assert((a + b).drop_first() =~= a.drop_first() + b);
        assert((a + b)[0] == a[0]);
        match a[0] {
            SpecToken::Term(e) => {
                assert(seq![e] + (terms(a.drop_first()) + terms(b)) =~= (seq![e] + terms(a.drop_first())) + terms(b));
            },
            SpecToken::Operator(_) => {},
        }
    }
}

proof fn lemma_terms_single(t: SpecToken)
    ensures
        terms(seq![t]) == match t {
            SpecToken::Term(e) => seq![e],
            SpecToken::Operator(_) => Seq::<SpecExpression>::empty(),
        },
{
    assert(seq![t].drop_first() =~= Seq::<SpecToken>::empty());
    assert(terms(seq![t].drop_first()) =~= Seq::<SpecExpression>::empty());
    match t {
        SpecToken::Term(e) => {
            assert(seq![e] + Seq::<SpecExpression>::empty() =~= seq![e]);
        },
        SpecToken::Operator(_) => {},
    }
}

/// Only the topmost token of the stack may be a term.
pub open spec fn terms_only_on_top(stack: Seq<SpecToken>) -> bool {
    forall|i: int| 0 <= i < stack.len() - 1 ==> stack[i] is Operator
}

proof fn lemma_run_keeps_terms(
    input: Seq<SpecToken>,
    stack: Seq<SpecToken>,
    output: Seq<SpecToken>,
)
    requires
        postfix_run(input, stack, output) is Some,
        terms_only_on_top(stack),
    ensures
        terms(postfix_run(input, stack, output)->0) == terms(output) + terms(stack) + terms(input),
    decreases 2 * input.len() + stack.len(),
{
    if input.len() == 0 && stack.len() == 0 {
        assert(terms(output) + terms(stack) + terms(input) =~= terms(output));
    } else {
        let ip = if input.len() > 0 {
            token_precedence(input[0], OperatorPrecedenceMode::InputPrecedence)
        } else {
            Some(0int)
        };
        let sp = if stack.len() > 0 {
            token_precedence(stack.last(), OperatorPrecedenceMode::StackPrecedence)
        } else {
            Some(0int)
        };
        if input.len() > 0 {
            assert(input =~= seq![input[0]] + input.drop_first());
            lemma_terms_concat(seq![input[0]], input.drop_first());
            lemma_terms_single(input[0]);
        }
        if stack.len() > 0 {
            assert(stack =~= stack.drop_last() + seq![stack.last()]);
            lemma_terms_concat(stack.drop_last(), seq![stack.last()]);
            lemma_terms_single(stack.last());
            lemma_no_terms(stack.drop_last());
        }
        if ip->0 < sp->0 {
            let o2 = output.push(stack.last());
            assert(o2 =~= output + seq![stack.last()]);
            lemma_terms_concat(output, seq![stack.last()]);
            lemma_run_keeps_terms(input, stack.drop_last(), o2);
            assert(terms(o2) + terms(stack.drop_last()) + terms(input) =~= terms(output) + terms(stack) + terms(input));
        } else if sp->0 < ip->0 {
            let s2 = stack.push(input[0]);
            // the old top is no term: a term on top outranks every input token
            assert(terms_only_on_top(s2));
            assert(s2 =~= stack + seq![input[0]]);
            lemma_terms_concat(stack, seq![input[0]]);
            if stack.len() > 0 {
                assert(stack.last() is Operator);
            }
            lemma_no_terms(stack);
            lemma_run_keeps_terms(input.drop_first(), s2, output);
            assert(terms(output) + terms(s2) + terms(input.drop_first()) =~= terms(output) + terms(stack) + terms(input));
        } else {
            let o2 = output.push(stack.last()).push(input[0]);
            assert(o2 =~= output + seq![stack.last()] + seq![input[0]]);
            lemma_terms_concat(output, seq![stack.last()]);
            lemma_terms_concat(output + seq![stack.last()], seq![input[0]]);
            lemma_run_keeps_terms(input.drop_first(), stack.drop_last(), o2);
            assert(terms(o2) + terms(stack.drop_last()) + terms(input.drop_first()) =~= terms(output) + terms(stack) + terms(input));
        }
    }
}

proof fn lemma_no_terms(s: Seq<SpecToken>)
    requires
        forall|i: int| 0 <= i < s.len() ==> s[i] is Operator,
    ensures
        terms(s) == Seq::<SpecExpression>::empty(),
    decreases s.len(),
{
    if s.len() > 0 {
        lemma_no_terms(s.drop_first());
    }
}

/// The conversion into postfix notation keeps the terms in the order they were read:
/// only operators are moved.
pub proof fn lemma_postfix_keeps_term_order(input: Seq<SpecToken>)
    requires
        spec_into_postfix(input) is Some,
    ensures
        terms(spec_into_postfix(input)->0) == terms(input),
{
    lemma_run_keeps_terms(input, Seq::empty(), Seq::empty());
    assert(Seq::<SpecExpression>::empty() + Seq::<SpecExpression>::empty() + terms(input) =~= terms(input));
}

proof fn lemma_run_permutes(
    input: Seq<SpecToken>,
    stack: Seq<SpecToken>,
    output: Seq<SpecToken>,
)
    requires
        postfix_run(input, stack, output) is Some,
    ensures
        postfix_run(input, stack, output)->0.to_multiset()
            == input.to_multiset().add(stack.to_multiset()).add(output.to_multiset()),
    decreases 2 * input.len() + stack.len(),
{
    if input.len() == 0 && stack.len() == 0 {
        assert(input.to_multiset().add(stack.to_multiset()).add(output.to_multiset()) =~= output.to_multiset());
    } else {
        let ip = if input.len() > 0 {
            token_precedence(input[0], OperatorPrecedenceMode::InputPrecedence)
        } else {
            Some(0int)
        };
        let sp = if stack.len() > 0 {
            token_precedence(stack.last(), OperatorPrecedenceMode::StackPrecedence)
        } else {
            Some(0int)
        };
        if input.len() > 0 {
            assert(input =~= seq![input[0]] + input.drop_first());
            lemma_multiset_commutative(seq![input[0]], input.drop_first());
            assert(seq![input[0]] =~= Seq::<SpecToken>::empty().push(input[0]));
        }
        if stack.len() > 0 {
            assert(stack =~= stack.drop_last().push(stack.last()));
        }
        if ip->0 < sp->0 {
            lemma_run_permutes(input, stack.drop_last(), output.push(stack.last()));
        } else if sp->0 < ip->0 {
            lemma_run_permutes(input.drop_first(), stack.push(input[0]), output);
        } else {
            lemma_run_permutes(input.drop_first(), stack.drop_last(), output.push(stack.last()).push(input[0]));
        }
        assert(postfix_run(input, stack, output)->0.to_multiset()
            =~= input.to_multiset().add(stack.to_multiset()).add(output.to_multiset()));
    }
}

/// The conversion into postfix notation rearranges the tokens: each token of the
/// input occurs in the output as often as in the input, and nothing else does.
pub proof fn lemma_postfix_is_permutation(input: Seq<SpecToken>)
    requires
        spec_into_postfix(input) is Some,
    ensures
        spec_into_postfix(input)->0.to_multiset() == input.to_multiset(),
        spec_into_postfix(input)->0.len() == input.len(),
{
    lemma_run_permutes(input, Seq::empty(), Seq::empty());
    assert(input.to_multiset().add(Seq::<SpecToken>::empty().to_multiset()).add(
        Seq::<SpecToken>::empty().to_multiset(),
    ) =~= input.to_multiset());
    vstd::seq_lib::to_multiset_len(input);
    vstd::seq_lib::to_multiset_len(spec_into_postfix(input)->0);
}

proof fn lemma_step_with_base(base: Seq<SpecExpression>, stack: Seq<SpecExpression>, t: SpecToken)
    requires
        construct_step(stack, t) is Ok,
    ensures
        construct_step(base + stack, t) == Ok::<_, crate::ast::operator::OperationParserError>(
            base + construct_step(stack, t)->Ok_0,
        ),
{
    let full = base + stack;
    let len = stack.len();
    match t {
        SpecToken::Term(e) => {
            assert(full.push(e) =~= base + stack.push(e));
        },
        SpecToken::Operator(op) => {
            if op is GroupEnd {
            } else if is_binary(op) {
                assert(full[full.len() - 2] == stack[len - 2]);
                assert(full[full.len() - 1] == stack[len - 1]);
                assert(full.take(full.len() - 2) =~= base + stack.take(len - 2));
                if op is Path {
                    let segments = path_join(stack[len - 2], stack[len - 1])->0;
                    let e = operation_expr(crate::ast::operator::spec_path_operation(segments));
                    assert(full.take(full.len() - 2).push(e) =~= base + stack.take(len - 2).push(e));
                } else {
                    let e = operation_expr(binary_operation(op, stack[len - 2], stack[len - 1]));
                    assert(full.take(full.len() - 2).push(e) =~= base + stack.take(len - 2).push(e));
                }
            } else {
                let e = operation_expr(unary_operation(op, stack.last()));
                assert(full.last() == stack.last());
                assert(full.drop_last().push(e) =~= base + stack.drop_last().push(e));
            }
        },
    }
}

proof fn lemma_run_with_base(base: Seq<SpecExpression>, stack: Seq<SpecExpression>, tokens: Seq<SpecToken>)
    requires
        construct_run(stack, tokens) is Ok,
    ensures
        construct_run(base + stack, tokens) == Ok::<_, crate::ast::operator::OperationParserError>(
            base + construct_run(stack, tokens)->Ok_0,
        ),
    decreases tokens.len(),
{
    if tokens.len() > 0 {
        lemma_step_with_base(base, stack, tokens[0]);
        lemma_run_with_base(base, construct_step(stack, tokens[0])->Ok_0, tokens.drop_first());
    }
}

proof fn lemma_run_concat(stack: Seq<SpecExpression>, a: Seq<SpecToken>, b: Seq<SpecToken>)
    ensures
        construct_run(stack, a + b) == match construct_run(stack, a) {
            Ok(s) => construct_run(s, b),
            Err(e) => Err(e),
        },
    decreases a.len(),
{
    if a.len() == 0 {
        assert(a + b =~= b);
    } else {
        assert((a + b)[0] == a[0]);
        assert((a + b).drop_first() =~= a.drop_first() + b);
        match construct_step(stack, a[0]) {
            Ok(s) => lemma_run_concat(s, a.drop_first(), b),
            Err(e) => {},
        }
    }
}

proof fn lemma_run_single(stack: Seq<SpecExpression>, t: SpecToken)
    ensures
        construct_run(stack, seq![t]) == construct_step(stack, t),
{
    assert(seq![t].drop_first() =~= Seq::<SpecToken>::empty());
    assert(seq![t][0] == t);
    match construct_step(stack, t) {
        Ok(s) => {
            assert(construct_run(s, seq![t].drop_first()) == Ok::<_, crate::ast::operator::OperationParserError>(s));
        },
        Err(e) => {},
    }
}

/// Postfix notation composes: when the tokens `s1` denote the expression `e1` and
/// `s2` the expression `e2`, then `s1 s2 op` denotes `op` applied to `e1` and `e2`,
/// for each binary operator but `::`.
pub proof fn lemma_construct_binary(
    s1: Seq<SpecToken>,
    s2: Seq<SpecToken>,
    op: SpecOperator,
    e1: SpecExpression,
    e2: SpecExpression,
)
    requires
        is_binary(op),
        !(op is Path),
        construct_run(Seq::empty(), s1) == Ok::<_, crate::ast::operator::OperationParserError>(seq![e1]),
        construct_run(Seq::empty(), s2) == Ok::<_, crate::ast::operator::OperationParserError>(seq![e2]),
    ensures
        spec_construct_expression(s1 + s2 + seq![SpecToken::Operator(op)])
            == Ok::<_, crate::ast::operator::OperationParserError>(operation_expr(binary_operation(op, e1, e2))),
{
    let op_tok = seq![SpecToken::Operator(op)];
    lemma_run_concat(Seq::empty(), s1 + s2, op_tok);
    lemma_run_concat(Seq::empty(), s1, s2);
    lemma_run_with_base(seq![e1], Seq::empty(), s2);
    assert(seq![e1] + Seq::<SpecExpression>::empty() =~= seq![e1]);
    assert(seq![e1] + seq![e2] =~= seq![e1, e2]);
    lemma_run_single(seq![e1, e2], SpecToken::Operator(op));
    assert(seq![e1, e2].take(0) =~= Seq::<SpecExpression>::empty());
}

/// Likewise for a unary operator (a prefix or postfix one, a call, or a group):
/// when `s1` denotes `e1`, then `s1 op` denotes `op` applied to `e1`.
pub proof fn lemma_construct_unary(s1: Seq<SpecToken>, op: SpecOperator, e1: SpecExpression)
    requires
        !is_binary(op),
        !(op is GroupEnd),
        construct_run(Seq::empty(), s1) == Ok::<_, crate::ast::operator::OperationParserError>(seq![e1]),
    ensures
        spec_construct_expression(s1 + seq![SpecToken::Operator(op)])
            == Ok::<_, crate::ast::operator::OperationParserError>(operation_expr(unary_operation(op, e1))),
{
    lemma_run_concat(Seq::empty(), s1, seq![SpecToken::Operator(op)]);
    lemma_run_single(seq![e1], SpecToken::Operator(op));
    assert(seq![e1].drop_last() =~= Seq::<SpecExpression>::empty());
}

/// The binary operators written between two terms.
pub open spec fn is_infix(op: SpecOperator) -> bool {
    match op {
        SpecOperator::Substitute | SpecOperator::Add | SpecOperator::Subtract | SpecOperator::Multiply
        | SpecOperator::MemberAccess => true,
        _ => false,
    }
}

pub open spec fn infix_expr(op: SpecOperator, l: SpecExpression, r: SpecExpression) -> SpecExpression {
    operation_expr(binary_operation(op, l, r))
}

/// `a o1 b o2 c` with two infix operators groups as `(a o1 b) o2 c` when `o1`, once on
/// the stack, ranks above `o2` as input, and as `a o1 (b o2 c)` otherwise: `*` binds
/// tighter than `+` and `-`, which bind tighter than `=`; `+`, `-`, `*` and `.` group
/// to the left, `=` to the right.
pub proof fn lemma_two_infix_grouping(
    a: SpecExpression,
    b: SpecExpression,
    c: SpecExpression,
    o1: SpecOperator,
    o2: SpecOperator,
)
    requires
        is_infix(o1),
        is_infix(o2),
    ensures
        ({
            let input = seq![
                SpecToken::Term(a),
                SpecToken::Operator(o1),
                SpecToken::Term(b),
                SpecToken::Operator(o2),
                SpecToken::Term(c),
            ];
            &&& spec_into_postfix(input) == Some(
                if operator_precedence(o1, OperatorPrecedenceMode::StackPrecedence)
                    > operator_precedence(o2, OperatorPrecedenceMode::InputPrecedence) {
                    seq![SpecToken::Term(a), SpecToken::Term(b), SpecToken::Operator(o1), SpecToken::Term(c), SpecToken::Operator(o2)]
                } else {
                    seq![SpecToken::Term(a), SpecToken::Term(b), SpecToken::Term(c), SpecToken::Operator(o2), SpecToken::Operator(o1)]
                })
            &&& spec_construct_expression(spec_into_postfix(input)->0)
                == Ok::<_, crate::ast::operator::OperationParserError>(
                if operator_precedence(o1, OperatorPrecedenceMode::StackPrecedence)
                    > operator_precedence(o2, OperatorPrecedenceMode::InputPrecedence) {
                    infix_expr(o2, infix_expr(o1, a, b), c)
                } else {
                    infix_expr(o1, a, infix_expr(o2, b, c))
                })
        }),
{
    let ta = SpecToken::Term(a);
    let tb = SpecToken::Term(b);
    let tc = SpecToken::Term(c);
    let t1 = SpecToken::Operator(o1);
    let t2 = SpecToken::Operator(o2);
    let input = seq![ta, t1, tb, t2, tc];
    let e = Seq::<SpecToken>::empty();
    let left = operator_precedence(o1, OperatorPrecedenceMode::StackPrecedence)
        > operator_precedence(o2, OperatorPrecedenceMode::InputPrecedence);
    assert(input.drop_first() =~= seq![t1, tb, t2, tc]);
    assert(seq![t1, tb, t2, tc].drop_first() =~= seq![tb, t2, tc]);
    assert(seq![tb, t2, tc].drop_first() =~= seq![t2, tc]);
    assert(seq![t2, tc].drop_first() =~= seq![tc]);
    assert(seq![tc].drop_first() =~= e);
    assert(e.push(ta).drop_last() =~= e);
    assert(e.push(t1).push(tb).drop_last() =~= e.push(t1));
    assert(e.push(t1).drop_last() =~= e);
    assert(e.push(t2).push(tc).drop_last() =~= e.push(t2));
    assert(e.push(t2).drop_last() =~= e);
    assert(e.push(t1).push(t2).push(tc).drop_last() =~= e.push(t1).push(t2));
    assert(e.push(t1).push(t2).drop_last() =~= e.push(t1));
    // the conversion, step by step
    assert(postfix_run(input, e, e) == postfix_run(seq![t1, tb, t2, tc], e.push(ta), e));
    assert(postfix_run(seq![t1, tb, t2, tc], e.push(ta), e) == postfix_run(seq![t1, tb, t2, tc], e, e.push(ta)));
    assert(postfix_run(seq![t1, tb, t2, tc], e, e.push(ta)) == postfix_run(seq![tb, t2, tc], e.push(t1), e.push(ta)));
    assert(postfix_run(seq![tb, t2, tc], e.push(t1), e.push(ta)) == postfix_run(seq![t2, tc], e.push(t1).push(tb), e.push(ta)));
    assert(postfix_run(seq![t2, tc], e.push(t1).push(tb), e.push(ta)) == postfix_run(seq![t2, tc], e.push(t1), e.push(ta).push(tb)));
    let out: Seq<SpecToken> = if left {
        assert(postfix_run(seq![t2, tc], e.push(t1), e.push(ta).push(tb)) == postfix_run(seq![t2, tc], e, e.push(ta).push(tb).push(t1)));
        assert(postfix_run(seq![t2, tc], e, e.push(ta).push(tb).push(t1)) == postfix_run(seq![tc], e.push(t2), e.push(ta).push(tb).push(t1)));
        assert(postfix_run(seq![tc], e.push(t2), e.push(ta).push(tb).push(t1)) == postfix_run(e, e.push(t2).push(tc), e.push(ta).push(tb).push(t1)));
        assert(postfix_run(e, e.push(t2).push(tc), e.push(ta).push(tb).push(t1)) == postfix_run(e, e.push(t2), e.push(ta).push(tb).push(t1).push(tc)));
        assert(postfix_run(e, e.push(t2), e.push(ta).push(tb).push(t1).push(tc)) == postfix_run(e, e, e.push(ta).push(tb).push(t1).push(tc).push(t2)));
        e.push(ta).push(tb).push(t1).push(tc).push(t2)
    } else {
        assert(postfix_run(seq![t2, tc], e.push(t1), e.push(ta).push(tb)) == postfix_run(seq![tc], e.push(t1).push(t2), e.push(ta).push(tb)));
        assert(postfix_run(seq![tc], e.push(t1).push(t2), e.push(ta).push(tb)) == postfix_run(e, e.push(t1).push(t2).push(tc), e.push(ta).push(tb)));
        assert(postfix_run(e, e.push(t1).push(t2).push(tc), e.push(ta).push(tb)) == postfix_run(e, e.push(t1).push(t2), e.push(ta).push(tb).push(tc)));
        assert(postfix_run(e, e.push(t1).push(t2), e.push(ta).push(tb).push(tc)) == postfix_run(e, e.push(t1), e.push(ta).push(tb).push(tc).push(t2)));
        assert(postfix_run(e, e.push(t1), e.push(ta).push(tb).push(tc).push(t2)) == postfix_run(e, e, e.push(ta).push(tb).push(tc).push(t2).push(t1)));
        e.push(ta).push(tb).push(tc).push(t2).push(t1)
    };
    assert(spec_into_postfix(input) == Some(out));
    if left {
        assert(out =~= seq![ta, tb, t1, tc, t2]);
    } else {
        assert(out =~= seq![ta, tb, tc, t2, t1]);
    }
    // the construction
    let sa = ta;
    let sb = tb;
    let sc = tc;
    let s1 = t1;
    let s2 = t2;
    assert(seq![sa] =~= seq![sa] + Seq::<SpecToken>::empty());
    lemma_run_single(Seq::empty(), sa);
    lemma_run_single(Seq::empty(), sb);
    lemma_run_single(Seq::empty(), sc);
    assert(Seq::<SpecExpression>::empty().push(a) =~= seq![a]);
    assert(Seq::<SpecExpression>::empty().push(b) =~= seq![b]);
    assert(Seq::<SpecExpression>::empty().push(c) =~= seq![c]);
    if left {
        assert(out =~= seq![sa] + seq![sb] + seq![s1] + seq![sc] + seq![s2]);
        lemma_construct_binary(seq![sa], seq![sb], o1, a, b);
        let e1 = infix_expr(o1, a, b);
        let p1 = seq![sa] + seq![sb] + seq![s1];
        lemma_run_concat(Seq::empty(), seq![sa] + seq![sb], seq![s1]);
        lemma_run_concat(Seq::empty(), seq![sa], seq![sb]);
        lemma_run_with_base(seq![a], Seq::empty(), seq![sb]);
        assert(seq![a] + seq![b] =~= seq![a, b]);
        assert(seq![a] + Seq::<SpecExpression>::empty() =~= seq![a]);
        lemma_run_single(seq![a, b], s1);
        assert(seq![a, b].take(0) =~= Seq::<SpecExpression>::empty());
        assert(Seq::<SpecExpression>::empty().push(e1) =~= seq![e1]);
        assert(construct_run(Seq::empty(), p1) == Ok::<_, crate::ast::operator::OperationParserError>(seq![e1]));
        lemma_construct_binary(p1, seq![sc], o2, e1, c);
    } else {
        assert(out =~= seq![sa] + (seq![sb] + seq![sc] + seq![s2]) + seq![s1]);
        let e2 = infix_expr(o2, b, c);
        let p2 = seq![sb] + seq![sc] + seq![s2];
        lemma_run_concat(Seq::empty(), seq![sb] + seq![sc], seq![s2]);
        lemma_run_concat(Seq::empty(), seq![sb], seq![sc]);
        lemma_run_with_base(seq![b], Seq::empty(), seq![sc]);
        assert(seq![b] + seq![c] =~= seq![b, c]);
        assert(seq![b] + Seq::<SpecExpression>::empty() =~= seq![b]);
        lemma_run_single(seq![b, c], s2);
        assert(seq![b, c].take(0) =~= Seq::<SpecExpression>::empty());
        assert(Seq::<SpecExpression>::empty().push(e2) =~= seq![e2]);
        assert(construct_run(Seq::empty(), p2) == Ok::<_, crate::ast::operator::OperationParserError>(seq![e2]));
        lemma_construct_binary(seq![sa], p2, o1, a, e2);
    }
}


/// `a o b` with one infix operator is `o` applied to `a` and `b`, in that order, with
/// the postfix order `a b o`.
pub proof fn lemma_one_infix(a: SpecExpression, o: SpecOperator, b: SpecExpression)
    requires
        is_infix(o),
    ensures
        spec_into_postfix(seq![SpecToken::Term(a), SpecToken::Operator(o), SpecToken::Term(b)])
            == Some(seq![SpecToken::Term(a), SpecToken::Term(b), SpecToken::Operator(o)]),
        spec_construct_expression(seq![SpecToken::Term(a), SpecToken::Term(b), SpecToken::Operator(o)])
            == Ok::<_, crate::ast::operator::OperationParserError>(infix_expr(o, a, b)),
{
    let ta = SpecToken::Term(a);
    let tb = SpecToken::Term(b);
    let t1 = SpecToken::Operator(o);
    let input = seq![ta, t1, tb];
    let e = Seq::<SpecToken>::empty();
    assert(input.drop_first() =~= seq![t1, tb]);
    assert(seq![t1, tb].drop_first() =~= seq![tb]);
    assert(seq![tb].drop_first() =~= e);
    assert(e.push(ta).drop_last() =~= e);
    assert(e.push(t1).push(tb).drop_last() =~= e.push(t1));
    assert(e.push(t1).drop_last() =~= e);
    assert(postfix_run(input, e, e) == postfix_run(seq![t1, tb], e.push(ta), e));
    assert(postfix_run(seq![t1, tb], e.push(ta), e) == postfix_run(seq![t1, tb], e, e.push(ta)));
    assert(postfix_run(seq![t1, tb], e, e.push(ta)) == postfix_run(seq![tb], e.push(t1), e.push(ta)));
    assert(postfix_run(seq![tb], e.push(t1), e.push(ta)) == postfix_run(e, e.push(t1).push(tb), e.push(ta)));
    assert(postfix_run(e, e.push(t1).push(tb), e.push(ta)) == postfix_run(e, e.push(t1), e.push(ta).push(tb)));
    assert(postfix_run(e, e.push(t1), e.push(ta).push(tb)) == postfix_run(e, e, e.push(ta).push(tb).push(t1)));
    assert(e.push(ta).push(tb).push(t1) =~= seq![ta, tb, t1]);
    lemma_run_single(Seq::empty(), ta);
    lemma_run_single(Seq::empty(), tb);
    assert(Seq::<SpecExpression>::empty().push(a) =~= seq![a]);
    assert(Seq::<SpecExpression>::empty().push(b) =~= seq![b]);
    assert(seq![ta, tb, t1] =~= seq![ta] + seq![tb] + seq![t1]);
    lemma_construct_binary(seq![ta], seq![tb], o, a, b);
}

/// The tokens `a o1 b o2 c`.
pub open spec fn three_terms(
    a: SpecExpression,
    o1: SpecOperator,
    b: SpecExpression,
    o2: SpecOperator,
    c: SpecExpression,
) -> Seq<SpecToken> {
    seq![SpecToken::Term(a), SpecToken::Operator(o1), SpecToken::Term(b), SpecToken::Operator(o2), SpecToken::Term(c)]
}

/// What parsing tokens gives: their postfix order, evaluated.
pub open spec fn parsed(tokens: Seq<SpecToken>) -> Result<SpecExpression, crate::ast::operator::OperationParserError> {
    spec_construct_expression(spec_into_postfix(tokens)->0)
}

pub open spec fn assign_of(l: SpecExpression, r: SpecExpression) -> SpecExpression {
    SpecExpression::Operation(Box::new(SpecOperation::Substitute(l, r)))
}

pub open spec fn sum_of(l: SpecExpression, r: SpecExpression) -> SpecExpression {
    SpecExpression::Operation(Box::new(SpecOperation::Add(l, r)))
}

pub open spec fn difference_of(l: SpecExpression, r: SpecExpression) -> SpecExpression {
    SpecExpression::Operation(Box::new(SpecOperation::Subtract(l, r)))
}

pub open spec fn product_of(l: SpecExpression, r: SpecExpression) -> SpecExpression {
    SpecExpression::Operation(Box::new(SpecOperation::Multiply(l, r)))
}

pub open spec fn member_of(l: SpecExpression, r: SpecExpression) -> SpecExpression {
    SpecExpression::Operation(Box::new(SpecOperation::MemberAccess(l, r)))
}

/// The grouping of arithmetic, for all terms `a`, `b`, `c`: `+` and `-` group to the
/// left among themselves (`a - b - c` is `(a - b) - c`, with the postfix order
/// `a b - c -`), `*` binds tighter than `+` and `-` on either side and groups to the
/// left, `.` binds tighter than all of them and groups to the left, and `=` binds
/// loosest and groups to the right.
pub proof fn lemma_arithmetic_grouping(a: SpecExpression, b: SpecExpression, c: SpecExpression)
    ensures
        spec_into_postfix(three_terms(a, SpecOperator::Subtract, b, SpecOperator::Subtract, c)) == Some(seq![
            SpecToken::Term(a), SpecToken::Term(b), SpecToken::Operator(SpecOperator::Subtract),
            SpecToken::Term(c), SpecToken::Operator(SpecOperator::Subtract),
        ]),
        parsed(three_terms(a, SpecOperator::Subtract, b, SpecOperator::Subtract, c))
            == Ok::<_, crate::ast::operator::OperationParserError>(difference_of(difference_of(a, b), c)),
        parsed(three_terms(a, SpecOperator::Add, b, SpecOperator::Subtract, c))
            == Ok::<_, crate::ast::operator::OperationParserError>(difference_of(sum_of(a, b), c)),
        parsed(three_terms(a, SpecOperator::Subtract, b, SpecOperator::Add, c))
            == Ok::<_, crate::ast::operator::OperationParserError>(sum_of(difference_of(a, b), c)),
        parsed(three_terms(a, SpecOperator::Add, b, SpecOperator::Add, c))
            == Ok::<_, crate::ast::operator::OperationParserError>(sum_of(sum_of(a, b), c)),
        parsed(three_terms(a, SpecOperator::Multiply, b, SpecOperator::Multiply, c))
            == Ok::<_, crate::ast::operator::OperationParserError>(product_of(product_of(a, b), c)),
        parsed(three_terms(a, SpecOperator::Multiply, b, SpecOperator::Subtract, c))
            == Ok::<_, crate::ast::operator::OperationParserError>(difference_of(product_of(a, b), c)),
        parsed(three_terms(a, SpecOperator::Subtract, b, SpecOperator::Multiply, c))
            == Ok::<_, crate::ast::operator::OperationParserError>(difference_of(a, product_of(b, c))),
        parsed(three_terms(a, SpecOperator::Multiply, b, SpecOperator::Add, c))
            == Ok::<_, crate::ast::operator::OperationParserError>(sum_of(product_of(a, b), c)),
        parsed(three_terms(a, SpecOperator::Add, b, SpecOperator::Multiply, c))
            == Ok::<_, crate::ast::operator::OperationParserError>(sum_of(a, product_of(b, c))),
        parsed(three_terms(a, SpecOperator::Substitute, b, SpecOperator::Subtract, c))
            == Ok::<_, crate::ast::operator::OperationParserError>(assign_of(a, difference_of(b, c))),
        parsed(three_terms(a, SpecOperator::Add, b, SpecOperator::Substitute, c))
            == Ok::<_, crate::ast::operator::OperationParserError>(assign_of(sum_of(a, b), c)),
        parsed(three_terms(a, SpecOperator::Substitute, b, SpecOperator::Substitute, c))
            == Ok::<_, crate::ast::operator::OperationParserError>(assign_of(a, assign_of(b, c))),
        parsed(three_terms(a, SpecOperator::Multiply, b, SpecOperator::MemberAccess, c))
            == Ok::<_, crate::ast::operator::OperationParserError>(product_of(a, member_of(b, c))),
        parsed(three_terms(a, SpecOperator::MemberAccess, b, SpecOperator::Subtract, c))
            == Ok::<_, crate::ast::operator::OperationParserError>(difference_of(member_of(a, b), c)),
        parsed(three_terms(a, SpecOperator::MemberAccess, b, SpecOperator::MemberAccess, c))
            == Ok::<_, crate::ast::operator::OperationParserError>(member_of(member_of(a, b), c)),
{
    lemma_two_infix_grouping(a, b, c, SpecOperator::Multiply, SpecOperator::MemberAccess);
    lemma_two_infix_grouping(a, b, c, SpecOperator::MemberAccess, SpecOperator::Subtract);
    lemma_two_infix_grouping(a, b, c, SpecOperator::MemberAccess, SpecOperator::MemberAccess);
    lemma_two_infix_grouping(a, b, c, SpecOperator::Subtract, SpecOperator::Subtract);
    lemma_two_infix_grouping(a, b, c, SpecOperator::Add, SpecOperator::Subtract);
    lemma_two_infix_grouping(a, b, c, SpecOperator::Subtract, SpecOperator::Add);
    lemma_two_infix_grouping(a, b, c, SpecOperator::Add, SpecOperator::Add);
    lemma_two_infix_grouping(a, b, c, SpecOperator::Multiply, SpecOperator::Multiply);
    lemma_two_infix_grouping(a, b, c, SpecOperator::Multiply, SpecOperator::Subtract);
    lemma_two_infix_grouping(a, b, c, SpecOperator::Subtract, SpecOperator::Multiply);
    lemma_two_infix_grouping(a, b, c, SpecOperator::Multiply, SpecOperator::Add);
    lemma_two_infix_grouping(a, b, c, SpecOperator::Add, SpecOperator::Multiply);
    lemma_two_infix_grouping(a, b, c, SpecOperator::Substitute, SpecOperator::Subtract);
    lemma_two_infix_grouping(a, b, c, SpecOperator::Add, SpecOperator::Substitute);
    lemma_two_infix_grouping(a, b, c, SpecOperator::Substitute, SpecOperator::Substitute);
}

// ----- where the conversion into postfix notation is defined -----

/// Whether the tokens hold no `~`.
pub open spec fn no_bit_not(s: Seq<SpecToken>) -> bool {
    forall|i: int| 0 <= i < s.len() ==> #[trigger] s[i] != SpecToken::Operator(SpecOperator::BitNot)
}

/// Whether each `)` of the tokens closes a `(` that is open: one of the `open` ones
/// before them, or one that comes before it among them.
pub open spec fn groups_closed(s: Seq<SpecToken>, open: nat) -> bool
    decreases s.len(),
{
    if s.len() == 0 {
        true
    } else if s[0] == SpecToken::Operator(SpecOperator::GroupEnd) {
        open > 0 && groups_closed(s.drop_first(), (open - 1) as nat)
    } else if s[0] == SpecToken::Operator(SpecOperator::GroupBegin) {
        groups_closed(s.drop_first(), open + 1)
    } else {
        groups_closed(s.drop_first(), open)
    }
}

/// How many `(` a stack of the conversion holds.
spec fn stack_opens(stack: Seq<SpecToken>) -> nat
    decreases stack.len(),
{
    if stack.len() == 0 {
        0
    } else {
        stack_opens(stack.drop_last()) + if stack.last() == SpecToken::Operator(SpecOperator::GroupBegin) { 1nat } else { 0nat }
    }
}

/// A stack of the conversion holds no `~` and no `)`.
spec fn stack_ok(stack: Seq<SpecToken>) -> bool {
    forall|i: int| 0 <= i < stack.len() ==> #[trigger] stack[i] != SpecToken::Operator(SpecOperator::BitNot)
        && stack[i] != SpecToken::Operator(SpecOperator::GroupEnd)
}

proof fn lemma_postfix_run_defined(input: Seq<SpecToken>, stack: Seq<SpecToken>, output: Seq<SpecToken>)
    requires
        no_bit_not(input),
        stack_ok(stack),
        groups_closed(input, stack_opens(stack)),
    ensures
        postfix_run(input, stack, output) is Some,
    decreases 2 * input.len() + stack.len(),
{
    if input.len() == 0 && stack.len() == 0 {
        return;
    }
    let ip = if input.len() > 0 {
        token_precedence(input[0], OperatorPrecedenceMode::InputPrecedence)
    } else {
        Some(0int)
    };
    let sp = if stack.len() > 0 {
        token_precedence(stack.last(), OperatorPrecedenceMode::StackPrecedence)
    } else {
        Some(0int)
    };
    if input.len() > 0 {
        assert(input[0] != SpecToken::Operator(SpecOperator::BitNot));
        assert(ip is Some && ip->0 >= 2);
        assert(input[0] == SpecToken::Operator(SpecOperator::GroupEnd) <==> ip->0 == 2);
    }
    if stack.len() > 0 {
        assert(stack[stack.len() - 1] == stack.last());
        assert(stack.last() != SpecToken::Operator(SpecOperator::BitNot));
        assert(stack.last() != SpecToken::Operator(SpecOperator::GroupEnd));
        assert(sp is Some && sp->0 >= 2);
        assert(stack.last() == SpecToken::Operator(SpecOperator::GroupBegin) <==> sp->0 == 2);
    }
    let ghost open = stack_opens(stack);
    if ip->0 < sp->0 {
        let rest = stack.drop_last();
        assert(stack_ok(rest)) by {
            assert forall|i: int| 0 <= i < rest.len() implies #[trigger] rest[i] != SpecToken::Operator(SpecOperator::BitNot)
                && rest[i] != SpecToken::Operator(SpecOperator::GroupEnd) by {
                assert(rest[i] == stack[i]);
            }
        }
        lemma_postfix_run_defined(input, rest, output.push(stack.last()));
    } else if sp->0 < ip->0 {
        let t = input[0];
        let pushed = stack.push(t);
        assert(t != SpecToken::Operator(SpecOperator::GroupEnd)) by {
            if t == SpecToken::Operator(SpecOperator::GroupEnd) {
                assert(stack.len() == 0);
            }
        }
        assert(pushed.drop_last() =~= stack);
        assert(stack_ok(pushed)) by {
            assert forall|i: int| 0 <= i < pushed.len() implies #[trigger] pushed[i] != SpecToken::Operator(SpecOperator::BitNot)
                && pushed[i] != SpecToken::Operator(SpecOperator::GroupEnd) by {
                if i < stack.len() {
                    assert(pushed[i] == stack[i]);
                }
            }
        }
        assert(no_bit_not(input.drop_first())) by {
            assert forall|i: int| 0 <= i < input.drop_first().len() implies #[trigger] input.drop_first()[i] != SpecToken::Operator(SpecOperator::BitNot) by {
                assert(input.drop_first()[i] == input[i + 1]);
            }
        }
        lemma_postfix_run_defined(input.drop_first(), pushed, output);
    } else {
        let rest = stack.drop_last();
        assert(stack_ok(rest)) by {
            assert forall|i: int| 0 <= i < rest.len() implies #[trigger] rest[i] != SpecToken::Operator(SpecOperator::BitNot)
                && rest[i] != SpecToken::Operator(SpecOperator::GroupEnd) by {
                assert(rest[i] == stack[i]);
            }
        }
        assert(no_bit_not(input.drop_first())) by {
            assert forall|i: int| 0 <= i < input.drop_first().len() implies #[trigger] input.drop_first()[i] != SpecToken::Operator(SpecOperator::BitNot) by {
                assert(input.drop_first()[i] == input[i + 1]);
            }
        }
        lemma_postfix_run_defined(input.drop_first(), rest, output.push(stack.last()).push(input[0]));
    }
}

/// Raising the number of open groups keeps each `)` closing an open `(`.
proof fn lemma_groups_closed_more(s: Seq<SpecToken>, a: nat, b: nat)
    requires
        groups_closed(s, a),
        a <= b,
    ensures
        groups_closed(s, b),
    decreases s.len(),
{
    if s.len() > 0 {
        if s[0] == SpecToken::Operator(SpecOperator::GroupEnd) {
            lemma_groups_closed_more(s.drop_first(), (a - 1) as nat, (b - 1) as nat);
        } else if s[0] == SpecToken::Operator(SpecOperator::GroupBegin) {
            lemma_groups_closed_more(s.drop_first(), a + 1, b + 1);
        } else {
            lemma_groups_closed_more(s.drop_first(), a, b);
        }
    }
}

proof fn lemma_postfix_run_defined_only(input: Seq<SpecToken>, stack: Seq<SpecToken>, output: Seq<SpecToken>)
    requires
        stack_ok(stack),
        postfix_run(input, stack, output) is Some,
    ensures
        no_bit_not(input),
        groups_closed(input, stack_opens(stack)),
    decreases 2 * input.len() + stack.len(),
{
    if input.len() == 0 && stack.len() == 0 {
        return;
    }
    let ip = if input.len() > 0 {
        token_precedence(input[0], OperatorPrecedenceMode::InputPrecedence)
    } else {
        Some(0int)
    };
    let sp = if stack.len() > 0 {
        token_precedence(stack.last(), OperatorPrecedenceMode::StackPrecedence)
    } else {
        Some(0int)
    };
    assert(ip is Some && sp is Some);
    if input.len() > 0 {
        assert(input[0] != SpecToken::Operator(SpecOperator::BitNot));
        assert(ip->0 >= 2);
        assert(input[0] == SpecToken::Operator(SpecOperator::GroupEnd) <==> ip->0 == 2);
    }
    if stack.len() > 0 {
        assert(stack[stack.len() - 1] == stack.last());
        assert(stack.last() != SpecToken::Operator(SpecOperator::BitNot));
        assert(stack.last() != SpecToken::Operator(SpecOperator::GroupEnd));
        assert(sp->0 >= 2);
        assert(stack.last() == SpecToken::Operator(SpecOperator::GroupBegin) <==> sp->0 == 2);
    }
    if ip->0 < sp->0 {
        let rest = stack.drop_last();
        assert(stack_ok(rest)) by {
            assert forall|i: int| 0 <= i < rest.len() implies #[trigger] rest[i] != SpecToken::Operator(SpecOperator::BitNot)
                && rest[i] != SpecToken::Operator(SpecOperator::GroupEnd) by {
                assert(rest[i] == stack[i]);
            }
        }
        lemma_postfix_run_defined_only(input, rest, output.push(stack.last()));
        lemma_groups_closed_more(input, stack_opens(rest), stack_opens(stack));
    } else {
        let first = input[0];
        let tail = input.drop_first();
        if sp->0 < ip->0 {
            let pushed = stack.push(first);
            assert(pushed.drop_last() =~= stack);
            assert(first != SpecToken::Operator(SpecOperator::GroupEnd)) by {
                if first == SpecToken::Operator(SpecOperator::GroupEnd) {
                    assert(stack.len() == 0);
                    assert(pushed.len() == 1 && pushed.last() == first);
                    assert(postfix_run(tail, pushed, output) is None);
                }
            }
            assert(stack_ok(pushed)) by {
                assert forall|i: int| 0 <= i < pushed.len() implies #[trigger] pushed[i] != SpecToken::Operator(SpecOperator::BitNot)
                    && pushed[i] != SpecToken::Operator(SpecOperator::GroupEnd) by {
                    if i < stack.len() {
                        assert(pushed[i] == stack[i]);
                    }
                }
            }
            lemma_postfix_run_defined_only(tail, pushed, output);
            assert(groups_closed(input, stack_opens(stack)));
        } else {
            let rest = stack.drop_last();
            assert(stack_ok(rest)) by {
                assert forall|i: int| 0 <= i < rest.len() implies #[trigger] rest[i] != SpecToken::Operator(SpecOperator::BitNot)
                    && rest[i] != SpecToken::Operator(SpecOperator::GroupEnd) by {
                    assert(rest[i] == stack[i]);
                }
            }
            lemma_postfix_run_defined_only(tail, rest, output.push(stack.last()).push(first));
            if first == SpecToken::Operator(SpecOperator::GroupBegin) {
                lemma_groups_closed_more(tail, stack_opens(rest), stack_opens(stack) + 1);
            } else if first != SpecToken::Operator(SpecOperator::GroupEnd) {
                lemma_groups_closed_more(tail, stack_opens(rest), stack_opens(stack));
            }
            assert(groups_closed(input, stack_opens(stack)));
        }
        assert(no_bit_not(input)) by {
            assert forall|i: int| 0 <= i < input.len() implies #[trigger] input[i] != SpecToken::Operator(SpecOperator::BitNot) by {
                if i > 0 {
                    assert(input[i] == tail[i - 1]);
                }
            }
        }
    }
}

/// The conversion into postfix notation is defined exactly on the token sequences
/// without `~` in which each `)` closes a `(` that comes before it; so are `parse` and
/// `into_postfix_notation` of `OperationParser`.
pub proof fn lemma_postfix_defined(input: Seq<SpecToken>)
    ensures
        spec_into_postfix(input) is Some <==> (no_bit_not(input) && groups_closed(input, 0)),
{
    assert(stack_ok(Seq::empty()));
    assert(stack_opens(Seq::empty()) == 0);
    if no_bit_not(input) && groups_closed(input, 0) {
        lemma_postfix_run_defined(input, Seq::empty(), Seq::empty());
    }
    if spec_into_postfix(input) is Some {
        lemma_postfix_run_defined_only(input, Seq::empty(), Seq::empty());
    }
}

} // verus!
