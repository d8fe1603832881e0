use lib::ast::operator::{OperationParser, OperationParserError, OperatorPrecedenceMode};
use lib::hir::ir::expr::{HirExpression, HirLiteral, HirOperation, HirOperationToken, HirOperator};

fn op(operator: HirOperator) -> HirOperationToken {
    HirOperationToken::Operator(operator)
}

fn t(s: &str) -> HirOperationToken {
    HirOperationToken::Term(e(s))
}

fn e(s: &str) -> HirExpression {
    HirExpression::Literal(HirLiteral::String(s.to_string()))
}

fn operation(o: HirOperation) -> HirExpression {
    HirExpression::Operation(Box::new(o))
}

#[test]
fn parses_into_operation_expression() {
    assert_eq!(
        OperationParser::parse(vec![t("a"), op(HirOperator::Add), t("b")]),
        Ok(operation(HirOperation::Add(e("a"), e("b")))),
    );
}

#[test]
fn parses_with_precedence_and_groups() {
    // a * (b + c)
    assert_eq!(
        OperationParser::parse(vec![
            t("a"), op(HirOperator::Multiply), op(HirOperator::GroupBegin), t("b"), op(HirOperator::Add), t("c"),
            op(HirOperator::GroupEnd),
        ]),
        Ok(operation(HirOperation::Multiply(
            e("a"),
            operation(HirOperation::Group(operation(HirOperation::Add(e("b"), e("c"))))),
        ))),
    );
}

#[test]
fn postfix_arranges_the_order_of_terms() {
    assert_eq!(
        OperationParser::into_postfix_notation(vec![t("a"), op(HirOperator::Add), t("b")]),
        Ok(vec![t("a"), t("b"), op(HirOperator::Add)]),
    );
}

#[test]
fn postfix_same_precedence_operators() {
    // a + b - c  =>  a b + c -
    assert_eq!(
        OperationParser::into_postfix_notation(vec![t("a"), op(HirOperator::Add), t("b"), op(HirOperator::Subtract), t("c")]),
        Ok(vec![t("a"), t("b"), op(HirOperator::Add), t("c"), op(HirOperator::Subtract)]),
    );
}

#[test]
fn postfix_precedes_higher_precedence_operator() {
    // a * b + c  =>  a b * c +
    assert_eq!(
        OperationParser::into_postfix_notation(vec![t("a"), op(HirOperator::Multiply), t("b"), op(HirOperator::Add), t("c")]),
        Ok(vec![t("a"), t("b"), op(HirOperator::Multiply), t("c"), op(HirOperator::Add)]),
    );
    // a + b * c  =>  a b c * +
    assert_eq!(
        OperationParser::into_postfix_notation(vec![t("a"), op(HirOperator::Add), t("b"), op(HirOperator::Multiply), t("c")]),
        Ok(vec![t("a"), t("b"), t("c"), op(HirOperator::Multiply), op(HirOperator::Add)]),
    );
}

#[test]
fn postfix_reflects_right_associativity() {
    // a = b + c  =>  a b c + =
    assert_eq!(
        OperationParser::into_postfix_notation(vec![t("a"), op(HirOperator::Substitute), t("b"), op(HirOperator::Add), t("c")]),
        Ok(vec![t("a"), t("b"), t("c"), op(HirOperator::Add), op(HirOperator::Substitute)]),
    );
}

#[test]
fn postfix_groups() {
    // a * (b + c)  =>  a b c + () *
    assert_eq!(
        OperationParser::into_postfix_notation(vec![
            t("a"), op(HirOperator::Multiply), op(HirOperator::GroupBegin), t("b"), op(HirOperator::Add), t("c"),
            op(HirOperator::GroupEnd),
        ]),
        Ok(vec![
            t("a"), t("b"), t("c"), op(HirOperator::Add), op(HirOperator::GroupBegin), op(HirOperator::GroupEnd),
            op(HirOperator::Multiply),
        ]),
    );
    // a * (b + c) * d  =>  a b c + () * d *
    assert_eq!(
        OperationParser::into_postfix_notation(vec![
            t("a"), op(HirOperator::Multiply), op(HirOperator::GroupBegin), t("b"), op(HirOperator::Add), t("c"),
            op(HirOperator::GroupEnd), op(HirOperator::Multiply), t("d"),
        ]),
        Ok(vec![
            t("a"), t("b"), t("c"), op(HirOperator::Add), op(HirOperator::GroupBegin), op(HirOperator::GroupEnd),
            op(HirOperator::Multiply), t("d"), op(HirOperator::Multiply),
        ]),
    );
}

#[test]
fn postfix_prefix_operators() {
    // !a  =>  a !
    assert_eq!(
        OperationParser::into_postfix_notation(vec![op(HirOperator::Not), t("a")]),
        Ok(vec![t("a"), op(HirOperator::Not)]),
    );
    // -!a  =>  a ! -
    assert_eq!(
        OperationParser::into_postfix_notation(vec![op(HirOperator::Negative), op(HirOperator::Not), t("a")]),
        Ok(vec![t("a"), op(HirOperator::Not), op(HirOperator::Negative)]),
    );
    // !a + !b  =>  a ! b ! +
    assert_eq!(
        OperationParser::into_postfix_notation(vec![
            op(HirOperator::Not), t("a"), op(HirOperator::Add), op(HirOperator::Not), t("b"),
        ]),
        Ok(vec![t("a"), op(HirOperator::Not), t("b"), op(HirOperator::Not), op(HirOperator::Add)]),
    );
    // !(a + b)  =>  a b + () !
    assert_eq!(
        OperationParser::into_postfix_notation(vec![
            op(HirOperator::Not), op(HirOperator::GroupBegin), t("a"), op(HirOperator::Add), t("b"), op(HirOperator::GroupEnd),
        ]),
        Ok(vec![
            t("a"), t("b"), op(HirOperator::Add), op(HirOperator::GroupBegin), op(HirOperator::GroupEnd), op(HirOperator::Not),
        ]),
    );
}

#[test]
fn postfix_postfix_operators() {
    // a!  =>  a !
    assert_eq!(
        OperationParser::into_postfix_notation(vec![t("a"), op(HirOperator::Nonnize)]),
        Ok(vec![t("a"), op(HirOperator::Nonnize)]),
    );
    // a!?  =>  a ! ?
    assert_eq!(
        OperationParser::into_postfix_notation(vec![t("a"), op(HirOperator::Nonnize), op(HirOperator::Propagate)]),
        Ok(vec![t("a"), op(HirOperator::Nonnize), op(HirOperator::Propagate)]),
    );
    // a! + b  =>  a ! b +
    assert_eq!(
        OperationParser::into_postfix_notation(vec![t("a"), op(HirOperator::Nonnize), op(HirOperator::Add), t("b")]),
        Ok(vec![t("a"), op(HirOperator::Nonnize), t("b"), op(HirOperator::Add)]),
    );
    // (a + b)!  =>  a b + () !
    assert_eq!(
        OperationParser::into_postfix_notation(vec![
            op(HirOperator::GroupBegin), t("a"), op(HirOperator::Add), t("b"), op(HirOperator::GroupEnd), op(HirOperator::Nonnize),
        ]),
        Ok(vec![
            t("a"), t("b"), op(HirOperator::Add), op(HirOperator::GroupBegin), op(HirOperator::GroupEnd), op(HirOperator::Nonnize),
        ]),
    );
}

#[test]
fn postfix_mixed_operators() {
    // -a! + b * c  =>  a ! - b c * +
    assert_eq!(
        OperationParser::into_postfix_notation(vec![
            op(HirOperator::Negative), t("a"), op(HirOperator::Nonnize), op(HirOperator::Add), t("b"),
            op(HirOperator::Multiply), t("c"),
        ]),
        Ok(vec![
            t("a"), op(HirOperator::Nonnize), op(HirOperator::Negative), t("b"), t("c"), op(HirOperator::Multiply),
            op(HirOperator::Add),
        ]),
    );
}

#[test]
fn constructor_maintains_the_order_of_terms() {
    assert_eq!(
        OperationParser::construct_expression(vec![t("a"), t("b"), op(HirOperator::Add)]),
        Ok(operation(HirOperation::Add(e("a"), e("b")))),
    );
}

#[test]
fn constructor_maintains_order_and_associativity() {
    assert_eq!(
        OperationParser::construct_expression(vec![t("a"), t("b"), op(HirOperator::Add), t("c"), op(HirOperator::Add)]),
        Ok(operation(HirOperation::Add(operation(HirOperation::Add(e("a"), e("b"))), e("c")))),
    );
    assert_eq!(
        OperationParser::construct_expression(vec![t("a"), t("b"), t("c"), op(HirOperator::Multiply), op(HirOperator::Add)]),
        Ok(operation(HirOperation::Add(e("a"), operation(HirOperation::Multiply(e("b"), e("c")))))),
    );
}

#[test]
fn constructor_refuses_operator_without_enough_terms() {
    assert_eq!(
        OperationParser::construct_expression(vec![t("a"), op(HirOperator::Add)]),
        Err(OperationParserError::InvalidLengthOfTerm),
    );
    assert_eq!(
        OperationParser::construct_expression(vec![op(HirOperator::Not)]),
        Err(OperationParserError::InvalidLengthOfTerm),
    );
}

#[test]
fn constructor_takes_the_topmost_expression() {
    assert_eq!(OperationParser::construct_expression(vec![t("a"), t("b")]), Ok(e("b")));
    assert_eq!(
        OperationParser::construct_expression(Vec::new()),
        Err(OperationParserError::InvalidLengthOfTerm),
    );
}

#[test]
fn constructor_refuses_path_of_literals() {
    assert_eq!(
        OperationParser::construct_expression(vec![t("a"), t("b"), op(HirOperator::Path)]),
        Err(OperationParserError::InvalidKindOfTerm),
    );
}

#[test]
fn precedence_orders_multiplication_before_addition() {
    let add = OperationParser::get_operator_precedence(&HirOperator::Add, OperatorPrecedenceMode::InputPrecedence);
    let multiply = OperationParser::get_operator_precedence(&HirOperator::Multiply, OperatorPrecedenceMode::InputPrecedence);
    let substitute = OperationParser::get_operator_precedence(&HirOperator::Substitute, OperatorPrecedenceMode::InputPrecedence);
    assert!(multiply > add);
    assert!(add > substitute);
    assert_eq!(OperationParser::get_operator_precedence(&HirOperator::Add, OperatorPrecedenceMode::StackPrecedence), add + 1);
    assert_eq!(
        OperationParser::get_operator_precedence(&HirOperator::Substitute, OperatorPrecedenceMode::StackPrecedence) + 1,
        substitute,
    );
}

#[test]
fn parse_is_postfix_conversion_then_construction() {
    // (a - b) * c = d
    let input = vec![
        op(HirOperator::GroupBegin), t("a"), op(HirOperator::Subtract), t("b"), op(HirOperator::GroupEnd),
        op(HirOperator::Multiply), t("c"), op(HirOperator::Substitute), t("d"),
    ];
    let composed = OperationParser::into_postfix_notation(input.clone())
        .and_then(OperationParser::construct_expression);
    assert_eq!(OperationParser::parse(input), composed);
    assert_eq!(
        composed,
        Ok(operation(HirOperation::Substitute(
            operation(HirOperation::Multiply(
                operation(HirOperation::Group(operation(HirOperation::Subtract(e("a"), e("b"))))),
                e("c"),
            )),
            e("d"),
        ))),
    );
}
