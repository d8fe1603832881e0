use lib::ast::syntax::{ParserError, ParserResult, RuleId, Syntax};
use lib::ast::syntax_tree::{SyntaxChild, SyntaxLeaf, SyntaxNode, SyntaxTree};

fn parse(input: &str, rule: &str) -> ParserResult {
    Syntax::generate_volt(1024).parse(input, &RuleId(rule.to_string()))
}

fn leaf(start: usize, value: &str) -> SyntaxChild {
    SyntaxChild::Leaf(SyntaxLeaf { start, value: value.to_string() })
}

fn node(name: &str, children: Vec<SyntaxChild>) -> SyntaxChild {
    SyntaxChild::Node(SyntaxNode { name: name.to_string(), children })
}

fn error(name: &str, children: Vec<SyntaxChild>) -> SyntaxChild {
    SyntaxChild::Error(SyntaxNode { name: name.to_string(), children })
}

fn tree(name: &str, children: Vec<SyntaxChild>) -> ParserResult {
    Ok(SyntaxTree { root: SyntaxNode { name: name.to_string(), children } })
}

fn decimal(start: usize, value: &str) -> SyntaxChild {
    node("Literal::literal", vec![node("Literal::number", vec![
        node("value", vec![node("Literal::decimal_number", vec![leaf(start, value)])]),
    ])])
}

fn pure_decimal(start: usize, value: &str) -> SyntaxChild {
    node("Expression::pure_expression", vec![decimal(start, value)])
}

fn operator(start: usize, value: &str) -> SyntaxChild {
    node("operator", vec![leaf(start, value)])
}

#[test]
fn main_accepts_items_separated_by_whitespace() {
    assert!(parse("\n", "Main::main").is_ok());
    assert!(parse("fn f() {}\nfn f() {}", "Main::main").is_ok());
    assert!(parse("\nfn f() {}\nfn f() {}\n", "Main::main").is_ok());
    assert_eq!(parse("", "Main::main"), tree("Main::main", Vec::new()));
}

#[test]
fn main_rejects_semicolon_separator() {
    assert_eq!(parse(";", "Main::main"), Err(ParserError::NoMatchedRule));
}

#[test]
fn main_holds_one_item_per_function() {
    let result = parse("fn a() {}\n\nfn b() {}", "Main::main").unwrap();
    assert_eq!(result.root.children.len(), 2);
    match &result.root.children[1] {
        SyntaxChild::Node(item) => {
            assert_eq!(item.name, "Item::item".to_string());
            match &item.children[0] {
                SyntaxChild::Node(function) => assert_eq!(function.name, "Function::function".to_string()),
                _ => panic!("a node was expected"),
            }
        },
        _ => panic!("a node was expected"),
    }
}

#[test]
fn unknown_rule_is_refused() {
    assert_eq!(parse("fn f() {}", "Main::unknown"), Err(ParserError::UnknownRule));
}

#[test]
fn accessibility_private_public_and_public_in_hako() {
    assert_eq!(parse("", "Main::accessibility"), tree("Main::accessibility", Vec::new()));
    assert_eq!(parse("pub", "Main::accessibility"), tree("Main::accessibility", vec![leaf(0, "pub")]));
    assert_eq!(parse("pub@hako", "Main::accessibility"), tree("Main::accessibility", vec![leaf(0, "pub@hako")]));
}

#[test]
fn identifier_accepts_alphabetic_start_and_more_characters() {
    assert_eq!(parse("a", "Identifier::identifier"), tree("Identifier::identifier", vec![leaf(0, "a")]));
    assert_eq!(parse("a0_", "Identifier::identifier"), tree("Identifier::identifier", vec![leaf(0, "a0_")]));
}

#[test]
fn identifier_rejects_numeric_start_and_reserved_keywords() {
    assert_eq!(parse("0", "Identifier::identifier"), Err(ParserError::NoMatchedRule));
    assert_eq!(parse("fn", "Identifier::identifier"), Err(ParserError::NoMatchedRule));
    assert_eq!(parse("true", "Identifier::identifier"), Err(ParserError::NoMatchedRule));
    assert_eq!(parse("usize", "Identifier::identifier"), Err(ParserError::NoMatchedRule));
}

#[test]
fn identifier_accepts_characters_after_reserved_keyword() {
    assert_eq!(parse("fn_", "Identifier::identifier"), tree("Identifier::identifier", vec![leaf(0, "fn_")]));
    assert_eq!(parse("public", "Identifier::identifier"), tree("Identifier::identifier", vec![leaf(0, "public")]));
}

#[test]
fn function_accepts_zero_arguments_and_zero_expressions() {
    assert!(parse("pub fn f() {}", "Function::function").is_ok());
    assert_eq!(
        parse("fn f() {}", "Function::function"),
        tree("Function::function", vec![
            node("Main::accessibility", Vec::new()),
            node("Identifier::identifier", vec![leaf(3, "f")]),
            node("args", Vec::new()),
            node("exprs", Vec::new()),
        ]),
    );
}

#[test]
fn function_rejects_only_one_argument_separator() {
    assert_eq!(parse("fn f(,) {}", "Function::function"), Err(ParserError::NoMatchedRule));
}

#[test]
fn function_accepts_multiple_arguments_and_separator_at_the_end() {
    let argument = |name_at: usize, name: &str, type_at: usize| node("Function::formal_argument", vec![
        node("Identifier::identifier", vec![leaf(name_at, name)]),
        node("DataType::data_type", vec![node("DataType::primitive", vec![leaf(type_at, "usize")])]),
    ]);
    assert_eq!(
        parse("fn f(a usize, b usize, ) {}", "Function::function"),
        tree("Function::function", vec![
            node("Main::accessibility", Vec::new()),
            node("Identifier::identifier", vec![leaf(3, "f")]),
            node("args", vec![argument(5, "a", 7), argument(14, "b", 16)]),
            node("exprs", Vec::new()),
        ]),
    );
}

#[test]
fn function_with_accessibility_self_argument_and_return_type() {
    assert_eq!(
        parse("pub fn f(mut self) usize {}", "Function::function"),
        tree("Function::function", vec![
            node("Main::accessibility", vec![leaf(0, "pub")]),
            node("Identifier::identifier", vec![leaf(7, "f")]),
            node("args", vec![node("Function::formal_argument", vec![leaf(9, "mut"), leaf(13, "self")])]),
            node("DataType::data_type", vec![node("DataType::primitive", vec![leaf(19, "usize")])]),
            node("exprs", Vec::new()),
        ]),
    );
}

#[test]
fn function_contains_expressions_in_lines() {
    assert_eq!(
        parse("fn f() {0}", "Function::function"),
        tree("Function::function", vec![
            node("Main::accessibility", Vec::new()),
            node("Identifier::identifier", vec![leaf(3, "f")]),
            node("args", Vec::new()),
            node("exprs", vec![node("Expression::expression", vec![decimal(8, "0")])]),
        ]),
    );
    assert_eq!(
        parse("fn f() {0\n0}", "Function::function"),
        tree("Function::function", vec![
            node("Main::accessibility", Vec::new()),
            node("Identifier::identifier", vec![leaf(3, "f")]),
            node("args", Vec::new()),
            node("exprs", vec![
                node("Expression::expression", vec![decimal(8, "0")]),
                node("Expression::expression", vec![decimal(10, "0")]),
            ]),
        ]),
    );
    assert!(parse("fn f() { ;\n0 ;\n}", "Function::function").is_ok());
    assert!(parse("fn f() {\n0\n0\n}", "Function::function").is_ok());
}

#[test]
fn use_declaration_holds_its_segments() {
    assert_eq!(
        parse("use hako::a::self", "UseDeclaration::use_declaration"),
        tree("UseDeclaration::use_declaration", vec![leaf(4, "hako"), leaf(10, "a"), leaf(13, "self")]),
    );
    assert_eq!(parse("usea", "UseDeclaration::use_declaration"), Err(ParserError::NoMatchedRule));
}

#[test]
fn boolean_accepts_true_and_false() {
    assert_eq!(parse("true", "Literal::boolean"), tree("Literal::boolean", vec![leaf(0, "true")]));
    assert_eq!(parse("false", "Literal::boolean"), tree("Literal::boolean", vec![leaf(0, "false")]));
}

#[test]
fn number_accepts_data_type_suffix() {
    assert_eq!(
        parse("0usize", "Literal::number"),
        tree("Literal::number", vec![
            node("value", vec![node("Literal::decimal_number", vec![leaf(0, "0")])]),
            node("DataType::primitive_number", vec![leaf(1, "usize")]),
        ]),
    );
}

#[test]
fn binary_octal_hexadecimal_and_decimal_numbers() {
    let integer = |base: &str, at: usize, value: &str| tree("Literal::number", vec![
        node("value", vec![node(base, vec![leaf(at, value)])]),
    ]);
    assert_eq!(parse("0b10", "Literal::number"), integer("Literal::binary_number", 2, "10"));
    assert_eq!(parse("0b2", "Literal::number"), Err(ParserError::NoMatchedRule));
    assert_eq!(parse("0o107", "Literal::number"), integer("Literal::octal_number", 2, "107"));
    assert_eq!(parse("0x90af", "Literal::number"), integer("Literal::hexadecimal_number", 2, "90af"));
    assert_eq!(parse("109", "Literal::number"), integer("Literal::decimal_number", 0, "109"));
    assert_eq!(parse("1_2", "Literal::number"), integer("Literal::decimal_number", 0, "12"));
}

#[test]
fn integer_reducer_reports_mistakes() {
    let integer = |base: &str, children: Vec<SyntaxChild>| tree("Literal::number", vec![
        node("value", vec![node(base, children)]),
    ]);
    assert_eq!(
        parse("0b_1", "Literal::number"),
        integer("Literal::binary_number", vec![error("digit_separator_on_side", vec![leaf(2, "1")])]),
    );
    assert_eq!(
        parse("1_", "Literal::number"),
        integer("Literal::decimal_number", vec![error("digit_separator_on_side", vec![leaf(0, "1")])]),
    );
    assert_eq!(
        parse("01", "Literal::number"),
        integer("Literal::decimal_number", vec![error("starts_with_zero", vec![leaf(0, "01")])]),
    );
    assert_eq!(
        parse("0xAB", "Literal::number"),
        integer("Literal::hexadecimal_number", vec![error("has_capital_letter", vec![leaf(2, "AB")])]),
    );
    assert_eq!(
        parse("0x_00A", "Literal::number"),
        integer("Literal::hexadecimal_number", vec![
            error("digit_separator_on_side", vec![leaf(2, "00A")]),
            error("starts_with_zero", vec![leaf(2, "00A")]),
            error("has_capital_letter", vec![leaf(2, "00A")]),
        ]),
    );
}

#[test]
fn exponent_suffix() {
    assert_eq!(
        parse("0e1", "Literal::number"),
        tree("Literal::number", vec![
            node("value", vec![node("Literal::decimal_number", vec![leaf(0, "0")])]),
            node("Literal::number_exponent", vec![leaf(1, "+"), node("value", vec![leaf(2, "1")])]),
        ]),
    );
    assert_eq!(
        parse("0e-1", "Literal::number"),
        tree("Literal::number", vec![
            node("value", vec![node("Literal::decimal_number", vec![leaf(0, "0")])]),
            node("Literal::number_exponent", vec![leaf(1, "-"), node("value", vec![leaf(3, "1")])]),
        ]),
    );
    assert_eq!(
        parse("0e+1", "Literal::number"),
        tree("Literal::number", vec![
            node("value", vec![node("Literal::decimal_number", vec![leaf(0, "0")])]),
            node("Literal::number_exponent", vec![
                error("explicit_plus_symbol", vec![leaf(1, "e+")]),
                node("value", vec![leaf(3, "1")]),
            ]),
        ]),
    );
}

#[test]
fn float_numbers() {
    let float = |integer: Vec<SyntaxChild>, fraction: Vec<SyntaxChild>| tree("Literal::number", vec![
        node("Literal::float_number", vec![node("integer", integer), node("float", fraction)]),
    ]);
    assert_eq!(parse("0.0", "Literal::number"), float(vec![leaf(0, "0")], vec![leaf(2, "0")]));
    assert_eq!(parse("0.0_1", "Literal::number"), float(vec![leaf(0, "0")], vec![leaf(2, "01")]));
    assert_eq!(
        parse("_0.0", "Literal::number"),
        float(vec![error("digit_separator_on_side", vec![leaf(0, "0")])], vec![leaf(3, "0")]),
    );
    assert_eq!(
        parse("0.10", "Literal::number"),
        float(vec![leaf(0, "0")], vec![error("ends_with_zero", vec![leaf(2, "10")])]),
    );
    assert_eq!(
        parse("0._10", "Literal::number"),
        float(vec![leaf(0, "0")], vec![
            error("digit_separator_on_side", vec![leaf(2, "10")]),
            error("ends_with_zero", vec![leaf(2, "10")]),
        ]),
    );
    assert_eq!(parse("0.", "Literal::number"), Err(ParserError::NoMatchedRule));
    assert_eq!(parse(".0", "Literal::number"), Err(ParserError::NoMatchedRule));
    assert_eq!(
        parse("0.0f32", "Literal::number"),
        tree("Literal::number", vec![node("Literal::float_number", vec![
            node("integer", vec![leaf(0, "0")]),
            node("float", vec![leaf(2, "0")]),
            node("DataType::primitive_number", vec![leaf(3, "f32")]),
        ])]),
    );
}

#[test]
fn infix_operation_accepts_two_or_more_terms() {
    assert_eq!(
        parse("0 + 1", "Operation::operation"),
        tree("Operation::operation", vec![pure_decimal(0, "0"), operator(2, "+"), pure_decimal(4, "1")]),
    );
    assert_eq!(
        parse("0 + 1 + 2", "Operation::operation"),
        tree("Operation::operation", vec![
            pure_decimal(0, "0"), operator(2, "+"), pure_decimal(4, "1"), operator(6, "+"), pure_decimal(8, "2"),
        ]),
    );
}

#[test]
fn prefix_and_postfix_operators() {
    assert_eq!(parse("!0", "Operation::operation"), tree("Operation::operation", vec![operator(0, "!e"), pure_decimal(1, "0")]));
    assert_eq!(
        parse("!-0", "Operation::operation"),
        tree("Operation::operation", vec![operator(0, "!e"), operator(1, "-e"), pure_decimal(2, "0")]),
    );
    assert_eq!(
        parse("0?!", "Operation::operation"),
        tree("Operation::operation", vec![pure_decimal(0, "0"), operator(1, "e?"), operator(2, "e!")]),
    );
}

#[test]
fn group_term() {
    assert_eq!(
        parse("!(0)?", "Operation::operation"),
        tree("Operation::operation", vec![
            operator(0, "!e"),
            operator(1, "("),
            node("Expression::expression", vec![decimal(2, "0")]),
            operator(3, ")"),
            operator(4, "e?"),
        ]),
    );
    assert_eq!(
        parse("(0 + 1)", "Operation::operation"),
        tree("Operation::operation", vec![
            operator(0, "("),
            node("Expression::expression", vec![node("Operation::operation", vec![
                pure_decimal(1, "0"), operator(3, "+"), pure_decimal(5, "1"),
            ])]),
            operator(6, ")"),
        ]),
    );
}

#[test]
fn function_call_operator() {
    let call = |arguments: Vec<SyntaxChild>| node("operator", vec![node("Operation::function_call_operator", arguments)]);
    assert_eq!(parse("0()", "Operation::operation"), tree("Operation::operation", vec![pure_decimal(0, "0"), call(Vec::new())]));
    assert_eq!(
        parse("0(1,)", "Operation::operation"),
        tree("Operation::operation", vec![
            pure_decimal(0, "0"),
            call(vec![node("Expression::expression", vec![decimal(2, "1")])]),
        ]),
    );
    assert_eq!(
        parse("0(1, 2)", "Operation::operation"),
        tree("Operation::operation", vec![
            pure_decimal(0, "0"),
            call(vec![
                node("Expression::expression", vec![decimal(2, "1")]),
                node("Expression::expression", vec![decimal(5, "2")]),
            ]),
        ]),
    );
    assert_eq!(
        parse("0( 1 )", "Operation::operation"),
        tree("Operation::operation", vec![pure_decimal(0, "0"), call(vec![node("Expression::expression", vec![decimal(3, "1")])])]),
    );
}

#[test]
fn expression_exposes_a_single_term() {
    assert_eq!(parse("a", "Expression::expression"), tree("Expression::expression", vec![
        node("Identifier::identifier", vec![leaf(0, "a")]),
    ]));
    assert_eq!(parse("true", "Expression::expression"), tree("Expression::expression", vec![
        node("Literal::literal", vec![node("Literal::boolean", vec![leaf(0, "true")])]),
    ]));
    assert_eq!(parse("a + b", "Expression::expression"), tree("Expression::expression", vec![
        node("Operation::operation", vec![
            node("Expression::pure_expression", vec![node("Identifier::identifier", vec![leaf(0, "a")])]),
            operator(2, "+"),
            node("Expression::pure_expression", vec![node("Identifier::identifier", vec![leaf(4, "b")])]),
        ]),
    ]));
}

#[test]
fn primitive_data_type() {
    assert_eq!(
        parse("usize", "DataType::data_type"),
        tree("DataType::data_type", vec![node("DataType::primitive", vec![leaf(0, "usize")])]),
    );
    assert_eq!(
        parse("str", "DataType::data_type"),
        tree("DataType::data_type", vec![node("DataType::primitive", vec![leaf(0, "str")])]),
    );
}

#[test]
fn generic_data_type_can_contain_generic_arguments() {
    assert_eq!(
        parse("t<t<T>, T>", "DataType::data_type"),
        tree("DataType::data_type", vec![node("DataType::generic", vec![
            node("Identifier::identifier", vec![leaf(0, "t")]),
            node("args", vec![
                node("DataType::data_type", vec![node("DataType::generic", vec![
                    node("Identifier::identifier", vec![leaf(2, "t")]),
                    node("args", vec![node("Identifier::identifier", vec![leaf(4, "T")])]),
                ])]),
                node("Identifier::identifier", vec![leaf(8, "T")]),
            ]),
        ])]),
    );
    assert_eq!(parse("a<>", "DataType::generic"), Err(ParserError::NoMatchedRule));
}

#[test]
fn nesting_beyond_the_limit_does_not_match() {
    let syntax = Syntax::generate_volt(3);
    assert_eq!(syntax.parse("(0)", &RuleId("Operation::operation".to_string())), Err(ParserError::NoMatchedRule));
    let syntax = Syntax::generate_volt(1024);
    assert!(syntax.parse("(0)", &RuleId("Operation::operation".to_string())).is_ok());
}

#[test]
fn expression_separator_accepts_blanks_around_it() {
    assert!(parse("\n", "Symbol::expression_separator").is_ok());
    assert!(parse(";", "Symbol::expression_separator").is_ok());
    assert!(parse("  \n  ", "Symbol::expression_separator").is_ok());
    let blank = |at: usize, value: &str| node("Symbol::around_expression_separator", vec![leaf(at, value)]);
    assert_eq!(
        parse(" \t;\t", "Symbol::expression_separator"),
        tree("Symbol::expression_separator", vec![blank(0, " "), blank(1, "\t"), leaf(2, ";"), blank(3, "\t")]),
    );
    assert_eq!(parse(" ", "Symbol::expression_separator"), Err(ParserError::NoMatchedRule));
}

#[test]
fn whitespace_symbols() {
    assert_eq!(parse("\t", "Symbol::whitespace"), tree("Symbol::whitespace", vec![leaf(0, "\t")]));
    assert_eq!(parse("\n", "Symbol::around_expression_separator"), Err(ParserError::NoMatchedRule));
}

#[test]
fn reserved_words() {
    assert_eq!(parse("fn", "Identifier::reserved"), tree("Identifier::reserved", vec![leaf(0, "fn")]));
    assert_eq!(
        parse("false", "Identifier::reserved"),
        tree("Identifier::reserved", vec![node("Literal::boolean", vec![leaf(0, "false")])]),
    );
    assert_eq!(
        parse("f32", "Identifier::reserved"),
        tree("Identifier::reserved", vec![node("DataType::primitive_number", vec![leaf(0, "f32")])]),
    );
    assert_eq!(parse("self", "Identifier::reserved"), Err(ParserError::NoMatchedRule));
}

#[test]
fn inner_rules_by_name() {
    assert_eq!(
        parse("fn f() {}", "Main::item"),
        tree("Main::item", vec![node("Function::function", vec![
            node("Main::accessibility", Vec::new()),
            node("Identifier::identifier", vec![leaf(3, "f")]),
            node("args", Vec::new()),
            node("exprs", Vec::new()),
        ])]),
    );
    assert_eq!(
        parse("0b1_0", "Literal::binary_number"),
        tree("Literal::binary_number", vec![leaf(2, "10")]),
    );
    assert_eq!(
        parse("e-3", "Literal::number_exponent"),
        tree("Literal::number_exponent", vec![leaf(0, "-"), node("value", vec![leaf(2, "3")])]),
    );
    assert_eq!(
        parse("!0?", "Operation::term"),
        tree("Operation::term", vec![operator(0, "!e"), pure_decimal(1, "0"), operator(2, "e?")]),
    );
    assert_eq!(parse("::", "Operation::infix_operator"), tree("Operation::infix_operator", vec![leaf(0, "::")]));
    assert_eq!(parse("usize", "DataType::primitive_number"), tree("DataType::primitive_number", vec![leaf(0, "usize")]));
}
