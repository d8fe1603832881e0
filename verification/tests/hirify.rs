use lib::ast::syntax::{RuleId, Syntax};
use lib::ast::syntax_tree::{SyntaxChild, SyntaxLeaf, SyntaxNode, SyntaxTree};
use lib::hir::{HirAccessibility, HirIdentifier, HirIdentifierBinding, HirMutability};
use lib::hir::hirify::{AstHako, AstModule, TreeHirifier, TreeHirifierError, TreeHirifierLog};
use lib::hir::ir::expr::{
    HirDataType, HirExpression, HirFloatLiteral, HirGenericDataType, HirIntegerBase, HirIntegerExponent,
    HirIntegerLiteral, HirLiteral, HirOperation, HirPrimitiveDataType,
};
use lib::hir::ir::item::{HirFormalArgument, HirFunction, HirItem};
use lib::hir::ir::path::{HirPath, HirPathIndex, HirPathKind, HirPathNode};

fn parse(input: &str, rule: &str) -> SyntaxTree {
    Syntax::generate_volt(1024).parse(input, &RuleId(rule.to_string())).unwrap()
}

fn id(s: &str) -> HirIdentifier {
    HirIdentifier::from_str(s)
}

fn path_node(name: &str, kind: HirPathKind, parent: Option<usize>, children: Vec<usize>) -> HirPathNode {
    HirPathNode {
        id: id(name),
        kind,
        parent: parent.map(HirPathIndex::from),
        children: children.into_iter().map(HirPathIndex::from).collect(),
    }
}

fn function_expression(source: &str) -> HirExpression {
    let tree = parse(&format!("fn f() {{{}}}", source), "Function::function");
    let mut hirifier = TreeHirifier::new();
    let (_, function) = hirifier.function(&tree.root);
    function.expressions.into_iter().next().unwrap()
}

#[test]
fn hirifies_hako_module_and_function() {
    let tree = parse("fn f(a usize) {true}", "Main::main");
    let hako = AstHako {
        id: "h".to_string(),
        modules: vec![AstModule { id: "m".to_string(), node: &tree.root, submodules: Vec::new() }],
    };
    let (hir, logs) = TreeHirifier::hirify(vec![&hako]);
    assert_eq!(logs, Vec::new());
    assert_eq!(hir.path_tree.get(&0.into()), Some(&path_node("h", HirPathKind::Hako, None, vec![1])));
    assert_eq!(hir.path_tree.get(&1.into()), Some(&path_node("m", HirPathKind::Module, Some(0), vec![2])));
    assert_eq!(hir.path_tree.get(&2.into()), Some(&path_node("f", HirPathKind::Function, Some(1), Vec::new())));
    assert_eq!(hir.path_tree.get(&3.into()), None);
    assert_eq!(hir.items.len(), 1);
    assert_eq!(hir.items[0].0, 2.into());
    assert_eq!(
        hir.items[0].1,
        HirItem::Function(HirFunction {
            accessibility: HirAccessibility::Private,
            return_type: HirDataType::Primitive(HirPrimitiveDataType::NoneType),
            arguments: vec![HirIdentifierBinding::new(id("a"), HirFormalArgument {
                mutability: HirMutability::Immutable,
                data_type: HirDataType::Primitive(HirPrimitiveDataType::Usize),
            })],
            expressions: vec![HirExpression::Literal(HirLiteral::Boolean(true))],
        }),
    );
}

#[test]
fn submodules_come_before_items_and_hakos_are_found_by_name() {
    let main_tree = parse("fn f() {}", "Main::main");
    let sub_tree = parse("fn g() {}", "Main::main");
    let hako = AstHako {
        id: "h".to_string(),
        modules: vec![AstModule {
            id: "m".to_string(),
            node: &main_tree.root,
            submodules: vec![AstModule { id: "s".to_string(), node: &sub_tree.root, submodules: Vec::new() }],
        }],
    };
    let (hir, _) = TreeHirifier::hirify(vec![&hako]);
    assert_eq!(hir.path_tree.get(&1.into()), Some(&path_node("m", HirPathKind::Module, Some(0), vec![2, 4])));
    assert_eq!(hir.path_tree.get(&2.into()), Some(&path_node("s", HirPathKind::Module, Some(1), vec![3])));
    assert_eq!(hir.path_tree.get(&3.into()), Some(&path_node("g", HirPathKind::Function, Some(2), Vec::new())));
    assert_eq!(hir.path_tree.get(&4.into()), Some(&path_node("f", HirPathKind::Function, Some(1), Vec::new())));
    assert_eq!(hir.items.iter().map(|b| b.0).collect::<Vec<_>>(), vec![HirPathIndex(3), HirPathIndex(4)]);
    let segments = vec![id("h"), id("m"), id("s"), id("g")];
    assert_eq!(hir.path_tree.find(&segments).map(|(i, _)| *i), Some(HirPathIndex(3)));
}

#[test]
fn accessibility_of_functions() {
    let mut hirifier = TreeHirifier::new();
    let tree = parse("pub@hako fn f() {}", "Function::function");
    let (name, function) = hirifier.function(&tree.root);
    assert_eq!(name, "f".to_string());
    assert_eq!(function.accessibility, HirAccessibility::PublicInHako);
    let tree = parse("pub fn f() {}", "Function::function");
    assert_eq!(hirifier.function(&tree.root).1.accessibility, HirAccessibility::Public);
}

#[test]
fn self_argument_must_be_first() {
    let tree = parse("fn f(a usize, mut self) {}", "Main::main");
    let hako = AstHako {
        id: "h".to_string(),
        modules: vec![AstModule { id: "m".to_string(), node: &tree.root, submodules: Vec::new() }],
    };
    let (hir, logs) = TreeHirifier::hirify(vec![&hako]);
    assert_eq!(logs, vec![TreeHirifierLog::Error(TreeHirifierError::SelfArgumentMustLocateFirstPosition)]);
    match &hir.items[0].1 {
        HirItem::Function(function) => {
            assert_eq!(function.arguments[1], HirIdentifierBinding::new(id("self"), HirFormalArgument {
                mutability: HirMutability::Mutable,
                data_type: HirDataType::Primitive(HirPrimitiveDataType::SelfType),
            }));
        },
        _ => panic!("a function was expected"),
    }
}

#[test]
fn use_declaration_logs_misplaced_segments() {
    let tree = parse("use a::hako::self", "UseDeclaration::use_declaration");
    let mut hirifier = TreeHirifier::new();
    let path = hirifier.use_declaration(&tree.root);
    assert_eq!(path, HirPath::Unresolved(vec![id("a"), id("hako"), id("self")]));
    let tree = parse("use hako::a", "Main::main");
    let hako = AstHako {
        id: "h".to_string(),
        modules: vec![AstModule { id: "m".to_string(), node: &tree.root, submodules: Vec::new() }],
    };
    let (hir, logs) = TreeHirifier::hirify(vec![&hako]);
    assert_eq!(logs, Vec::new());
    assert_eq!(hir.items.len(), 0);
    assert_eq!(hir.path_tree.get(&1.into()), Some(&path_node("m", HirPathKind::Module, Some(0), Vec::new())));
    let tree = parse("use a::hako::self", "Main::main");
    let hako = AstHako {
        id: "h".to_string(),
        modules: vec![AstModule { id: "m".to_string(), node: &tree.root, submodules: Vec::new() }],
    };
    let (_, logs) = TreeHirifier::hirify(vec![&hako]);
    assert_eq!(logs, vec![
        TreeHirifierLog::Error(TreeHirifierError::PathSegmentMustLocateFirstPosition { path_segment: "hako".to_string() }),
        TreeHirifierLog::Error(TreeHirifierError::PathSegmentMustLocateFirstPosition { path_segment: "self".to_string() }),
    ]);
}

#[test]
fn literals() {
    assert_eq!(function_expression("false"), HirExpression::Literal(HirLiteral::Boolean(false)));
    assert_eq!(
        function_expression("0x1fusize"),
        HirExpression::Literal(HirLiteral::Integer(HirIntegerLiteral {
            data_type: None,
            base: HirIntegerBase::Hexadecimal,
            value: "1f".to_string(),
            exponent: None,
        })),
    );
    assert_eq!(
        function_expression("1e-2"),
        HirExpression::Literal(HirLiteral::Integer(HirIntegerLiteral {
            data_type: None,
            base: HirIntegerBase::Decimal,
            value: "1".to_string(),
            exponent: Some(HirIntegerExponent { positive: false, value: "2".to_string() }),
        })),
    );
    assert_eq!(
        function_expression("1.5f32"),
        HirExpression::Literal(HirLiteral::Float(HirFloatLiteral {
            data_type: None,
            value: "1.5".to_string(),
        })),
    );
}

#[test]
fn identifiers_data_types_and_operations() {
    assert_eq!(function_expression("a"), HirExpression::Identifier(id("a")));
    assert_eq!(
        function_expression("1 + 2 * a"),
        HirExpression::Operation(Box::new(HirOperation::Add(
            HirExpression::Literal(HirLiteral::Integer(HirIntegerLiteral {
                data_type: None,
                base: HirIntegerBase::Decimal,
                value: "1".to_string(),
                exponent: None,
            })),
            HirExpression::Operation(Box::new(HirOperation::Multiply(
                HirExpression::Literal(HirLiteral::Integer(HirIntegerLiteral {
                    data_type: None,
                    base: HirIntegerBase::Decimal,
                    value: "2".to_string(),
                    exponent: None,
                })),
                HirExpression::Identifier(id("a")),
            ))),
        ))),
    );
    assert_eq!(
        function_expression("a::b"),
        HirExpression::Operation(Box::new(HirOperation::Path(HirPath::Unresolved(vec![id("a"), id("b")])))),
    );
    assert_eq!(
        function_expression("!(true)"),
        HirExpression::Operation(Box::new(HirOperation::Not(HirExpression::Operation(Box::new(HirOperation::Group(
            HirExpression::Literal(HirLiteral::Boolean(true)),
        )))))),
    );
}

#[test]
fn function_call_with_arguments() {
    assert_eq!(
        function_expression("f(true, a)"),
        HirExpression::Operation(Box::new(HirOperation::FunctionCall(
            HirExpression::Identifier(id("f")),
            vec![HirExpression::Literal(HirLiteral::Boolean(true)), HirExpression::Identifier(id("a"))],
        ))),
    );
}

#[test]
fn copies_are_equal() {
    let expression = function_expression("f(1 + 2, a::b)");
    assert_eq!(expression.clone(), expression);
    let tree = parse("fn f(a v<T>) {true}", "Main::main");
    assert_eq!(tree.clone(), tree);
    let module = AstModule {
        id: "m".to_string(),
        node: &tree.root,
        submodules: vec![AstModule { id: "s".to_string(), node: &tree.root, submodules: Vec::new() }],
    };
    assert_eq!(module.clone(), module);
}

fn leaf(value: &str) -> SyntaxChild {
    SyntaxChild::Leaf(SyntaxLeaf { start: 0, value: value.to_string() })
}

fn node(name: &str, children: Vec<SyntaxChild>) -> SyntaxNode {
    SyntaxNode { name: name.to_string(), children }
}

fn child(name: &str, children: Vec<SyntaxChild>) -> SyntaxChild {
    SyntaxChild::Node(node(name, children))
}

#[test]
fn literal_reads_data_type_suffix_node() {
    let literal = node("Literal::literal", vec![child("Literal::number", vec![
        child("value", vec![child("Literal::hexadecimal_number", vec![leaf("1f")])]),
        child("data_type_suffix", vec![leaf("usize")]),
    ])]);
    let mut hirifier = TreeHirifier::new();
    assert_eq!(
        hirifier.literal(&literal),
        HirLiteral::Integer(HirIntegerLiteral {
            data_type: Some(HirPrimitiveDataType::Usize),
            base: HirIntegerBase::Hexadecimal,
            value: "1f".to_string(),
            exponent: None,
        }),
    );
    let float = node("Literal::literal", vec![child("Literal::number", vec![child("Literal::float_number", vec![
        child("integer", vec![leaf("1")]),
        child("float", vec![leaf("5")]),
        child("data_type_suffix", vec![leaf("f32")]),
    ])])]);
    assert_eq!(
        hirifier.literal(&float),
        HirLiteral::Float(HirFloatLiteral { data_type: Some(HirPrimitiveDataType::F32), value: "1.5".to_string() }),
    );
}

#[test]
fn generic_data_type_reads_generic_arguments_node() {
    let data_type = node("DataType::data_type", vec![child("DataType::generic", vec![
        child("Identifier::identifier", vec![leaf("v")]),
        child("DataType::generic_arguments", vec![
            child("Identifier::identifier", vec![leaf("T")]),
            child("DataType::data_type", vec![child("DataType::primitive", vec![leaf("usize")])]),
        ]),
    ])]);
    let mut hirifier = TreeHirifier::new();
    assert_eq!(
        hirifier.data_type(&data_type),
        HirDataType::Generic(HirIdentifierBinding::new(
            id("v"),
            HirGenericDataType {
                arguments: vec![HirDataType::Identifier(id("T")), HirDataType::Primitive(HirPrimitiveDataType::Usize)],
            },
        )),
    );
}
