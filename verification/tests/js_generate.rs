use lib::hir::{HirAccessibility, HirIdentifier, HirIdentifierBinding, HirMutability, Hir};
use lib::hir::ir::expr::{HirDataType, HirExpression, HirLiteral, HirOperation, HirPrimitiveDataType};
use lib::hir::ir::item::{HirFormalArgument, HirFunction, HirItem};
use lib::hir::ir::path::{HirPath, HirPathIndexBinding, HirPathIndexGenerator, HirPathKind, HirPathNode, HirPathTree};
use lib::js::generate::JsGenerator;
use lib::js::ir::item::{JsFunction, JsItem};
use lib::js::ir::stmt::{JsExpression, JsLiteral, JsOperation, JsStatement};

fn function_tree() -> HirPathTree {
    let mut path_tree = HirPathTree::new();
    let mut index_generator = HirPathIndexGenerator::new();
    path_tree.add_node(&mut index_generator, None, HirPathNode {
        id: HirIdentifier::from_str("f"),
        kind: HirPathKind::Function,
        parent: None,
        children: Vec::new(),
    });
    path_tree
}

fn boolean(value: bool) -> HirExpression {
    HirExpression::Literal(HirLiteral::Boolean(value))
}

#[test]
fn function_reflects_identifier_arguments_and_statements() {
    let path_tree = function_tree();
    let mut generator = JsGenerator::new(&path_tree);
    let item = HirItem::Function(HirFunction {
        accessibility: HirAccessibility::Private,
        return_type: HirDataType::Primitive(HirPrimitiveDataType::NoneType),
        arguments: vec![HirIdentifierBinding::new(
            HirIdentifier::from_str("a"),
            HirFormalArgument {
                mutability: HirMutability::Immutable,
                data_type: HirDataType::Primitive(HirPrimitiveDataType::Usize),
            },
        )],
        expressions: vec![boolean(true)],
    });
    assert_eq!(
        generator.item(&HirPathIndexBinding::new(0.into(), item)),
        JsItem::Function(JsFunction {
            id: "f_0".to_string(),
            arguments: vec!["a".to_string()],
            statements: vec![JsStatement::Expression(JsExpression::Literal(JsLiteral::Boolean(true)))],
        }),
    );
}

#[test]
fn returns_expression_statement() {
    let path_tree = HirPathTree::new();
    let mut generator = JsGenerator::new(&path_tree);
    assert_eq!(
        generator.statement(&boolean(true)),
        JsStatement::Expression(JsExpression::Literal(JsLiteral::Boolean(true))),
    );
}

#[test]
fn boolean_literal() {
    let path_tree = HirPathTree::new();
    let mut generator = JsGenerator::new(&path_tree);
    assert_eq!(generator.literal(&HirLiteral::Boolean(true)), JsLiteral::Boolean(true));
    assert_eq!(generator.literal(&HirLiteral::Boolean(false)), JsLiteral::Boolean(false));
}

#[test]
fn resolved_path_is_named_like_the_function_at_its_index() {
    let path_tree = HirPathTree::new();
    let mut generator = JsGenerator::new(&path_tree);
    assert_eq!(generator.path(&HirPath::Resolved(7.into())), "f_7".to_string());
}

#[test]
fn operations_keep_their_shape() {
    let path_tree = HirPathTree::new();
    let mut generator = JsGenerator::new(&path_tree);
    assert_eq!(
        generator.operation(&HirOperation::Add(boolean(true), boolean(false))),
        JsExpression::Operation(Box::new(JsOperation::Add(
            JsExpression::Literal(JsLiteral::Boolean(true)),
            JsExpression::Literal(JsLiteral::Boolean(false)),
        ))),
    );
    assert_eq!(
        generator.operation(&HirOperation::Not(boolean(true))),
        JsExpression::Operation(Box::new(JsOperation::Not(JsExpression::Literal(JsLiteral::Boolean(true))))),
    );
    assert_eq!(
        generator.operation(&HirOperation::Path(HirPath::Resolved(3.into()))),
        JsExpression::Identifier("f_3".to_string()),
    );
}

#[test]
fn generates_one_function_per_item() {
    let path_tree = function_tree();
    let hir = Hir {
        path_tree,
        items: vec![
            HirPathIndexBinding::new(0.into(), HirItem::Function(HirFunction {
                accessibility: HirAccessibility::Public,
                return_type: HirDataType::Primitive(HirPrimitiveDataType::NoneType),
                arguments: Vec::new(),
                expressions: Vec::new(),
            })),
            HirPathIndexBinding::new(4.into(), HirItem::Function(HirFunction {
                accessibility: HirAccessibility::Private,
                return_type: HirDataType::Primitive(HirPrimitiveDataType::NoneType),
                arguments: Vec::new(),
                expressions: vec![boolean(false)],
            })),
        ],
    };
    let js = JsGenerator::generate(&hir);
    assert_eq!(js.items.len(), 2);
    assert_eq!(
        js.items[1],
        JsItem::Function(JsFunction {
            id: "f_4".to_string(),
            arguments: Vec::new(),
            statements: vec![JsStatement::Expression(JsExpression::Literal(JsLiteral::Boolean(false)))],
        }),
    );
}

#[test]
fn reference_names_the_function_it_resolves_to() {
    let path_tree = function_tree();
    let mut generator = JsGenerator::new(&path_tree);
    let item = HirItem::Function(HirFunction {
        accessibility: HirAccessibility::Private,
        return_type: HirDataType::Primitive(HirPrimitiveDataType::NoneType),
        arguments: Vec::new(),
        expressions: Vec::new(),
    });
    let name = match generator.item(&HirPathIndexBinding::new(0.into(), item)) {
        JsItem::Function(function) => function.id,
    };
    assert_eq!(generator.path(&HirPath::Resolved(0.into())), name);
    let call = JsExpression::Operation(Box::new(JsOperation::FunctionCall(
        JsExpression::Identifier(name.clone()),
        vec![JsExpression::Literal(JsLiteral::Boolean(true))],
    )));
    assert_eq!(call.clone(), call);
}
