use lib::hir::{HirAccessibility, HirIdentifier};
use lib::hir::ir::expr::{HirDataType, HirExpression, HirLiteral, HirOperation, HirPrimitiveDataType};
use lib::hir::ir::item::{HirFunction, HirItem};
use lib::hir::ir::path::{HirPath, HirPathIndexBinding, HirPathIndexGenerator, HirPathKind, HirPathNode, HirPathTree};
use lib::hir::type_check::{DataTypeChecker, DataTypeError};

fn path_tree_with(nodes: Vec<HirPathNode>) -> HirPathTree {
    let mut path_tree = HirPathTree::new();
    let mut index_generator = HirPathIndexGenerator::new();
    for each_node in nodes {
        path_tree.add_node(&mut index_generator, None, each_node);
    }
    path_tree
}

fn path_expression(segments: Vec<&str>) -> HirExpression {
    let segments: Vec<HirIdentifier> = segments.into_iter().map(HirIdentifier::from_str).collect();
    HirExpression::Operation(Box::new(HirOperation::Path(HirPath::Unresolved(segments))))
}

fn function_item(expressions: Vec<HirExpression>) -> HirItem {
    HirItem::Function(HirFunction {
        accessibility: HirAccessibility::Private,
        return_type: HirDataType::Primitive(HirPrimitiveDataType::NoneType),
        arguments: Vec::new(),
        expressions,
    })
}

#[test]
fn checks_path_expression_in_function() {
    let path_tree = HirPathTree::new();
    let mut items = vec![HirPathIndexBinding::new(0.into(), function_item(vec![path_expression(vec!["unknown"])]))];
    let errors = DataTypeChecker::check(&path_tree, &mut items);
    assert_eq!(errors, vec![DataTypeError::UnknownIdentifier]);
    assert_eq!(items[0].1, function_item(vec![path_expression(vec!["unknown"])]));
}

#[test]
fn resolves_existing_identifier() {
    let path_tree = path_tree_with(vec![HirPathNode {
        id: HirIdentifier::from_str("existing"),
        kind: HirPathKind::Hako,
        parent: None,
        children: Vec::new(),
    }]);
    let mut items = vec![HirPathIndexBinding::new(0.into(), function_item(vec![path_expression(vec!["existing"])]))];
    let errors = DataTypeChecker::check(&path_tree, &mut items);
    assert_eq!(errors, Vec::new());
    assert_eq!(
        items[0].1,
        function_item(vec![HirExpression::Operation(Box::new(HirOperation::Path(HirPath::Resolved(0.into()))))]),
    );
}

#[test]
fn counts_every_unknown_identifier_in_order() {
    let path_tree = path_tree_with(vec![HirPathNode {
        id: HirIdentifier::from_str("h"),
        kind: HirPathKind::Hako,
        parent: None,
        children: Vec::new(),
    }]);
    let mut items = vec![
        HirPathIndexBinding::new(1.into(), function_item(vec![
            path_expression(vec!["a"]),
            HirExpression::Literal(HirLiteral::Boolean(true)),
            path_expression(vec!["h"]),
        ])),
        HirPathIndexBinding::new(2.into(), function_item(vec![HirExpression::Operation(Box::new(HirOperation::Add(
            path_expression(vec!["b"]),
            path_expression(vec!["h", "c"]),
        )))])),
    ];
    let errors = DataTypeChecker::check(&path_tree, &mut items);
    assert_eq!(errors, vec![DataTypeError::UnknownIdentifier; 3]);
    assert_eq!(items[0].0, 1.into());
    assert_eq!(items[1].0, 2.into());
    assert_eq!(
        items[0].1,
        function_item(vec![
            path_expression(vec!["a"]),
            HirExpression::Literal(HirLiteral::Boolean(true)),
            HirExpression::Operation(Box::new(HirOperation::Path(HirPath::Resolved(0.into())))),
        ]),
    );
}

#[test]
fn checks_nothing_in_no_items() {
    let path_tree = HirPathTree::new();
    let mut items: Vec<HirPathIndexBinding<HirItem>> = Vec::new();
    assert_eq!(DataTypeChecker::check(&path_tree, &mut items), Vec::new());
}
