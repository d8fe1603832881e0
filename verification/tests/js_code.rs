use lib::js::code::JsCodeGenerator;
use lib::js::ir::Js;
use lib::js::ir::item::{JsFunction, JsItem};
use lib::js::ir::stmt::{JsExpression, JsLiteral, JsStatement};

fn empty_function(id: &str) -> JsFunction {
    JsFunction { id: id.to_string(), arguments: Vec::new(), statements: Vec::new() }
}

fn boolean_statement(value: bool) -> JsStatement {
    JsStatement::Expression(JsExpression::Literal(JsLiteral::Boolean(value)))
}

#[test]
fn joins_items_with_empty_string() {
    let js = Js {
        items: vec![JsItem::Function(empty_function("f_0")), JsItem::Function(empty_function("f_1"))],
    };
    assert_eq!(JsCodeGenerator::generate(&js), "function f_0(){}function f_1(){}".to_string());
}

#[test]
fn generates_nothing_for_no_items() {
    assert_eq!(JsCodeGenerator::generate(&Js { items: Vec::new() }), String::new());
}

#[test]
fn item_reflects_containing_function() {
    let item = JsItem::Function(empty_function("f_0"));
    assert_eq!(JsCodeGenerator::item(&item), "function f_0(){}".to_string());
}

#[test]
fn function_separates_arguments_and_statements() {
    let function = JsFunction {
        id: "f_0".to_string(),
        arguments: vec!["a".to_string(), "b".to_string()],
        statements: vec![boolean_statement(true), boolean_statement(true)],
    };
    assert_eq!(JsCodeGenerator::function(&function), "function f_0(a,b){true;true}".to_string());
}

#[test]
fn function_with_one_argument_and_statement() {
    let function = JsFunction {
        id: "f_12".to_string(),
        arguments: vec!["x".to_string()],
        statements: vec![boolean_statement(false)],
    };
    assert_eq!(JsCodeGenerator::function(&function), "function f_12(x){false}".to_string());
}

#[test]
fn literal_statements() {
    assert_eq!(JsCodeGenerator::statement(&boolean_statement(true)), "true".to_string());
    assert_eq!(JsCodeGenerator::statement(&boolean_statement(false)), "false".to_string());
    assert_eq!(JsCodeGenerator::expression(&JsExpression::Literal(JsLiteral::Boolean(true))), "true".to_string());
    assert_eq!(JsCodeGenerator::literal(&JsLiteral::Boolean(false)), "false".to_string());
}
