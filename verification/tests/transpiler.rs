use lib::ast::syntax::ParserError;
use lib::js::{JsTranspiler, JsTranspilerError, JsTranspilerOptions};
use lib::Compiler;

#[test]
fn compiles_empty_main_function() {
    let compiler = JsTranspiler::new(JsTranspilerOptions);
    assert_eq!(compiler.compile("fn main(){}"), Ok("function f_2(){}".to_string()));
}

#[test]
fn compiles_functions_in_order_with_arguments_and_literals() {
    let compiler = JsTranspiler::new(JsTranspilerOptions);
    assert_eq!(
        compiler.compile("fn a(){}\npub fn b(x usize, y str) {\n  true\n  12\n}\n"),
        Ok("function f_2(){}function f_3(x,y){true;12}".to_string()),
    );
}

#[test]
fn compiles_empty_source() {
    let compiler = JsTranspiler::new(JsTranspilerOptions);
    assert_eq!(compiler.compile(""), Ok(String::new()));
    assert_eq!(compiler.compile("\n \n"), Ok(String::new()));
}

#[test]
fn use_declarations_take_path_indexes_but_give_no_code() {
    let compiler = JsTranspiler::new(JsTranspilerOptions);
    assert_eq!(compiler.compile("use hako::a\nfn f(){false}"), Ok("function f_3(){false}".to_string()));
}

#[test]
fn reports_parser_error() {
    let compiler = JsTranspiler::new(JsTranspilerOptions);
    assert_eq!(compiler.compile("fn"), Err(JsTranspilerError::ParserError(ParserError::NoMatchedRule)));
    assert_eq!(compiler.compile(";"), Err(JsTranspilerError::ParserError(ParserError::NoMatchedRule)));
}

#[test]
fn parses_by_the_main_rule() {
    let compiler = JsTranspiler::new(JsTranspilerOptions);
    let tree = compiler.parse("fn main(){}").unwrap();
    assert_eq!(tree.root.name, "Main::main".to_string());
    assert_eq!(tree.root.children.len(), 1);
    assert_eq!(compiler.parse("fn main("), Err(ParserError::NoMatchedRule));
}
