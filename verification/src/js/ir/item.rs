use vstd::prelude::*;
use super::stmt::{JsStatement, SpecJsStatement, js_statement_view};

verus! {

#[derive(Clone, Debug, PartialEq)]
pub enum JsItem {
    Function(JsFunction),
}

#[derive(Clone, Debug, PartialEq)]
pub struct JsFunction {
    pub id: String,
    pub arguments: Vec<String>,
    pub statements: Vec<JsStatement>,
}

pub enum SpecJsItem {
    Function(SpecJsFunction),
}

pub struct SpecJsFunction {
    pub id: Seq<char>,
    pub arguments: Seq<Seq<char>>,
    pub statements: Seq<SpecJsStatement>,
}

pub open spec fn js_function_view(f: JsFunction) -> SpecJsFunction {
    SpecJsFunction {
        id: f.id@,
        arguments: f.arguments@.map_values(|a: String| a@),
        statements: f.statements@.map_values(|s: JsStatement| js_statement_view(s)),
    }
}

pub open spec fn js_item_view(i: JsItem) -> SpecJsItem {
    match i {
        JsItem::Function(f) => SpecJsItem::Function(js_function_view(f)),
    }
}

impl View for JsItem {
    type V = SpecJsItem;

    open spec fn view(&self) -> SpecJsItem {
        js_item_view(*self)
    }
}

impl View for JsFunction {
    type V = SpecJsFunction;

    open spec fn view(&self) -> SpecJsFunction {
        js_function_view(*self)
    }
}

} // verus!
