use vstd::prelude::*;
use crate::hir::Hir;
use crate::hir::ir::expr::{
    HirExpression, HirLiteral, HirOperation, SpecExpression, SpecLiteral, SpecOperation,
    exprs_view, lemma_exprs_view,
};
use crate::hir::ir::item::{HirItem, SpecItem};
use crate::hir::ir::path::{HirPath, HirPathIndex, HirPathIndexBinding, HirPathTree, SpecPath};
use crate::js::ir::Js;
use crate::js::ir::item::{JsFunction, JsItem, SpecJsFunction, SpecJsItem};
use crate::js::ir::stmt::{
    JsExpression, JsLiteral, JsOperation, JsStatement, SpecJsExpression, SpecJsLiteral,
    SpecJsOperation, SpecJsStatement, js_expressions_view, lemma_js_expressions_view,
};
use crate::text::{decimal, push_char, push_decimal};

verus! {

/// Whether an expression has a JavaScript counterpart here: boolean and integer
/// literals, and operations other than `=`, `!` and `?` on such expressions, with
/// every path resolved.
pub open spec fn js_supported(e: SpecExpression) -> bool
    decreases e,
{
    match e {
        SpecExpression::Literal(l) => l is Boolean || l is Integer,
        SpecExpression::Operation(op) => match *op {
            SpecOperation::Substitute(_, _) => false,
            SpecOperation::Add(l, r) => js_supported(l) && js_supported(r),
            SpecOperation::Subtract(l, r) => js_supported(l) && js_supported(r),
            SpecOperation::Multiply(l, r) => js_supported(l) && js_supported(r),
            SpecOperation::Not(t) => js_supported(t),
            SpecOperation::BitNot(t) => js_supported(t),
            SpecOperation::Negative(t) => js_supported(t),
            SpecOperation::Nonnize(_) => false,
            SpecOperation::Propagate(_) => false,
            SpecOperation::FunctionCall(t, args) => js_supported(t) && all_js_supported(args),
            SpecOperation::MemberAccess(l, r) => js_supported(l) && js_supported(r),
            SpecOperation::Path(p) => p is Resolved,
            SpecOperation::Group(t) => js_supported(t),
        },
        _ => false,
    }
}

pub open spec fn all_js_supported(s: Seq<SpecExpression>) -> bool
    decreases s,
{
    s.len() == 0 || (js_supported(s[0]) && all_js_supported(s.subrange(1, s.len() as int)))
}

/// The JavaScript name of a function item at a path index.
pub open spec fn function_name(i: HirPathIndex) -> Seq<char> {
    seq!['f', '_'] + decimal(i.0 as nat)
}

/// The JavaScript name that a reference to the place at a path index is written as:
/// the name of the function item at that index, so that a reference names what it
/// resolves to.
pub open spec fn path_name(i: HirPathIndex) -> Seq<char> {
    function_name(i)
}

/// Functions at different path indexes get different names.
pub proof fn lemma_function_names_distinct(i: HirPathIndex, j: HirPathIndex)
    requires
        i != j,
    ensures
        function_name(i) != function_name(j),
{
    if function_name(i) == function_name(j) {
        assert(function_name(i).skip(2) =~= decimal(i.0 as nat));
        assert(function_name(j).skip(2) =~= decimal(j.0 as nat));
        crate::text::lemma_decimal_injective(i.0 as nat, j.0 as nat);
    }
}

/// A reference names the function it resolves to: a resolved path to an index is
/// written as the name of the function item at that index.
pub proof fn lemma_reference_names_its_function(i: HirPathIndex, f: crate::hir::ir::item::SpecFunction)
    ensures
        js_expression(SpecExpression::Operation(Box::new(crate::hir::ir::expr::SpecOperation::Path(
            crate::hir::ir::path::SpecPath::Resolved(i),
        )))) == SpecJsExpression::Identifier(js_item(i, crate::hir::ir::item::SpecItem::Function(f))->Function_0.id),
{
}

pub open spec fn js_literal(l: SpecLiteral) -> SpecJsLiteral
    recommends
        l is Boolean || l is Integer,
{
    match l {
        SpecLiteral::Integer(i) => SpecJsLiteral::Integer(i.value),
        SpecLiteral::Boolean(b) => SpecJsLiteral::Boolean(b),
        _ => SpecJsLiteral::Boolean(false),
    }
}

/// The JavaScript expression of an expression.
pub open spec fn js_expression(e: SpecExpression) -> SpecJsExpression
    decreases e,
{
    match e {
        SpecExpression::Literal(l) => SpecJsExpression::Literal(js_literal(l)),
        SpecExpression::Operation(op) => match *op {
            SpecOperation::Add(l, r) => js_operation(SpecJsOperation::Add(js_expression(l), js_expression(r))),
            SpecOperation::Subtract(l, r) => js_operation(SpecJsOperation::Subtract(js_expression(l), js_expression(r))),
            SpecOperation::Multiply(l, r) => js_operation(SpecJsOperation::Multiply(js_expression(l), js_expression(r))),
            SpecOperation::Not(t) => js_operation(SpecJsOperation::Not(js_expression(t))),
            SpecOperation::BitNot(t) => js_operation(SpecJsOperation::BitNot(js_expression(t))),
            SpecOperation::Negative(t) => js_operation(SpecJsOperation::Negative(js_expression(t))),
            SpecOperation::FunctionCall(t, args) => js_operation(SpecJsOperation::FunctionCall(js_expression(t), js_expressions(args))),
            SpecOperation::MemberAccess(l, r) => js_operation(SpecJsOperation::MemberAccess(js_expression(l), js_expression(r))),
            SpecOperation::Path(p) => match p {
                SpecPath::Resolved(i) => SpecJsExpression::Identifier(path_name(i)),
                _ => SpecJsExpression::Identifier(Seq::empty()),
            },
            SpecOperation::Group(t) => js_operation(SpecJsOperation::Group(js_expression(t))),
            _ => SpecJsExpression::Identifier(Seq::empty()),
        },
        _ => SpecJsExpression::Identifier(Seq::empty()),
    }
}

pub open spec fn js_expressions(s: Seq<SpecExpression>) -> Seq<SpecJsExpression>
    decreases s,
{
    if s.len() == 0 {
        Seq::empty()
    } else {
        seq![js_expression(s[0])] + js_expressions(s.subrange(1, s.len() as int))
    }
}

pub open spec fn js_operation(op: SpecJsOperation) -> SpecJsExpression {
    SpecJsExpression::Operation(Box::new(op))
}

/// Whether an item has a JavaScript counterpart here: a function whose expressions have.
pub open spec fn item_js_supported(item: SpecItem) -> bool {
    match item {
        SpecItem::Function(f) => forall|i: int| 0 <= i < f.expressions.len() ==> js_supported(#[trigger] f.expressions[i]),
        _ => false,
    }
}

/// The JavaScript item of an item bound to a path index: a function named after the
/// index, with the argument names and a statement for each expression.
pub open spec fn js_item(index: HirPathIndex, item: SpecItem) -> SpecJsItem {
    match item {
        SpecItem::Function(f) => SpecJsItem::Function(SpecJsFunction {
            id: function_name(index),
            arguments: f.arguments.map_values(|a: (Seq<char>, crate::hir::ir::item::SpecFormalArgument)| a.0),
            statements: f.expressions.map_values(|e: SpecExpression| SpecJsStatement::Expression(js_expression(e))),
        }),
        _ => SpecJsItem::Function(SpecJsFunction { id: Seq::empty(), arguments: Seq::empty(), statements: Seq::empty() }),
    }
}

proof fn lemma_all_js_supported(s: Seq<SpecExpression>)
    requires
        all_js_supported(s),
    ensures
        forall|j: int| 0 <= j < s.len() ==> js_supported(#[trigger] s[j]),
    decreases s.len(),
{
    if s.len() > 0 {
        lemma_all_js_supported(s.subrange(1, s.len() as int));
        assert forall|j: int| 0 <= j < s.len() implies js_supported(#[trigger] s[j]) by {
            if j > 0 {
                assert(s[j] == s.subrange(1, s.len() as int)[j - 1]);
            }
        }
    }
}

proof fn lemma_js_expressions(s: Seq<SpecExpression>)
    ensures
        js_expressions(s).len() == s.len(),
        forall|j: int| 0 <= j < s.len() ==> #[trigger] js_expressions(s)[j] == js_expression(s[j]),
    decreases s.len(),
{
    if s.len() > 0 {
        lemma_js_expressions(s.subrange(1, s.len() as int));
    }
}

/// Translates the intermediate representation into JavaScript.
pub struct JsGenerator<'a> {
    pub path_tree: &'a HirPathTree,
}

impl<'a> JsGenerator<'a> {
    pub fn new(path_tree: &'a HirPathTree) -> (generator: JsGenerator<'a>)
        ensures
            generator.path_tree == path_tree,
    {
        JsGenerator { path_tree }
    }

    pub fn generate(hir: &'a Hir) -> (js: Js)
        requires
            forall|i: int| 0 <= i < hir.items.len() ==> item_js_supported(#[trigger] hir.items@[i].1@),
        ensures
            js@.len() == hir.items.len(),
            forall|i: int| 0 <= i < hir.items.len() ==> #[trigger] js@[i] == js_item(hir.items@[i].0, hir.items@[i].1@),
    {
        let mut generator = JsGenerator::new(&hir.path_tree);
        let mut items: Vec<JsItem> = Vec::new();
        let mut i: usize = 0;
        while i < hir.items.len()
            invariant
                i <= hir.items.len(),
                items.len() == i,
                forall|k: int| 0 <= k < hir.items.len() ==> item_js_supported(#[trigger] hir.items@[k].1@),
                forall|k: int| 0 <= k < i ==> #[trigger] items@[k]@ == js_item(hir.items@[k].0, hir.items@[k].1@),
            decreases hir.items.len() - i,
        {
            let item = generator.item(&hir.items[i]);
            items.push(item);
            i += 1;
        }
        let js = Js { items };
        assert forall|k: int| 0 <= k < hir.items.len() implies #[trigger] js@[k] == js_item(hir.items@[k].0, hir.items@[k].1@) by {
            assert(js@[k] == js.items@[k]@);
        }
        js
    }

    pub fn item(&mut self, item: &HirPathIndexBinding<HirItem>) -> (js_item_result: JsItem)
        requires
            item_js_supported(item.1@),
        ensures
            js_item_result@ == js_item(item.0, item.1@),
    {
        let path_index = item.index();
        match item.value() {
            HirItem::Function(function) => {
                let mut id = String::new();
                push_char(&mut id, 'f');
                push_char(&mut id, '_');
                push_decimal(&mut id, path_index.0);
                assert(id@ =~= function_name(*path_index));
                let mut arguments: Vec<String> = Vec::new();
                let mut k: usize = 0;
                while k < function.arguments.len()
                    invariant
                        k <= function.arguments.len(),
                        arguments.len() == k,
                        forall|j: int| 0 <= j < k ==> #[trigger] arguments@[j]@ == function.arguments@[j].0@,
                    decreases function.arguments.len() - k,
                {
                    arguments.push(function.arguments[k].0.0.clone());
                    k += 1;
                }
                let ghost exprs = exprs_view(function.expressions@);
                proof {
                    lemma_exprs_view(function.expressions@);
                    assert(item.1@->Function_0.expressions == exprs);
                }
                let mut statements: Vec<JsStatement> = Vec::new();
                let mut k: usize = 0;
                while k < function.expressions.len()
                    invariant
                        k <= function.expressions.len(),
                        statements.len() == k,
                        exprs == exprs_view(function.expressions@),
                        exprs.len() == function.expressions.len(),
                        forall|j: int| 0 <= j < exprs.len() ==> #[trigger] exprs[j] == function.expressions@[j]@,
                        forall|j: int| 0 <= j < exprs.len() ==> js_supported(#[trigger] exprs[j]),
                        forall|j: int| 0 <= j < k ==> #[trigger] statements@[j]@
                            == SpecJsStatement::Expression(js_expression(exprs[j])),
                    decreases function.expressions.len() - k,
                {
                    assert(js_supported(exprs[k as int]));
                    let statement = self.statement(&function.expressions[k]);
                    statements.push(statement);
                    k += 1;
                }
                let ghost stmts = statements@;
                let ghost stmt_views = stmts.map_values(|s: JsStatement| crate::js::ir::stmt::js_statement_view(s));
                assert forall|j: int| 0 <= j < stmts.len() implies #[trigger] stmt_views[j]
                    == SpecJsStatement::Expression(js_expression(exprs[j])) by {
                    assert(stmts[j]@ == SpecJsStatement::Expression(js_expression(exprs[j])));
                }
                let result = JsItem::Function(JsFunction { id, arguments, statements });
                proof {
                    let f = item.1@->Function_0;
                    assert(f.expressions == exprs);
                    assert(result@->Function_0.arguments =~= f.arguments.map_values(
                        |a: (Seq<char>, crate::hir::ir::item::SpecFormalArgument)| a.0,
                    ));
                    assert(result@->Function_0.statements =~= f.expressions.map_values(
                        |e: SpecExpression| SpecJsStatement::Expression(js_expression(e)),
                    ));
                }
                result
            },
            _ => JsItem::Function(JsFunction { id: String::new(), arguments: Vec::new(), statements: Vec::new() }),
        }
    }

    pub fn statement(&mut self, expr: &HirExpression) -> (statement: JsStatement)
        requires
            js_supported(expr@),
        ensures
            statement@ == SpecJsStatement::Expression(js_expression(expr@)),
        decreases expr,
    {
        match expr {
            HirExpression::Literal(literal) => JsStatement::Expression(JsExpression::Literal(self.literal(literal))),
            HirExpression::Operation(operation) => JsStatement::Expression(self.operation(operation)),
            _ => JsStatement::Expression(JsExpression::Identifier(String::new())),
        }
    }

    pub fn literal(&mut self, literal: &HirLiteral) -> (js_literal_result: JsLiteral)
        requires
            literal is Boolean || literal is Integer,
        ensures
            js_literal_result@ == js_literal(literal@),
    {
        match literal {
            HirLiteral::Boolean(boolean) => JsLiteral::Boolean(*boolean),
            HirLiteral::Integer(integer) => JsLiteral::Integer(integer.value.clone()),
            _ => JsLiteral::Boolean(false),
        }
    }

    pub fn operation(&mut self, operation: &HirOperation) -> (expr: JsExpression)
        requires
            js_supported(crate::hir::ir::expr::SpecExpression::Operation(Box::new(crate::hir::ir::expr::operation_view(*operation)))),
        ensures
            expr@ == js_expression(crate::hir::ir::expr::SpecExpression::Operation(Box::new(crate::hir::ir::expr::operation_view(*operation)))),
        decreases operation,
    {
        let js_operation_result = match operation {
            HirOperation::Add(left, right) => JsOperation::Add(self.statement(left).into(), self.statement(right).into()),
            HirOperation::Subtract(left, right) => JsOperation::Subtract(self.statement(left).into(), self.statement(right).into()),
            HirOperation::Multiply(left, right) => JsOperation::Multiply(self.statement(left).into(), self.statement(right).into()),
            HirOperation::Not(term) => JsOperation::Not(self.statement(term).into()),
            HirOperation::BitNot(term) => JsOperation::BitNot(self.statement(term).into()),
            HirOperation::Negative(term) => JsOperation::Negative(self.statement(term).into()),
            HirOperation::FunctionCall(term, arguments) => {
                let callee: JsExpression = self.statement(term).into();
                let js_arguments = self.arguments(arguments);
                JsOperation::FunctionCall(callee, js_arguments)
            },
            HirOperation::MemberAccess(left, right) => JsOperation::MemberAccess(self.statement(left).into(), self.statement(right).into()),
            HirOperation::Path(path) => return JsExpression::Identifier(self.path(path)),
            HirOperation::Group(term) => JsOperation::Group(self.statement(term).into()),
            _ => return JsExpression::Identifier(String::new()),
        };
        JsExpression::Operation(Box::new(js_operation_result))
    }

    /// Translates each argument of a call in turn.
    fn arguments(&mut self, arguments: &Vec<HirExpression>) -> (js_arguments: Vec<JsExpression>)
        requires
            all_js_supported(exprs_view(arguments@)),
        ensures
            js_expressions_view(js_arguments@) == js_expressions(exprs_view(arguments@)),
        decreases arguments@,
    {
        let ghost args = exprs_view(arguments@);
        proof {
            lemma_exprs_view(arguments@);
            lemma_all_js_supported(args);
            lemma_js_expressions(args);
        }
        let mut js_arguments: Vec<JsExpression> = Vec::new();
        let mut k: usize = 0;
        while k < arguments.len()
            invariant
                k <= arguments.len(),
                js_arguments.len() == k,
                args == exprs_view(arguments@),
                args.len() == arguments.len(),
                forall|j: int| 0 <= j < args.len() ==> #[trigger] args[j] == arguments@[j]@,
                forall|j: int| 0 <= j < args.len() ==> js_supported(#[trigger] args[j]),
                forall|j: int| 0 <= j < args.len() ==> #[trigger] js_expressions(args)[j] == js_expression(args[j]),
                js_expressions(args).len() == args.len(),
                forall|j: int| 0 <= j < k ==> #[trigger] js_arguments@[j]@ == js_expression(args[j]),
            decreases arguments.len() - k,
        {
            assert(js_supported(args[k as int]));
            proof {
                assert(decreases_to!(arguments@ => arguments@[k as int]));
            }
            let argument: JsExpression = self.statement(&arguments[k]).into();
            js_arguments.push(argument);
            k += 1;
        }
        proof {
            lemma_js_expressions_view(js_arguments@);
            assert(js_expressions_view(js_arguments@) =~= js_expressions(args));
        }
        js_arguments
    }

    pub fn path(&mut self, path: &HirPath) -> (name: String)
        requires
            path is Resolved,
        ensures
            name@ == path_name(path->Resolved_0),
    {
        match path {
            HirPath::Resolved(index) => {
                let mut name = String::new();
                push_char(&mut name, 'f');
                push_char(&mut name, '_');
                push_decimal(&mut name, index.0);
                assert(name@ =~= path_name(*index));
                name
            },
            HirPath::Unresolved(_) => String::new(),
        }
    }
}


/// JavaScript generation keeps the shape of every operation it supports: each operator
/// becomes the JavaScript operator of the same meaning, over the operands in the same
/// order (left operand on the left), and a call keeps its arguments in order.
pub proof fn lemma_js_keeps_operations(
    l: SpecExpression,
    r: SpecExpression,
    args: Seq<SpecExpression>,
)
    ensures
        js_expression(SpecExpression::Operation(Box::new(SpecOperation::Add(l, r))))
            == SpecJsExpression::Operation(Box::new(SpecJsOperation::Add(js_expression(l), js_expression(r)))),
        js_expression(SpecExpression::Operation(Box::new(SpecOperation::Subtract(l, r))))
            == SpecJsExpression::Operation(Box::new(SpecJsOperation::Subtract(js_expression(l), js_expression(r)))),
        js_expression(SpecExpression::Operation(Box::new(SpecOperation::Multiply(l, r))))
            == SpecJsExpression::Operation(Box::new(SpecJsOperation::Multiply(js_expression(l), js_expression(r)))),
        js_expression(SpecExpression::Operation(Box::new(SpecOperation::MemberAccess(l, r))))
            == SpecJsExpression::Operation(Box::new(SpecJsOperation::MemberAccess(js_expression(l), js_expression(r)))),
        js_expression(SpecExpression::Operation(Box::new(SpecOperation::Not(l))))
            == SpecJsExpression::Operation(Box::new(SpecJsOperation::Not(js_expression(l)))),
        js_expression(SpecExpression::Operation(Box::new(SpecOperation::BitNot(l))))
            == SpecJsExpression::Operation(Box::new(SpecJsOperation::BitNot(js_expression(l)))),
        js_expression(SpecExpression::Operation(Box::new(SpecOperation::Negative(l))))
            == SpecJsExpression::Operation(Box::new(SpecJsOperation::Negative(js_expression(l)))),
        js_expression(SpecExpression::Operation(Box::new(SpecOperation::Group(l))))
            == SpecJsExpression::Operation(Box::new(SpecJsOperation::Group(js_expression(l)))),
        js_expression(SpecExpression::Operation(Box::new(SpecOperation::FunctionCall(l, args)))) matches
            SpecJsExpression::Operation(op) && *op matches SpecJsOperation::FunctionCall(callee, js_args)
            && callee == js_expression(l) && js_args.len() == args.len()
            && forall|i: int| 0 <= i < args.len() ==> #[trigger] js_args[i] == js_expression(args[i]),
{
    lemma_js_expressions(args);
}

} // verus!
