use vstd::prelude::*;
use vstd::string::StringExecFns;
use crate::js::ir::Js;
use crate::js::ir::item::{JsFunction, JsItem, SpecJsFunction, SpecJsItem};
use crate::js::ir::stmt::{JsExpression, JsLiteral, JsStatement, SpecJsExpression, SpecJsLiteral, SpecJsStatement};

verus! {

/// The list joined with `sep` between each two neighbours.
pub open spec fn join(list: Seq<Seq<char>>, sep: Seq<char>) -> Seq<char>
    decreases list.len(),
{
    if list.len() == 0 {
        Seq::empty()
    } else if list.len() == 1 {
        list[0]
    } else {
        join(list.drop_last(), sep) + sep + list.last()
    }
}

/// The source text of a literal.
pub open spec fn literal_code(l: SpecJsLiteral) -> Seq<char> {
    match l {
        SpecJsLiteral::Boolean(b) => if b { "true"@ } else { "false"@ },
        SpecJsLiteral::Integer(s) => s,
    }
}

/// The expressions that have a source text: literals.
pub open spec fn has_code(e: SpecJsExpression) -> bool {
    e is Literal
}

pub open spec fn expression_code(e: SpecJsExpression) -> Seq<char>
    recommends
        has_code(e),
{
    match e {
        SpecJsExpression::Literal(l) => literal_code(l),
        _ => Seq::empty(),
    }
}

pub open spec fn statement_code(s: SpecJsStatement) -> Seq<char> {
    match s {
        SpecJsStatement::Expression(e) => expression_code(e),
    }
}

pub open spec fn statement_has_code(s: SpecJsStatement) -> bool {
    match s {
        SpecJsStatement::Expression(e) => has_code(e),
    }
}

/// `function id(a,b){s1;s2}`
pub open spec fn function_code(f: SpecJsFunction) -> Seq<char> {
    "function "@ + f.id + "("@ + join(f.arguments, ","@) + "){"@
        + join(f.statements.map_values(|s: SpecJsStatement| statement_code(s)), ";"@) + "}"@
}

pub open spec fn function_has_code(f: SpecJsFunction) -> bool {
    forall|i: int| 0 <= i < f.statements.len() ==> statement_has_code(#[trigger] f.statements[i])
}

pub open spec fn item_code(i: SpecJsItem) -> Seq<char> {
    match i {
        SpecJsItem::Function(f) => function_code(f),
    }
}

pub open spec fn item_has_code(i: SpecJsItem) -> bool {
    match i {
        SpecJsItem::Function(f) => function_has_code(f),
    }
}

/// The source text of a program: its items one after another.
pub open spec fn program_code(items: Seq<SpecJsItem>) -> Seq<char> {
    join(items.map_values(|i: SpecJsItem| item_code(i)), Seq::empty())
}

pub proof fn lemma_join_step(list: Seq<Seq<char>>, sep: Seq<char>, i: int)
    requires
        0 <= i < list.len(),
    ensures
        join(list.take(i + 1), sep) == if i == 0 {
            list[0]
        } else {
            join(list.take(i), sep) + sep + list[i]
        },
{
    assert(list.take(i + 1).drop_last() =~= list.take(i));
    if i == 0 {
        assert(list.take(1).len() == 1);
    }
}

/// Joining without a separator is concatenation: the join of two lists one after the
/// other is the join of the first followed by the join of the second.
pub proof fn lemma_join_concat(a: Seq<Seq<char>>, b: Seq<Seq<char>>)
    ensures
        join(a + b, Seq::empty()) == join(a, Seq::empty()) + join(b, Seq::empty()),
    decreases b.len(),
{
    let e = Seq::<char>::empty();
    if b.len() == 0 {
        assert(a + b =~= a);
        assert(join(a, e) + Seq::<char>::empty() =~= join(a, e));
    } else {
        let ab = a + b;
        lemma_join_concat(a, b.drop_last());
        assert(ab.drop_last() =~= a + b.drop_last());
        assert(ab.last() == b.last());
        if b.len() == 1 {
            assert(b.drop_last() =~= Seq::<Seq<char>>::empty());
            assert(join(b, e) == b[0]);
            if a.len() == 0 {
                assert(ab =~= b);
            } else {
                assert(join(ab, e) == join(ab.drop_last(), e) + e + ab.last());
                assert(join(a, e) + Seq::<char>::empty() =~= join(a, e));
                assert(join(ab, e) =~= join(a, e) + join(b, e));
            }
        } else {
            assert(join(ab, e) == join(ab.drop_last(), e) + e + ab.last());
            assert(join(b, e) == join(b.drop_last(), e) + e + b.last());
            assert(join(ab, e) =~= join(a, e) + join(b, e));
        }
    }
}

/// The code of a program of two parts is the code of the first part followed by
/// the code of the second.
pub proof fn lemma_program_code_concat(a: Seq<SpecJsItem>, b: Seq<SpecJsItem>)
    ensures
        program_code(a + b) == program_code(a) + program_code(b),
{
    let f = |i: SpecJsItem| item_code(i);
    assert((a + b).map_values(f) =~= a.map_values(f) + b.map_values(f));
    lemma_join_concat(a.map_values(f), b.map_values(f));
}

/// Writes JavaScript source text.
pub struct JsCodeGenerator {}

impl JsCodeGenerator {
    pub fn generate(js: &Js) -> (code: String)
        requires
            forall|i: int| 0 <= i < js@.len() ==> item_has_code(#[trigger] js@[i]),
        ensures
            code@ == program_code(js@),
    {
        let ghost codes = js@.map_values(|i: SpecJsItem| item_code(i));
        let mut code = String::new();
        let mut i: usize = 0;
        assert(codes.take(0) =~= Seq::<Seq<char>>::empty());
        while i < js.items.len()
            invariant
                i <= js.items.len(),
                codes == js@.map_values(|i: SpecJsItem| item_code(i)),
                js@.len() == js.items.len(),
                forall|k: int| 0 <= k < js@.len() ==> item_has_code(#[trigger] js@[k]),
                code@ == join(codes.take(i as int), Seq::empty()),
            decreases js.items.len() - i,
        {
            assert(js@[i as int] == js.items@[i as int]@);
            let item_code_text = JsCodeGenerator::item(&js.items[i]);
            proof {
                lemma_join_step(codes, Seq::empty(), i as int);
                assert(codes[i as int] == item_code(js@[i as int]));
            }
            if i != 0 {
                assert(join(codes.take(i as int), Seq::empty()) + Seq::<char>::empty() =~= join(codes.take(i as int), Seq::empty()));
            }
            code.append(item_code_text.as_str());
            i += 1;
        }
        assert(codes.take(i as int) =~= codes);
        code
    }

    pub fn item(item: &JsItem) -> (code: String)
        requires
            item_has_code(item@),
        ensures
            code@ == item_code(item@),
    {
        match item {
            JsItem::Function(function) => JsCodeGenerator::function(function),
        }
    }

    pub fn function(function: &JsFunction) -> (code: String)
        requires
            function_has_code(function@),
        ensures
            code@ == function_code(function@),
    {
        let ghost f = function@;
        let mut code = String::from_str("function ");
        code.append(function.id.as_str());
        code.append("(");
        let ghost head = code@;
        let mut i: usize = 0;
        assert(f.arguments.take(0) =~= Seq::<Seq<char>>::empty());
        assert(head + Seq::<char>::empty() =~= head);
        while i < function.arguments.len()
            invariant
                i <= function.arguments.len(),
                f == function@,
                f.arguments.len() == function.arguments.len(),
                code@ == head + join(f.arguments.take(i as int), ","@),
            decreases function.arguments.len() - i,
        {
            proof {
                lemma_join_step(f.arguments, ","@, i as int);
            }
            if i != 0 {
                code.append(",");
            }
            code.append(function.arguments[i].as_str());
            proof {
                assert(f.arguments[i as int] == function.arguments@[i as int]@);
                if i != 0 {
                    assert(code@ =~= head + join(f.arguments.take(i + 1), ","@));
                } else {
                    assert(code@ =~= head + join(f.arguments.take(i + 1), ","@));
                }
            }
            i += 1;
        }
        assert(f.arguments.take(i as int) =~= f.arguments);
        code.append("){");
        let ghost middle = code@;
        let ghost codes = f.statements.map_values(|s: SpecJsStatement| statement_code(s));
        let mut j: usize = 0;
        assert(codes.take(0) =~= Seq::<Seq<char>>::empty());
        assert(middle + Seq::<char>::empty() =~= middle);
        while j < function.statements.len()
            invariant
                j <= function.statements.len(),
                f == function@,
                f.statements.len() == function.statements.len(),
                codes == f.statements.map_values(|s: SpecJsStatement| statement_code(s)),
                function_has_code(f),
                code@ == middle + join(codes.take(j as int), ";"@),
            decreases function.statements.len() - j,
        {
            proof {
                lemma_join_step(codes, ";"@, j as int);
                assert(f.statements[j as int] == function.statements@[j as int]@);
                assert(statement_has_code(f.statements[j as int]));
            }
            if j != 0 {
                code.append(";");
            }
            let statement_code_text = JsCodeGenerator::statement(&function.statements[j]);
            code.append(statement_code_text.as_str());
            proof {
                assert(code@ =~= middle + join(codes.take(j + 1), ";"@));
            }
            j += 1;
        }
        assert(codes.take(j as int) =~= codes);
        code.append("}");
        code
    }

    pub fn statement(statement: &JsStatement) -> (code: String)
        requires
            statement_has_code(statement@),
        ensures
            code@ == statement_code(statement@),
    {
        match statement {
            JsStatement::Expression(expr) => JsCodeGenerator::expression(expr),
        }
    }

    pub fn expression(expression: &JsExpression) -> (code: String)
        requires
            has_code(expression@),
        ensures
            code@ == expression_code(expression@),
    {
        match expression {
            JsExpression::Literal(literal) => JsCodeGenerator::literal(literal),
            _ => String::new(),
        }
    }

    pub fn literal(literal: &JsLiteral) -> (code: String)
        ensures
            code@ == literal_code(literal@),
    {
        match literal {
            JsLiteral::Boolean(boolean) => if *boolean {
                String::from_str("true")
            } else {
                String::from_str("false")
            },
            JsLiteral::Integer(integer) => integer.clone(),
        }
    }
}

} // verus!
