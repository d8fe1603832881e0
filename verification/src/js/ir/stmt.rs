use vstd::prelude::*;

verus! {

#[derive(Clone, Debug, PartialEq)]
pub enum JsStatement {
    Expression(JsExpression),
}

impl From<JsStatement> for JsExpression {
    /// The expression of an expression statement.
    fn from(statement: JsStatement) -> (expr: JsExpression) {
        match statement {
            JsStatement::Expression(expr) => expr,
        }
    }
}

impl vstd::std_specs::convert::FromSpecImpl<JsStatement> for JsExpression {
    open spec fn obeys_from_spec() -> bool {
        true
    }

    open spec fn from_spec(statement: JsStatement) -> JsExpression {
        match statement {
            JsStatement::Expression(expr) => expr,
        }
    }
}

#[derive(Debug, PartialEq)]
pub enum JsExpression {
    Literal(JsLiteral),
    Operation(Box<JsOperation>),
    Identifier(String),
}

#[derive(Clone, Debug, PartialEq)]
pub enum JsLiteral {
    Boolean(bool),
    Integer(String),
}

#[derive(Debug, PartialEq)]
pub enum JsOperation {
    Add(JsExpression, JsExpression),
    Subtract(JsExpression, JsExpression),
    Multiply(JsExpression, JsExpression),
    Not(JsExpression),
    BitNot(JsExpression),
    Negative(JsExpression),
    FunctionCall(JsExpression, Vec<JsExpression>),
    MemberAccess(JsExpression, JsExpression),
    Group(JsExpression),
}

// The model of JavaScript expressions.

pub enum SpecJsStatement {
    Expression(SpecJsExpression),
}

pub enum SpecJsExpression {
    Literal(SpecJsLiteral),
    Operation(Box<SpecJsOperation>),
    Identifier(Seq<char>),
}

pub enum SpecJsLiteral {
    Boolean(bool),
    Integer(Seq<char>),
}

pub enum SpecJsOperation {
    Add(SpecJsExpression, SpecJsExpression),
    Subtract(SpecJsExpression, SpecJsExpression),
    Multiply(SpecJsExpression, SpecJsExpression),
    Not(SpecJsExpression),
    BitNot(SpecJsExpression),
    Negative(SpecJsExpression),
    FunctionCall(SpecJsExpression, Seq<SpecJsExpression>),
    MemberAccess(SpecJsExpression, SpecJsExpression),
    Group(SpecJsExpression),
}

pub open spec fn js_literal_view(l: JsLiteral) -> SpecJsLiteral {
    match l {
        JsLiteral::Boolean(b) => SpecJsLiteral::Boolean(b),
        JsLiteral::Integer(s) => SpecJsLiteral::Integer(s@),
    }
}

pub open spec fn js_expression_view(e: JsExpression) -> SpecJsExpression
    decreases e,
{
    match e {
        JsExpression::Literal(l) => SpecJsExpression::Literal(js_literal_view(l)),
        JsExpression::Operation(op) => SpecJsExpression::Operation(Box::new(js_operation_view(*op))),
        JsExpression::Identifier(s) => SpecJsExpression::Identifier(s@),
    }
}

pub open spec fn js_operation_view(op: JsOperation) -> SpecJsOperation
    decreases op,
{
    match op {
        JsOperation::Add(l, r) => SpecJsOperation::Add(js_expression_view(l), js_expression_view(r)),
        JsOperation::Subtract(l, r) => SpecJsOperation::Subtract(js_expression_view(l), js_expression_view(r)),
        JsOperation::Multiply(l, r) => SpecJsOperation::Multiply(js_expression_view(l), js_expression_view(r)),
        JsOperation::Not(t) => SpecJsOperation::Not(js_expression_view(t)),
        JsOperation::BitNot(t) => SpecJsOperation::BitNot(js_expression_view(t)),
        JsOperation::Negative(t) => SpecJsOperation::Negative(js_expression_view(t)),
        JsOperation::FunctionCall(t, args) => SpecJsOperation::FunctionCall(js_expression_view(t), js_expressions_view(args@)),
        JsOperation::MemberAccess(l, r) => SpecJsOperation::MemberAccess(js_expression_view(l), js_expression_view(r)),
        JsOperation::Group(t) => SpecJsOperation::Group(js_expression_view(t)),
    }
}

pub open spec fn js_expressions_view(s: Seq<JsExpression>) -> Seq<SpecJsExpression>
    decreases s,
{
    if s.len() == 0 {
        Seq::empty()
    } else {
        seq![js_expression_view(s[0])] + js_expressions_view(s.subrange(1, s.len() as int))
    }
}

pub open spec fn js_statement_view(s: JsStatement) -> SpecJsStatement {
    match s {
        JsStatement::Expression(e) => SpecJsStatement::Expression(js_expression_view(e)),
    }
}

impl View for JsStatement {
    type V = SpecJsStatement;

    open spec fn view(&self) -> SpecJsStatement {
        js_statement_view(*self)
    }
}

impl View for JsExpression {
    type V = SpecJsExpression;

    open spec fn view(&self) -> SpecJsExpression {
        js_expression_view(*self)
    }
}

impl View for JsLiteral {
    type V = SpecJsLiteral;

    open spec fn view(&self) -> SpecJsLiteral {
        js_literal_view(*self)
    }
}

pub proof fn lemma_js_expressions_view(s: Seq<JsExpression>)
    ensures
        js_expressions_view(s).len() == s.len(),
        forall|j: int| 0 <= j < s.len() ==> #[trigger] js_expressions_view(s)[j] == s[j]@,
    decreases s.len(),
{
    if s.len() > 0 {
        lemma_js_expressions_view(s.subrange(1, s.len() as int));
    }
}


// ----- copies -----

fn copy_literal(l: &JsLiteral) -> (c: JsLiteral)
    ensures
        js_literal_view(c) == js_literal_view(*l),
{
    match l {
        JsLiteral::Boolean(b) => JsLiteral::Boolean(*b),
        JsLiteral::Integer(t) => JsLiteral::Integer(t.clone()),
    }
}

fn copy_expressions(v: &Vec<JsExpression>) -> (c: Vec<JsExpression>)
    ensures
        js_expressions_view(c@) == js_expressions_view(v@),
    decreases v@,
{
    let mut copy: Vec<JsExpression> = Vec::new();
    let mut i: usize = 0;
    proof {
        lemma_js_expressions_view(v@);
    }
    while i < v.len()
        invariant
            i <= v.len(),
            copy.len() == i,
            forall|j: int| 0 <= j < i ==> #[trigger] copy@[j]@ == v@[j]@,
        decreases v.len() - i,
    {
        proof {
            assert(decreases_to!(v@ => v@[i as int]));
        }
        copy.push(v[i].clone());
        i += 1;
    }
    proof {
        lemma_js_expressions_view(copy@);
        assert(js_expressions_view(copy@) =~= js_expressions_view(v@));
    }
    copy
}

impl Clone for JsExpression {
    /// A copy with the same model.
    fn clone(&self) -> (copy: JsExpression)
        ensures
            copy@ == self@,
        decreases self,
    {
        match self {
            JsExpression::Literal(l) => JsExpression::Literal(copy_literal(l)),
            JsExpression::Operation(op) => JsExpression::Operation(Box::new((**op).clone())),
            JsExpression::Identifier(t) => JsExpression::Identifier(t.clone()),
        }
    }
}

impl Clone for JsOperation {
    /// A copy with the same model.
    fn clone(&self) -> (copy: JsOperation)
        ensures
            js_operation_view(copy) == js_operation_view(*self),
        decreases self,
    {
        match self {
            JsOperation::Add(l, r) => JsOperation::Add(l.clone(), r.clone()),
            JsOperation::Subtract(l, r) => JsOperation::Subtract(l.clone(), r.clone()),
            JsOperation::Multiply(l, r) => JsOperation::Multiply(l.clone(), r.clone()),
            JsOperation::Not(t) => JsOperation::Not(t.clone()),
            JsOperation::BitNot(t) => JsOperation::BitNot(t.clone()),
            JsOperation::Negative(t) => JsOperation::Negative(t.clone()),
            JsOperation::FunctionCall(t, args) => {
                proof {
                    assert(decreases_to!(self => args));
                }
                JsOperation::FunctionCall(t.clone(), copy_expressions(args))
            },
            JsOperation::MemberAccess(l, r) => JsOperation::MemberAccess(l.clone(), r.clone()),
            JsOperation::Group(t) => JsOperation::Group(t.clone()),
        }
    }
}

} // verus!
