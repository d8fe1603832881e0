use vstd::prelude::*;
use crate::hir::{HirIdentifier, HirIdentifierBinding};
use crate::hir::ir::path::{HirPath, SpecPath};

verus! {

#[derive(Debug, PartialEq)]
pub enum HirExpression {
    Operation(Box<HirOperation>),
    Literal(HirLiteral),
    Identifier(HirIdentifier),
    DataType(HirDataType),
}

#[derive(Clone, Debug, PartialEq)]
pub enum HirLiteral {
    Boolean(bool),
    Integer(HirIntegerLiteral),
    Float(HirFloatLiteral),
    String(String),
    SelfValue,
    NoneValue,
}

#[derive(Clone, Debug, PartialEq)]
pub enum HirIntegerBase {
    Binary,
    Octal,
    Decimal,
    Hexadecimal,
}

#[derive(Clone, Debug, PartialEq)]
pub struct HirIntegerLiteral {
    pub data_type: Option<HirPrimitiveDataType>,
    pub base: HirIntegerBase,
    pub value: String,
    pub exponent: Option<HirIntegerExponent>,
}

#[derive(Clone, Debug, PartialEq)]
pub struct HirIntegerExponent {
    pub positive: bool,
    pub value: String,
}

#[derive(Clone, Debug, PartialEq)]
pub struct HirFloatLiteral {
    pub data_type: Option<HirPrimitiveDataType>,
    pub value: String,
}

#[derive(Debug, PartialEq)]
pub enum HirOperation {
    Substitute(HirExpression, HirExpression),
    Add(HirExpression, HirExpression),
    Subtract(HirExpression, HirExpression),
    Multiply(HirExpression, HirExpression),
    Not(HirExpression),
    BitNot(HirExpression),
    Negative(HirExpression),
    Nonnize(HirExpression),
    Propagate(HirExpression),
    FunctionCall(HirExpression, Vec<HirExpression>),
    MemberAccess(HirExpression, HirExpression),
    Path(HirPath),
    Group(HirExpression),
}

/// A flat sequence of operators and terms, in source order or in postfix order.
pub type HirOperationSequence = Vec<HirOperationToken>;

#[derive(Debug, PartialEq)]
pub enum HirOperationToken {
    Operator(HirOperator),
    Term(HirExpression),
}

#[derive(Debug, PartialEq)]
pub enum HirOperator {
    Substitute,
    Add,
    Subtract,
    Multiply,
    Not,
    BitNot,
    Negative,
    Nonnize,
    Propagate,
    FunctionCall(Vec<HirExpression>),
    MemberAccess,
    Path,
    GroupBegin,
    GroupEnd,
}

#[derive(Debug, PartialEq)]
pub enum HirDataType {
    Primitive(HirPrimitiveDataType),
    Generic(HirIdentifierBinding<HirGenericDataType>),
    Identifier(HirIdentifier),
}

#[derive(Clone, Debug, PartialEq)]
pub enum HirPrimitiveDataType {
    Boolean,
    S8,
    S16,
    S32,
    S64,
    Ssize,
    U8,
    U16,
    U32,
    U64,
    Usize,
    F32,
    F64,
    Character,
    String,
    SelfType,
    NoneType,
}

#[derive(Debug, PartialEq)]
pub struct HirGenericDataType {
    pub arguments: Vec<HirDataType>,
}

} // verus!

verus! {

// The mathematical model of expressions: the same shapes, with sequences in
// place of vectors and character sequences in place of strings.

pub enum SpecExpression {
    Operation(Box<SpecOperation>),
    Literal(SpecLiteral),
    Identifier(Seq<char>),
    DataType(SpecDataType),
}

pub enum SpecLiteral {
    Boolean(bool),
    Integer(SpecIntegerLiteral),
    Float(SpecFloatLiteral),
    String(Seq<char>),
    SelfValue,
    NoneValue,
}

pub struct SpecIntegerLiteral {
    pub data_type: Option<HirPrimitiveDataType>,
    pub base: HirIntegerBase,
    pub value: Seq<char>,
    pub exponent: Option<SpecIntegerExponent>,
}

pub struct SpecIntegerExponent {
    pub positive: bool,
    pub value: Seq<char>,
}

pub struct SpecFloatLiteral {
    pub data_type: Option<HirPrimitiveDataType>,
    pub value: Seq<char>,
}

pub enum SpecOperation {
    Substitute(SpecExpression, SpecExpression),
    Add(SpecExpression, SpecExpression),
    Subtract(SpecExpression, SpecExpression),
    Multiply(SpecExpression, SpecExpression),
    Not(SpecExpression),
    BitNot(SpecExpression),
    Negative(SpecExpression),
    Nonnize(SpecExpression),
    Propagate(SpecExpression),
    FunctionCall(SpecExpression, Seq<SpecExpression>),
    MemberAccess(SpecExpression, SpecExpression),
    Path(SpecPath),
    Group(SpecExpression),
}

pub enum SpecToken {
    Operator(SpecOperator),
    Term(SpecExpression),
}

pub enum SpecOperator {
    Substitute,
    Add,
    Subtract,
    Multiply,
    Not,
    BitNot,
    Negative,
    Nonnize,
    Propagate,
    FunctionCall(Seq<SpecExpression>),
    MemberAccess,
    Path,
    GroupBegin,
    GroupEnd,
}

pub enum SpecDataType {
    Primitive(HirPrimitiveDataType),
    Generic(Seq<char>, Seq<SpecDataType>),
    Identifier(Seq<char>),
}

pub open spec fn expr_view(e: HirExpression) -> SpecExpression
    decreases e,
{
    match e {
        HirExpression::Operation(op) => SpecExpression::Operation(Box::new(operation_view(*op))),
        HirExpression::Literal(l) => SpecExpression::Literal(literal_view(l)),
        HirExpression::Identifier(id) => SpecExpression::Identifier(id@),
        HirExpression::DataType(d) => SpecExpression::DataType(data_type_view(d)),
    }
}

pub open spec fn operation_view(op: HirOperation) -> SpecOperation
    decreases op,
{
    match op {
        HirOperation::Substitute(l, r) => SpecOperation::Substitute(expr_view(l), expr_view(r)),
        HirOperation::Add(l, r) => SpecOperation::Add(expr_view(l), expr_view(r)),
        HirOperation::Subtract(l, r) => SpecOperation::Subtract(expr_view(l), expr_view(r)),
        HirOperation::Multiply(l, r) => SpecOperation::Multiply(expr_view(l), expr_view(r)),
        HirOperation::Not(t) => SpecOperation::Not(expr_view(t)),
        HirOperation::BitNot(t) => SpecOperation::BitNot(expr_view(t)),
        HirOperation::Negative(t) => SpecOperation::Negative(expr_view(t)),
        HirOperation::Nonnize(t) => SpecOperation::Nonnize(expr_view(t)),
        HirOperation::Propagate(t) => SpecOperation::Propagate(expr_view(t)),
        HirOperation::FunctionCall(t, args) => SpecOperation::FunctionCall(expr_view(t), exprs_view(args@)),
        HirOperation::MemberAccess(l, r) => SpecOperation::MemberAccess(expr_view(l), expr_view(r)),
        HirOperation::Path(p) => SpecOperation::Path(p@),
        HirOperation::Group(t) => SpecOperation::Group(expr_view(t)),
    }
}

pub open spec fn exprs_view(s: Seq<HirExpression>) -> Seq<SpecExpression>
    decreases s,
{
    if s.len() == 0 {
        Seq::empty()
    } else {
        seq![expr_view(s[0])] + exprs_view(s.subrange(1, s.len() as int))
    }
}

pub open spec fn literal_view(l: HirLiteral) -> SpecLiteral {
    match l {
        HirLiteral::Boolean(b) => SpecLiteral::Boolean(b),
        HirLiteral::Integer(i) => SpecLiteral::Integer(SpecIntegerLiteral {
            data_type: i.data_type,
            base: i.base,
            value: i.value@,
            exponent: match i.exponent {
                Some(x) => Some(SpecIntegerExponent { positive: x.positive, value: x.value@ }),
                None => None,
            },
        }),
        HirLiteral::Float(f) => SpecLiteral::Float(SpecFloatLiteral { data_type: f.data_type, value: f.value@ }),
        HirLiteral::String(s) => SpecLiteral::String(s@),
        HirLiteral::SelfValue => SpecLiteral::SelfValue,
        HirLiteral::NoneValue => SpecLiteral::NoneValue,
    }
}

pub open spec fn data_type_view(d: HirDataType) -> SpecDataType
    decreases d,
{
    match d {
        HirDataType::Primitive(p) => SpecDataType::Primitive(p),
        HirDataType::Generic(binding) => SpecDataType::Generic(binding.0@, data_types_view(binding.1.arguments@)),
        HirDataType::Identifier(id) => SpecDataType::Identifier(id@),
    }
}

pub open spec fn data_types_view(s: Seq<HirDataType>) -> Seq<SpecDataType>
    decreases s,
{
    if s.len() == 0 {
        Seq::empty()
    } else {
        seq![data_type_view(s[0])] + data_types_view(s.subrange(1, s.len() as int))
    }
}

pub open spec fn operator_view(op: HirOperator) -> SpecOperator {
    match op {
        HirOperator::Substitute => SpecOperator::Substitute,
        HirOperator::Add => SpecOperator::Add,
        HirOperator::Subtract => SpecOperator::Subtract,
        HirOperator::Multiply => SpecOperator::Multiply,
        HirOperator::Not => SpecOperator::Not,
        HirOperator::BitNot => SpecOperator::BitNot,
        HirOperator::Negative => SpecOperator::Negative,
        HirOperator::Nonnize => SpecOperator::Nonnize,
        HirOperator::Propagate => SpecOperator::Propagate,
        HirOperator::FunctionCall(args) => SpecOperator::FunctionCall(exprs_view(args@)),
        HirOperator::MemberAccess => SpecOperator::MemberAccess,
        HirOperator::Path => SpecOperator::Path,
        HirOperator::GroupBegin => SpecOperator::GroupBegin,
        HirOperator::GroupEnd => SpecOperator::GroupEnd,
    }
}

pub open spec fn token_view(t: HirOperationToken) -> SpecToken {
    match t {
        HirOperationToken::Operator(op) => SpecToken::Operator(operator_view(op)),
        HirOperationToken::Term(e) => SpecToken::Term(expr_view(e)),
    }
}

pub open spec fn tokens_view(s: Seq<HirOperationToken>) -> Seq<SpecToken> {
    s.map_values(|t: HirOperationToken| token_view(t))
}

impl View for HirExpression {
    type V = SpecExpression;

    open spec fn view(&self) -> SpecExpression {
        expr_view(*self)
    }
}

impl View for HirDataType {
    type V = SpecDataType;

    open spec fn view(&self) -> SpecDataType {
        data_type_view(*self)
    }
}

impl View for HirLiteral {
    type V = SpecLiteral;

    open spec fn view(&self) -> SpecLiteral {
        literal_view(*self)
    }
}

} // verus!

verus! {

pub proof fn lemma_exprs_view(s: Seq<HirExpression>)
    ensures
        exprs_view(s).len() == s.len(),
        forall|j: int| 0 <= j < s.len() ==> #[trigger] exprs_view(s)[j] == s[j]@,
    decreases s.len(),
{
    if s.len() > 0 {
        lemma_exprs_view(s.subrange(1, s.len() as int));
    }
}

pub proof fn lemma_data_types_view(s: Seq<HirDataType>)
    ensures
        data_types_view(s).len() == s.len(),
        forall|j: int| 0 <= j < s.len() ==> #[trigger] data_types_view(s)[j] == s[j]@,
    decreases s.len(),
{
    if s.len() > 0 {
        lemma_data_types_view(s.subrange(1, s.len() as int));
    }
}


// ----- copies -----

fn copy_primitive(p: &HirPrimitiveDataType) -> (c: HirPrimitiveDataType)
    ensures
        c == *p,
{
    match p {
        HirPrimitiveDataType::Boolean => HirPrimitiveDataType::Boolean,
        HirPrimitiveDataType::S8 => HirPrimitiveDataType::S8,
        HirPrimitiveDataType::S16 => HirPrimitiveDataType::S16,
        HirPrimitiveDataType::S32 => HirPrimitiveDataType::S32,
        HirPrimitiveDataType::S64 => HirPrimitiveDataType::S64,
        HirPrimitiveDataType::Ssize => HirPrimitiveDataType::Ssize,
        HirPrimitiveDataType::U8 => HirPrimitiveDataType::U8,
        HirPrimitiveDataType::U16 => HirPrimitiveDataType::U16,
        HirPrimitiveDataType::U32 => HirPrimitiveDataType::U32,
        HirPrimitiveDataType::U64 => HirPrimitiveDataType::U64,
        HirPrimitiveDataType::Usize => HirPrimitiveDataType::Usize,
        HirPrimitiveDataType::F32 => HirPrimitiveDataType::F32,
        HirPrimitiveDataType::F64 => HirPrimitiveDataType::F64,
        HirPrimitiveDataType::Character => HirPrimitiveDataType::Character,
        HirPrimitiveDataType::String => HirPrimitiveDataType::String,
        HirPrimitiveDataType::SelfType => HirPrimitiveDataType::SelfType,
        HirPrimitiveDataType::NoneType => HirPrimitiveDataType::NoneType,
    }
}

fn copy_optional_primitive(p: &Option<HirPrimitiveDataType>) -> (c: Option<HirPrimitiveDataType>)
    ensures
        c == *p,
{
    match p {
        Some(x) => Some(copy_primitive(x)),
        None => None,
    }
}

fn copy_base(b: &HirIntegerBase) -> (c: HirIntegerBase)
    ensures
        c == *b,
{
    match b {
        HirIntegerBase::Binary => HirIntegerBase::Binary,
        HirIntegerBase::Octal => HirIntegerBase::Octal,
        HirIntegerBase::Decimal => HirIntegerBase::Decimal,
        HirIntegerBase::Hexadecimal => HirIntegerBase::Hexadecimal,
    }
}

fn copy_literal(l: &HirLiteral) -> (c: HirLiteral)
    ensures
        literal_view(c) == literal_view(*l),
{
    match l {
        HirLiteral::Boolean(b) => HirLiteral::Boolean(*b),
        HirLiteral::Integer(i) => HirLiteral::Integer(HirIntegerLiteral {
            data_type: copy_optional_primitive(&i.data_type),
            base: copy_base(&i.base),
            value: i.value.clone(),
            exponent: match &i.exponent {
                Some(x) => Some(HirIntegerExponent { positive: x.positive, value: x.value.clone() }),
                None => None,
            },
        }),
        HirLiteral::Float(f) => HirLiteral::Float(HirFloatLiteral {
            data_type: copy_optional_primitive(&f.data_type),
            value: f.value.clone(),
        }),
        HirLiteral::String(t) => HirLiteral::String(t.clone()),
        HirLiteral::SelfValue => HirLiteral::SelfValue,
        HirLiteral::NoneValue => HirLiteral::NoneValue,
    }
}

fn copy_path(p: &HirPath) -> (c: HirPath)
    ensures
        c@ == p@,
{
    match p {
        HirPath::Resolved(i) => HirPath::Resolved(*i),
        HirPath::Unresolved(segments) => {
            let mut copy: Vec<HirIdentifier> = Vec::new();
            let mut i: usize = 0;
            while i < segments.len()
                invariant
                    i <= segments.len(),
                    copy@ == segments@.take(i as int),
                decreases segments.len() - i,
            {
                copy.push(segments[i].duplicate());
                i += 1;
                assert(copy@ =~= segments@.take(i as int));
            }
            assert(segments@.take(i as int) =~= segments@);
            HirPath::Unresolved(copy)
        },
    }
}

fn copy_expressions(v: &Vec<HirExpression>) -> (c: Vec<HirExpression>)
    ensures
        exprs_view(c@) == exprs_view(v@),
    decreases v@,
{
    let mut copy: Vec<HirExpression> = Vec::new();
    let mut i: usize = 0;
    proof {
        lemma_exprs_view(v@);
    }
    while i < v.len()
        invariant
            i <= v.len(),
            copy.len() == i,
            forall|j: int| 0 <= j < i ==> #[trigger] copy@[j]@ == v@[j]@,
        decreases v.len() - i,
    {
        proof {
            assert(decreases_to!(v@ => v@[i as int]));
        }
        copy.push(v[i].clone());
        i += 1;
    }
    proof {
        lemma_exprs_view(copy@);
        assert(exprs_view(copy@) =~= exprs_view(v@));
    }
    copy
}

fn copy_data_types(v: &Vec<HirDataType>) -> (c: Vec<HirDataType>)
    ensures
        data_types_view(c@) == data_types_view(v@),
    decreases v@,
{
    let mut copy: Vec<HirDataType> = Vec::new();
    let mut i: usize = 0;
    proof {
        lemma_data_types_view(v@);
    }
    while i < v.len()
        invariant
            i <= v.len(),
            copy.len() == i,
            forall|j: int| 0 <= j < i ==> #[trigger] copy@[j]@ == v@[j]@,
        decreases v.len() - i,
    {
        proof {
            assert(decreases_to!(v@ => v@[i as int]));
        }
        copy.push(v[i].clone());
        i += 1;
    }
    proof {
        lemma_data_types_view(copy@);
        assert(data_types_view(copy@) =~= data_types_view(v@));
    }
    copy
}

impl Clone for HirExpression {
    /// A copy with the same model.
    fn clone(&self) -> (copy: HirExpression)
        ensures
            copy@ == self@,
        decreases self,
    {
        match self {
            HirExpression::Operation(op) => HirExpression::Operation(Box::new((**op).clone())),
            HirExpression::Literal(l) => HirExpression::Literal(copy_literal(l)),
            HirExpression::Identifier(id) => HirExpression::Identifier(id.duplicate()),
            HirExpression::DataType(d) => HirExpression::DataType(d.clone()),
        }
    }
}

impl Clone for HirOperation {
    /// A copy with the same model.
    fn clone(&self) -> (copy: HirOperation)
        ensures
            operation_view(copy) == operation_view(*self),
        decreases self,
    {
        match self {
            HirOperation::Substitute(l, r) => HirOperation::Substitute(l.clone(), r.clone()),
            HirOperation::Add(l, r) => HirOperation::Add(l.clone(), r.clone()),
            HirOperation::Subtract(l, r) => HirOperation::Subtract(l.clone(), r.clone()),
            HirOperation::Multiply(l, r) => HirOperation::Multiply(l.clone(), r.clone()),
            HirOperation::Not(t) => HirOperation::Not(t.clone()),
            HirOperation::BitNot(t) => HirOperation::BitNot(t.clone()),
            HirOperation::Negative(t) => HirOperation::Negative(t.clone()),
            HirOperation::Nonnize(t) => HirOperation::Nonnize(t.clone()),
            HirOperation::Propagate(t) => HirOperation::Propagate(t.clone()),
            HirOperation::FunctionCall(t, args) => {
                proof {
                    assert(decreases_to!(self => args));
                }
                HirOperation::FunctionCall(t.clone(), copy_expressions(args))
            },
            HirOperation::MemberAccess(l, r) => HirOperation::MemberAccess(l.clone(), r.clone()),
            HirOperation::Path(p) => HirOperation::Path(copy_path(p)),
            HirOperation::Group(t) => HirOperation::Group(t.clone()),
        }
    }
}

impl Clone for HirOperator {
    /// A copy with the same model.
    fn clone(&self) -> (copy: HirOperator)
        ensures
            operator_view(copy) == operator_view(*self),
    {
        match self {
            HirOperator::Substitute => HirOperator::Substitute,
            HirOperator::Add => HirOperator::Add,
            HirOperator::Subtract => HirOperator::Subtract,
            HirOperator::Multiply => HirOperator::Multiply,
            HirOperator::Not => HirOperator::Not,
            HirOperator::BitNot => HirOperator::BitNot,
            HirOperator::Negative => HirOperator::Negative,
            HirOperator::Nonnize => HirOperator::Nonnize,
            HirOperator::Propagate => HirOperator::Propagate,
            HirOperator::FunctionCall(args) => HirOperator::FunctionCall(copy_expressions(args)),
            HirOperator::MemberAccess => HirOperator::MemberAccess,
            HirOperator::Path => HirOperator::Path,
            HirOperator::GroupBegin => HirOperator::GroupBegin,
            HirOperator::GroupEnd => HirOperator::GroupEnd,
        }
    }
}

impl Clone for HirOperationToken {
    /// A copy with the same model.
    fn clone(&self) -> (copy: HirOperationToken)
        ensures
            token_view(copy) == token_view(*self),
    {
        match self {
            HirOperationToken::Operator(op) => HirOperationToken::Operator(op.clone()),
            HirOperationToken::Term(e) => HirOperationToken::Term(e.clone()),
        }
    }
}

impl Clone for HirDataType {
    /// A copy with the same model.
    fn clone(&self) -> (copy: HirDataType)
        ensures
            copy@ == self@,
        decreases self,
    {
        match self {
            HirDataType::Primitive(p) => HirDataType::Primitive(copy_primitive(p)),
            HirDataType::Generic(binding) => {
                proof {
                    assert(decreases_to!(self => binding.1));
                }
                HirDataType::Generic(HirIdentifierBinding::new(binding.0.duplicate(), binding.1.clone()))
            },
            HirDataType::Identifier(id) => HirDataType::Identifier(id.duplicate()),
        }
    }
}

impl Clone for HirGenericDataType {
    /// A copy whose arguments have the same models.
    fn clone(&self) -> (copy: HirGenericDataType)
        ensures
            data_types_view(copy.arguments@) == data_types_view(self.arguments@),
        decreases self,
    {
        proof {
            assert(decreases_to!(self => self.arguments));
        }
        HirGenericDataType { arguments: copy_data_types(&self.arguments) }
    }
}

} // verus!
