use vstd::prelude::*;
use crate::ast::syntax_tree::{
    SpecChild, SpecNode, SyntaxChild, SyntaxNode, lemma_children_view, find_index, has_leaf_valued, leaf_value, leaf_values,
    lemma_find_index, lemma_leaf_values_push, lemma_nodes_of_push, nodes_of,
};
use crate::hir::{Hir, HirAccessibility, HirIdentifier, HirIdentifierBinding, HirMutability};
use crate::hir::ir::item::{HirFormalArgument, HirFunction, HirItem, SpecFormalArgument, SpecFunction, SpecItem};
use crate::hir::ir::path::{HirPath, HirPathIndex, HirPathKind, HirPathNode, SpecPathNode, HirPathIndexBinding, HirPathIndexGenerator, HirPathTree, SpecPath, segment_names};
use crate::hir::ir::expr::{
    HirDataType, HirExpression, HirFloatLiteral, HirGenericDataType, HirIntegerBase,
    HirIntegerExponent, HirIntegerLiteral, HirLiteral, HirOperationToken, HirOperator,
    HirPrimitiveDataType, SpecDataType, SpecExpression, SpecFloatLiteral, SpecIntegerExponent,
    SpecIntegerLiteral, SpecLiteral, SpecOperator, SpecToken, data_types_view, exprs_view,
    lemma_data_types_view, lemma_exprs_view, tokens_view,
};
use crate::text::{push_char, text_eq};
use crate::ast::operator::{OperationParser, spec_construct_expression, spec_into_postfix, result_view};
use crate::ast::operator_laws::lemma_postfix_defined;
use vstd::string::StringExecFns;

verus! {

// ----- the shapes of syntax nodes and what they stand for -----

/// The child at the given position, if it is a node.
pub open spec fn child_node(n: SpecNode, i: int) -> Option<SpecNode> {
    if 0 <= i < n.children.len() && n.children[i] is Node {
        Some(n.children[i]->Node_0)
    } else {
        None
    }
}

/// The first child node of the given name.
pub open spec fn named_child(n: SpecNode, name: Seq<char>) -> Option<SpecNode> {
    match find_index(n.children, name) {
        Some(i) => Some(n.children[i]->Node_0),
        None => None,
    }
}

/// The text of the first leaf of the node.
pub open spec fn spec_identifier(n: SpecNode) -> Option<Seq<char>> {
    leaf_value(n, 0)
}

/// `pub`, `pub@hako`, or nothing.
pub open spec fn spec_accessibility(n: SpecNode) -> Option<HirAccessibility> {
    match leaf_value(n, 0) {
        Some(v) => if v == "pub"@ {
            Some(HirAccessibility::Public)
        } else if v == "pub@hako"@ {
            Some(HirAccessibility::PublicInHako)
        } else {
            None
        },
        None => Some(HirAccessibility::Private),
    }
}

/// The primitive data type of a keyword.
pub open spec fn primitive_named(v: Seq<char>) -> Option<HirPrimitiveDataType> {
    if v == "bool"@ { Some(HirPrimitiveDataType::Boolean) }
    else if v == "s8"@ { Some(HirPrimitiveDataType::S8) }
    else if v == "s16"@ { Some(HirPrimitiveDataType::S16) }
    else if v == "s32"@ { Some(HirPrimitiveDataType::S32) }
    else if v == "s64"@ { Some(HirPrimitiveDataType::S64) }
    else if v == "ssize"@ { Some(HirPrimitiveDataType::Ssize) }
    else if v == "u8"@ { Some(HirPrimitiveDataType::U8) }
    else if v == "u16"@ { Some(HirPrimitiveDataType::U16) }
    else if v == "u32"@ { Some(HirPrimitiveDataType::U32) }
    else if v == "u64"@ { Some(HirPrimitiveDataType::U64) }
    else if v == "usize"@ { Some(HirPrimitiveDataType::Usize) }
    else if v == "f32"@ { Some(HirPrimitiveDataType::F32) }
    else if v == "f64"@ { Some(HirPrimitiveDataType::F64) }
    else if v == "char"@ { Some(HirPrimitiveDataType::Character) }
    else if v == "str"@ { Some(HirPrimitiveDataType::String) }
    else if v == "Self"@ { Some(HirPrimitiveDataType::SelfType) }
    else if v == "none"@ { Some(HirPrimitiveDataType::NoneType) }
    else { None }
}

/// The primitive data type named by the first leaf of the node.
pub open spec fn spec_primitive_data_type(n: SpecNode) -> Option<HirPrimitiveDataType> {
    match leaf_value(n, 0) {
        Some(v) => primitive_named(v),
        None => None,
    }
}

/// A data type node: a primitive one, or a generic one with its name and arguments.
/// The arguments are read from a `DataType::generic_arguments` node; the parser names
/// that node `args`, so a generic data type that comes from the parser is not one
/// that the hirifier handles.
pub open spec fn spec_data_type(n: SpecNode) -> Option<SpecDataType>
    decreases n,
{
    if n.children.len() > 0 && n.children[0] is Node {
        let content = n.children[0]->Node_0;
        if content.name == "DataType::primitive"@ {
            match spec_primitive_data_type(content) {
                Some(p) => Some(SpecDataType::Primitive(p)),
                None => None,
            }
        } else if content.name == "DataType::generic"@ {
            match (
                find_index(content.children, "Identifier::identifier"@),
                find_index(content.children, "DataType::generic_arguments"@),
            ) {
                (Some(i), Some(j)) => {
                    if 0 <= j < content.children.len() && content.children[j] is Node {
                        let id_node = content.children[i]->Node_0;
                        proof {
                            assert(decreases_to!(n => n.children));
                            assert(decreases_to!(content => content.children));
                        }
                        match (leaf_value(id_node, 0), spec_generic_argument_list(content.children[j]->Node_0.children)) {
                            (Some(id), Some(args)) => Some(SpecDataType::Generic(id, args)),
                            _ => None,
                        }
                    } else {
                        None
                    }
                },
                _ => None,
            }
        } else {
            None
        }
    } else {
        None
    }
}

/// The arguments of a generic data type: a name or a data type each.
pub open spec fn spec_generic_argument_list(children: Seq<SpecChild>) -> Option<Seq<SpecDataType>>
    decreases children,
{
    if children.len() == 0 {
        Some(Seq::empty())
    } else {
        let rest = spec_generic_argument_list(children.subrange(1, children.len() as int));
        if children[0] is Node {
            let c = children[0]->Node_0;
            let this = if c.name == "Identifier::identifier"@ {
                match leaf_value(c, 0) {
                    Some(id) => Some(SpecDataType::Identifier(id)),
                    None => None,
                }
            } else if c.name == "DataType::data_type"@ {
                spec_data_type(c)
            } else {
                None
            };
            match (this, rest) {
                (Some(t), Some(r)) => Some(seq![t] + r),
                _ => None,
            }
        } else {
            rest
        }
    }
}

pub open spec fn spec_generic_arguments(n: SpecNode) -> Option<Seq<SpecDataType>> {
    spec_generic_argument_list(n.children)
}

/// The text of the first leaf of the first child node of the given name.
pub open spec fn named_leaf(n: SpecNode, name: Seq<char>) -> Option<Seq<char>> {
    match named_child(n, name) {
        Some(c) => leaf_value(c, 0),
        None => None,
    }
}

/// An optional data type suffix: absent, or a primitive data type, read from a
/// `data_type_suffix` node. The parser names a number's suffix
/// `DataType::primitive_number`, so a number that comes from the parser keeps no data
/// type here.
pub open spec fn spec_suffix(n: SpecNode) -> Option<Option<HirPrimitiveDataType>> {
    match named_child(n, "data_type_suffix"@) {
        Some(s) => match spec_primitive_data_type(s) {
            Some(p) => Some(Some(p)),
            None => None,
        },
        None => Some(None),
    }
}

pub open spec fn integer_base_named(name: Seq<char>) -> Option<HirIntegerBase> {
    if name == "Literal::binary_number"@ { Some(HirIntegerBase::Binary) }
    else if name == "Literal::octal_number"@ { Some(HirIntegerBase::Octal) }
    else if name == "Literal::decimal_number"@ { Some(HirIntegerBase::Decimal) }
    else if name == "Literal::hexadecimal_number"@ { Some(HirIntegerBase::Hexadecimal) }
    else { None }
}

/// An optional exponent: absent, or a sign (`+` or `-`) and a value.
pub open spec fn spec_exponent(n: SpecNode) -> Option<Option<SpecIntegerExponent>> {
    match named_child(n, "Literal::number_exponent"@) {
        Some(e) => {
            let positive = match leaf_value(e, 0) {
                Some(v) => if v == "+"@ { Some(true) } else if v == "-"@ { Some(false) } else { None },
                None => None,
            };
            match (positive, named_leaf(e, "value"@)) {
                (Some(p), Some(v)) => Some(Some(SpecIntegerExponent { positive: p, value: v })),
                _ => None,
            }
        },
        None => Some(None),
    }
}

/// A number literal: a float number (integer part, a point and the fraction) or an
/// integer in one of four bases, each with an optional data type suffix.
pub open spec fn spec_number(content: SpecNode) -> Option<SpecLiteral> {
    match child_node(content, 0) {
        Some(f) => if f.name == "Literal::float_number"@ {
            match (spec_suffix(f), named_leaf(f, "integer"@), named_leaf(f, "float"@)) {
                (Some(d), Some(i), Some(x)) => Some(SpecLiteral::Float(SpecFloatLiteral { data_type: d, value: i + seq!['.'] + x })),
                _ => None,
            }
        } else {
            match named_child(content, "value"@) {
                Some(value_node) => match child_node(value_node, 0) {
                    Some(value_content) => match (
                        spec_suffix(content),
                        integer_base_named(value_content.name),
                        leaf_value(value_content, 0),
                        spec_exponent(content),
                    ) {
                        (Some(d), Some(b), Some(v), Some(x)) => Some(SpecLiteral::Integer(
                            SpecIntegerLiteral { data_type: d, base: b, value: v, exponent: x },
                        )),
                        _ => None,
                    },
                    None => None,
                },
                None => None,
            }
        },
        None => None,
    }
}

/// A literal: a boolean, a number, `self` or `none`.
pub open spec fn spec_literal(n: SpecNode) -> Option<SpecLiteral> {
    match child_node(n, 0) {
        Some(content) => if content.name == "Literal::boolean"@ {
            match leaf_value(content, 0) {
                Some(v) => if v == "true"@ {
                    Some(SpecLiteral::Boolean(true))
                } else if v == "false"@ {
                    Some(SpecLiteral::Boolean(false))
                } else {
                    None
                },
                None => None,
            }
        } else if content.name == "Literal::number"@ {
            spec_number(content)
        } else if content.name == "self"@ {
            Some(SpecLiteral::SelfValue)
        } else if content.name == "none"@ {
            Some(SpecLiteral::NoneValue)
        } else {
            None
        },
        None => None,
    }
}


/// The operator that a symbol of the operation syntax stands for; prefix and postfix
/// operators carry an `e` on the side of their operand.
pub open spec fn operator_symbol(v: Seq<char>) -> Option<SpecOperator> {
    if v == "="@ { Some(SpecOperator::Substitute) }
    else if v == "+"@ { Some(SpecOperator::Add) }
    else if v == "-"@ { Some(SpecOperator::Subtract) }
    else if v == "*"@ { Some(SpecOperator::Multiply) }
    else if v == "!e"@ { Some(SpecOperator::Not) }
    else if v == "~e"@ { Some(SpecOperator::BitNot) }
    else if v == "-e"@ { Some(SpecOperator::Negative) }
    else if v == "e!"@ { Some(SpecOperator::Nonnize) }
    else if v == "e?"@ { Some(SpecOperator::Propagate) }
    else if v == "."@ { Some(SpecOperator::MemberAccess) }
    else if v == "::"@ { Some(SpecOperator::Path) }
    else if v == "("@ { Some(SpecOperator::GroupBegin) }
    else if v == ")"@ { Some(SpecOperator::GroupEnd) }
    else { None }
}

/// An expression node: an operation, a literal, an identifier or a data type.
pub open spec fn spec_expression(n: SpecNode) -> Option<SpecExpression>
    decreases n, 0nat,
{
    if n.children.len() > 0 && n.children[0] is Node {
        let content = n.children[0]->Node_0;
        proof {
            assert(decreases_to!(n => n.children));
        }
        if content.name == "Operation::operation"@ {
            spec_operation(content)
        } else if content.name == "Literal::literal"@ {
            match spec_literal(content) {
                Some(l) => Some(SpecExpression::Literal(l)),
                None => None,
            }
        } else if content.name == "Identifier::identifier"@ {
            match leaf_value(content, 0) {
                Some(id) => Some(SpecExpression::Identifier(id)),
                None => None,
            }
        } else if content.name == "DataType::data_type"@ {
            match spec_data_type(content) {
                Some(d) => Some(SpecExpression::DataType(d)),
                None => None,
            }
        } else {
            None
        }
    } else {
        None
    }
}

/// An operation node: its tokens, in source order, parsed into an expression.
pub open spec fn spec_operation(n: SpecNode) -> Option<SpecExpression>
    decreases n, 0nat,
{
    proof {
        assert(decreases_to!(n => n.children));
    }
    match spec_operation_tokens(n.children) {
        Some(tokens) => match spec_into_postfix(tokens) {
            Some(postfix) => match spec_construct_expression(postfix) {
                Ok(e) => Some(e),
                Err(_) => None,
            },
            None => None,
        },
        None => None,
    }
}

/// The tokens of an operation: every child is an operator node or a term.
pub open spec fn spec_operation_tokens(children: Seq<SpecChild>) -> Option<Seq<SpecToken>>
    decreases children, 0nat,
{
    if children.len() == 0 {
        Some(Seq::empty())
    } else if children[0] is Node {
        match (
            spec_operation_token(children[0]->Node_0),
            spec_operation_tokens(children.subrange(1, children.len() as int)),
        ) {
            (Some(t), Some(r)) => Some(seq![t] + r),
            _ => None,
        }
    } else {
        None
    }
}

pub open spec fn spec_operation_token(n: SpecNode) -> Option<SpecToken>
    decreases n, 1nat,
{
    if n.name == "operator"@ {
        match spec_operator(n) {
            Some(op) => Some(SpecToken::Operator(op)),
            None => None,
        }
    } else {
        match spec_expression(n) {
            Some(e) => Some(SpecToken::Term(e)),
            None => None,
        }
    }
}

/// An operator node: a symbol, or a call with its argument expressions.
pub open spec fn spec_operator(n: SpecNode) -> Option<SpecOperator>
    decreases n, 0nat,
{
    match leaf_value(n, 0) {
        Some(v) => operator_symbol(v),
        None => if n.children.len() > 0 && n.children[0] is Node {
            let c = n.children[0]->Node_0;
            proof {
                assert(decreases_to!(n => n.children));
                assert(decreases_to!(c => c.children));
            }
            if c.name == "Operation::function_call_operator"@ {
                match spec_expression_list(c.children) {
                    Some(args) => Some(SpecOperator::FunctionCall(args)),
                    None => None,
                }
            } else {
                None
            }
        } else {
            None
        },
    }
}

/// The expressions of the child nodes.
pub open spec fn spec_expression_list(children: Seq<SpecChild>) -> Option<Seq<SpecExpression>>
    decreases children, 0nat,
{
    if children.len() == 0 {
        Some(Seq::empty())
    } else {
        let rest = spec_expression_list(children.subrange(1, children.len() as int));
        if children[0] is Node {
            match (spec_expression(children[0]->Node_0), rest) {
                (Some(e), Some(r)) => Some(seq![e] + r),
                _ => None,
            }
        } else {
            rest
        }
    }
}

/// A formal argument: a name with a data type, or `self` (then of the `Self` type,
/// and logged as misplaced unless it comes first), either of them possibly `mut`.
pub open spec fn spec_formal_argument(index: int, n: SpecNode) -> Option<((Seq<char>, SpecFormalArgument), Seq<SpecLog>)> {
    let mutability = if has_leaf_valued(n.children, "mut"@) {
        HirMutability::Mutable
    } else {
        HirMutability::Immutable
    };
    match named_child(n, "Identifier::identifier"@) {
        Some(id_node) => match (leaf_value(id_node, 0), named_child(n, "DataType::data_type"@)) {
            (Some(id), Some(d)) => match spec_data_type(d) {
                Some(data_type) => Some(((id, SpecFormalArgument { mutability, data_type }), Seq::empty())),
                None => None,
            },
            _ => None,
        },
        None => if has_leaf_valued(n.children, "self"@) {
            let logs = if index != 0 {
                seq![SpecLog::SelfArgumentMustLocateFirstPosition]
            } else {
                Seq::empty()
            };
            Some(((
                "self"@,
                SpecFormalArgument { mutability, data_type: SpecDataType::Primitive(HirPrimitiveDataType::SelfType) },
            ), logs))
        } else {
            None
        },
    }
}

/// The formal arguments from the `start`-th on, with what they log.
pub open spec fn spec_formal_arguments(nodes: Seq<SpecNode>, start: int) -> Option<(Seq<(Seq<char>, SpecFormalArgument)>, Seq<SpecLog>)>
    decreases nodes.len(),
{
    if nodes.len() == 0 {
        Some((Seq::empty(), Seq::empty()))
    } else {
        match (spec_formal_argument(start, nodes[0]), spec_formal_arguments(nodes.subrange(1, nodes.len() as int), start + 1)) {
            (Some((a, l)), Some((r, rl))) => Some((seq![a] + r, l + rl)),
            _ => None,
        }
    }
}

/// A function: its name, and the function with accessibility, return type (`none`
/// when omitted), formal arguments and expressions; with what it logs.
pub open spec fn spec_function(n: SpecNode) -> Option<(Seq<char>, SpecFunction, Seq<SpecLog>)> {
    let return_type = match named_child(n, "DataType::data_type"@) {
        Some(d) => spec_data_type(d),
        None => Some(SpecDataType::Primitive(HirPrimitiveDataType::NoneType)),
    };
    let accessibility = match named_child(n, "Main::accessibility"@) {
        Some(a) => spec_accessibility(a),
        None => None,
    };
    let arguments = match named_child(n, "args"@) {
        Some(a) => spec_formal_arguments(nodes_of(a.children), 0),
        None => None,
    };
    let expressions = match named_child(n, "exprs"@) {
        Some(e) => spec_expression_list(e.children),
        None => None,
    };
    match (named_leaf(n, "Identifier::identifier"@), accessibility, return_type, arguments, expressions) {
        (Some(id), Some(acc), Some(ret), Some((args, logs)), Some(exprs)) => Some((
            id,
            SpecFunction { accessibility: acc, return_type: ret, arguments: args, expressions: exprs },
            logs,
        )),
        _ => None,
    }
}

/// What a use declaration logs: `hako` or `self` anywhere but first.
pub open spec fn spec_use_logs(segments: Seq<Seq<char>>, start: int) -> Seq<SpecLog>
    decreases segments.len(),
{
    if segments.len() == 0 {
        Seq::empty()
    } else {
        let this = if start != 0 && (segments[0] == "hako"@ || segments[0] == "self"@) {
            seq![SpecLog::PathSegmentMustLocateFirstPosition(segments[0])]
        } else {
            Seq::empty()
        };
        this + spec_use_logs(segments.subrange(1, segments.len() as int), start + 1)
    }
}

/// The model of a module: its name, its syntax tree and its submodules.
pub struct SpecModule {
    pub id: Seq<char>,
    pub node: SpecNode,
    pub submodules: Seq<SpecModule>,
}

/// The model of a hako: its name and its modules.
pub struct SpecHako {
    pub id: Seq<char>,
    pub modules: Seq<SpecModule>,
}

pub open spec fn module_view(m: AstModule) -> SpecModule
    decreases m,
{
    proof {
        assert(decreases_to!(m => m.submodules));
    }
    SpecModule { id: m.id@, node: m.node@, submodules: modules_view(m.submodules@) }
}

pub open spec fn modules_view(ms: Seq<AstModule>) -> Seq<SpecModule>
    decreases ms,
{
    if ms.len() == 0 {
        Seq::empty()
    } else {
        seq![module_view(ms[0])] + modules_view(ms.subrange(1, ms.len() as int))
    }
}

pub proof fn lemma_modules_view(ms: Seq<AstModule>)
    ensures
        modules_view(ms).len() == ms.len(),
        forall|j: int| 0 <= j < ms.len() ==> #[trigger] modules_view(ms)[j] == module_view(ms[j]),
    decreases ms.len(),
{
    if ms.len() > 0 {
        lemma_modules_view(ms.subrange(1, ms.len() as int));
    }
}

pub open spec fn hako_view(h: AstHako) -> SpecHako {
    SpecHako { id: h.id@, modules: modules_view(h.modules@) }
}

impl<'a> View for AstModule<'a> {
    type V = SpecModule;

    open spec fn view(&self) -> SpecModule {
        module_view(*self)
    }
}

impl<'a> View for AstHako<'a> {
    type V = SpecHako;

    open spec fn view(&self) -> SpecHako {
        hako_view(*self)
    }
}

/// A hako given to the hirifier: its name and its modules.
#[derive(Clone, Debug, PartialEq)]
pub struct AstHako<'a> {
    pub id: String,
    pub modules: Vec<AstModule<'a>>,
}

/// A module given to the hirifier: its name, its syntax tree and its submodules.
#[derive(Debug, PartialEq)]
pub struct AstModule<'a> {
    pub id: String,
    pub node: &'a SyntaxNode,
    pub submodules: Vec<AstModule<'a>>,
}

impl<'a> Clone for AstModule<'a> {
    /// A copy with the same model, on the same syntax tree.
    fn clone(&self) -> (copy: AstModule<'a>)
        ensures
            copy@ == self@,
        decreases self,
    {
        let mut submodules: Vec<AstModule<'a>> = Vec::new();
        let mut i: usize = 0;
        proof {
            lemma_modules_view(self.submodules@);
        }
        while i < self.submodules.len()
            invariant
                i <= self.submodules.len(),
                submodules.len() == i,
                forall|j: int| 0 <= j < i ==> #[trigger] submodules@[j]@ == self.submodules@[j]@,
            decreases self.submodules.len() - i,
        {
            proof {
                assert(decreases_to!(self => self.submodules));
            }
            submodules.push(self.submodules[i].clone());
            i += 1;
        }
        proof {
            lemma_modules_view(submodules@);
            lemma_modules_view(self.submodules@);
            assert forall|j: int| 0 <= j < submodules.len() implies modules_view(submodules@)[j] == modules_view(self.submodules@)[j] by {
                assert(submodules@[j]@ == self.submodules@[j]@);
            }
            assert(modules_view(submodules@) =~= modules_view(self.submodules@));
        }
        AstModule { id: self.id.clone(), node: self.node, submodules }
    }
}

#[derive(Clone, Debug, PartialEq)]
pub enum ItemHirifierResult {
    ItemPathIndex(HirPathIndex),
    UseDeclaration(HirPath),
}

pub enum SpecItemResult {
    ItemPathIndex(HirPathIndex),
    UseDeclaration(SpecPath),
}

pub open spec fn item_result_view(r: ItemHirifierResult) -> SpecItemResult {
    match r {
        ItemHirifierResult::ItemPathIndex(i) => SpecItemResult::ItemPathIndex(i),
        ItemHirifierResult::UseDeclaration(p) => SpecItemResult::UseDeclaration(p@),
    }
}

/// The state once the next path index is handed out.
pub open spec fn advance(st: HirifyState) -> HirifyState {
    HirifyState { next: st.next + 1, ..st }
}

/// The state once a node is added to the path tree under an index.
pub open spec fn add_path_node(st: HirifyState, index: HirPathIndex, node: SpecPathNode) -> HirifyState {
    HirifyState {
        nodes: st.nodes.insert(index.0, node),
        hakos: if node.kind is Hako { st.hakos.push(index) } else { st.hakos },
        ..st
    }
}

/// An item: a use declaration gives its path; a function gets the next path index,
/// a node under the parent and an item. Either takes a path index.
pub open spec fn spec_item(n: SpecNode, parent: HirPathIndex, st: HirifyState) -> Option<(SpecItemResult, HirifyState)> {
    if st.next >= usize::MAX {
        None
    } else {
        let index = HirPathIndex(st.next as usize);
        let st1 = advance(st);
        match child_node(n, 0) {
            Some(content) => if content.name == "UseDeclaration::use_declaration"@ {
                let values = leaf_values(content.children);
                Some((SpecItemResult::UseDeclaration(SpecPath::Unresolved(values)), with_logs(st1, spec_use_logs(values, 0))))
            } else if content.name == "Function::function"@ {
                match spec_function(content) {
                    Some((id, f, logs)) => {
                        let st2 = with_logs(st1, logs);
                        let node = SpecPathNode { id, kind: HirPathKind::Function, parent: Some(parent), children: Seq::empty() };
                        let st3 = add_path_node(st2, index, node);
                        Some((SpecItemResult::ItemPathIndex(index), HirifyState { items: st3.items.push((index, SpecItem::Function(f))), ..st3 }))
                    },
                    None => None,
                }
            } else {
                None
            },
            None => None,
        }
    }
}

/// The items one after another, with the indexes of those that got a path node.
pub open spec fn spec_items(nodes: Seq<SpecNode>, parent: HirPathIndex, st: HirifyState) -> Option<(Seq<HirPathIndex>, HirifyState)>
    decreases nodes.len(),
{
    if nodes.len() == 0 {
        Some((Seq::empty(), st))
    } else {
        match spec_item(nodes[0], parent, st) {
            Some((r, st1)) => match spec_items(nodes.subrange(1, nodes.len() as int), parent, st1) {
                Some((rest, st2)) => Some((
                    match r {
                        SpecItemResult::ItemPathIndex(i) => seq![i] + rest,
                        SpecItemResult::UseDeclaration(_) => rest,
                    },
                    st2,
                )),
                None => None,
            },
            None => None,
        }
    }
}

/// A module: it takes the next path index; then come its submodules and its items;
/// its node, under the parent, has the submodules and the item nodes as children.
pub open spec fn spec_module(m: SpecModule, parent: HirPathIndex, st: HirifyState) -> Option<(HirPathIndex, HirifyState)>
    decreases m,
{
    if st.next >= usize::MAX {
        None
    } else {
        let index = HirPathIndex(st.next as usize);
        match spec_modules(m.submodules, index, advance(st)) {
            Some((subs, st2)) => match spec_items(nodes_of(m.node.children), index, st2) {
                Some((item_children, st3)) => Some((
                    index,
                    add_path_node(st3, index, SpecPathNode {
                        id: m.id,
                        kind: HirPathKind::Module,
                        parent: Some(parent),
                        children: subs + item_children,
                    }),
                )),
                None => None,
            },
            None => None,
        }
    }
}

pub open spec fn spec_modules(ms: Seq<SpecModule>, parent: HirPathIndex, st: HirifyState) -> Option<(Seq<HirPathIndex>, HirifyState)>
    decreases ms,
{
    if ms.len() == 0 {
        Some((Seq::empty(), st))
    } else {
        match spec_module(ms[0], parent, st) {
            Some((i, st1)) => match spec_modules(ms.subrange(1, ms.len() as int), parent, st1) {
                Some((rest, st2)) => Some((seq![i] + rest, st2)),
                None => None,
            },
            None => None,
        }
    }
}

/// A hako: it takes the next path index, then come its modules; its node has no
/// parent and the modules as children.
pub open spec fn spec_hako(h: SpecHako, st: HirifyState) -> Option<HirifyState> {
    if st.next >= usize::MAX {
        None
    } else {
        let index = HirPathIndex(st.next as usize);
        match spec_modules(h.modules, index, advance(st)) {
            Some((children, st2)) => Some(add_path_node(st2, index, SpecPathNode {
                id: h.id,
                kind: HirPathKind::Hako,
                parent: None,
                children,
            })),
            None => None,
        }
    }
}

pub open spec fn spec_hakos(hs: Seq<SpecHako>, st: HirifyState) -> Option<HirifyState>
    decreases hs.len(),
{
    if hs.len() == 0 {
        Some(st)
    } else {
        match spec_hako(hs[0], st) {
            Some(st1) => spec_hakos(hs.subrange(1, hs.len() as int), st1),
            None => None,
        }
    }
}

/// The state of a new hirifier.
pub open spec fn initial_state() -> HirifyState {
    HirifyState {
        next: 0,
        nodes: Map::empty(),
        hakos: Seq::empty(),
        items: Seq::empty(),
        logs: Seq::empty(),
    }
}

// ----- the hirifier -----

#[derive(Clone, Debug, PartialEq)]
pub enum TreeHirifierLog {
    Error(TreeHirifierError),
}

#[derive(Clone, Debug, PartialEq)]
pub enum TreeHirifierError {
    PathSegmentMustLocateFirstPosition { path_segment: String },
    SelfArgumentMustLocateFirstPosition,
}

/// The model of a log entry.
pub enum SpecLog {
    PathSegmentMustLocateFirstPosition(Seq<char>),
    SelfArgumentMustLocateFirstPosition,
}

pub open spec fn log_view(l: TreeHirifierLog) -> SpecLog {
    match l {
        TreeHirifierLog::Error(TreeHirifierError::PathSegmentMustLocateFirstPosition { path_segment }) =>
            SpecLog::PathSegmentMustLocateFirstPosition(path_segment@),
        TreeHirifierLog::Error(TreeHirifierError::SelfArgumentMustLocateFirstPosition) =>
            SpecLog::SelfArgumentMustLocateFirstPosition,
    }
}

pub open spec fn logs_view(logs: Seq<TreeHirifierLog>) -> Seq<SpecLog> {
    logs.map_values(|l: TreeHirifierLog| log_view(l))
}

impl View for TreeHirifierLog {
    type V = SpecLog;

    open spec fn view(&self) -> SpecLog {
        log_view(*self)
    }
}

/// Turns syntax trees into the intermediate representation: builds the path tree of
/// hakos, modules and items, and the items themselves.
#[derive(Clone, Debug, PartialEq)]
pub struct TreeHirifier {
    path_index_generator: HirPathIndexGenerator,
    pub(crate) path_tree: HirPathTree,
    pub(crate) items: Vec<HirPathIndexBinding<HirItem>>,
    pub(crate) logs: Vec<TreeHirifierLog>,
}

/// The model of a hirifier: the next path index to hand out, the path tree so far
/// (nodes by index and the hakos), the items so far and the log.
pub struct HirifyState {
    pub next: nat,
    pub nodes: Map<usize, SpecPathNode>,
    pub hakos: Seq<HirPathIndex>,
    pub items: Seq<(HirPathIndex, SpecItem)>,
    pub logs: Seq<SpecLog>,
}

pub open spec fn with_logs(st: HirifyState, logs: Seq<SpecLog>) -> HirifyState {
    HirifyState { logs: st.logs + logs, ..st }
}

pub open spec fn item_binding_view(b: HirPathIndexBinding<HirItem>) -> (HirPathIndex, SpecItem) {
    (b.0, b.1@)
}

impl View for TreeHirifier {
    type V = HirifyState;

    closed spec fn view(&self) -> HirifyState {
        HirifyState {
            next: self.path_index_generator.next(),
            nodes: self.path_tree.nodes_view(),
            hakos: self.path_tree.hakos(),
            items: self.items@.map_values(|b: HirPathIndexBinding<HirItem>| item_binding_view(b)),
            logs: logs_view(self.logs@),
        }
    }
}

impl TreeHirifier {
    pub fn identifier(&mut self, node: &SyntaxNode) -> (id: String)
        requires
            spec_identifier(node@) is Some,
        ensures
            id@ == spec_identifier(node@)->0,
            *final(self) == *old(self),
    {
        node.get_leaf(0).value.clone()
    }

    pub fn accessibility(&mut self, node: &SyntaxNode) -> (accessibility: HirAccessibility)
        requires
            spec_accessibility(node@) is Some,
        ensures
            accessibility == spec_accessibility(node@)->0,
            *final(self) == *old(self),
    {
        if let Some(content) = node.get_leaf_or_none(0) {
            if text_eq(&content.value, "pub") {
                HirAccessibility::Public
            } else if text_eq(&content.value, "pub@hako") {
                HirAccessibility::PublicInHako
            } else {
                vstd::pervasive::unreached()
            }
        } else {
            HirAccessibility::Private
        }
    }

    pub fn primitive_data_type(&mut self, node: &SyntaxNode) -> (data_type: HirPrimitiveDataType)
        requires
            spec_primitive_data_type(node@) is Some,
        ensures
            data_type == spec_primitive_data_type(node@)->0,
            *final(self) == *old(self),
    {
        let v = &node.get_leaf(0).value;
        if text_eq(v, "bool") { HirPrimitiveDataType::Boolean }
        else if text_eq(v, "s8") { HirPrimitiveDataType::S8 }
        else if text_eq(v, "s16") { HirPrimitiveDataType::S16 }
        else if text_eq(v, "s32") { HirPrimitiveDataType::S32 }
        else if text_eq(v, "s64") { HirPrimitiveDataType::S64 }
        else if text_eq(v, "ssize") { HirPrimitiveDataType::Ssize }
        else if text_eq(v, "u8") { HirPrimitiveDataType::U8 }
        else if text_eq(v, "u16") { HirPrimitiveDataType::U16 }
        else if text_eq(v, "u32") { HirPrimitiveDataType::U32 }
        else if text_eq(v, "u64") { HirPrimitiveDataType::U64 }
        else if text_eq(v, "usize") { HirPrimitiveDataType::Usize }
        else if text_eq(v, "f32") { HirPrimitiveDataType::F32 }
        else if text_eq(v, "f64") { HirPrimitiveDataType::F64 }
        else if text_eq(v, "char") { HirPrimitiveDataType::Character }
        else if text_eq(v, "str") { HirPrimitiveDataType::String }
        else if text_eq(v, "Self") { HirPrimitiveDataType::SelfType }
        else if text_eq(v, "none") { HirPrimitiveDataType::NoneType }
        else { vstd::pervasive::unreached() }
    }

    pub fn data_type(&mut self, node: &SyntaxNode) -> (data_type: HirDataType)
        requires
            spec_data_type(node@) is Some,
        ensures
            data_type@ == spec_data_type(node@)->0,
            *final(self) == *old(self),
        decreases node@,
    {
        let content = node.get_node(0);
        if text_eq(&content.name, "DataType::primitive") {
            HirDataType::Primitive(self.primitive_data_type(content))
        } else if text_eq(&content.name, "DataType::generic") {
            let id = content.find_node("Identifier::identifier").get_leaf(0).value.clone();
            proof {
                lemma_find_index(content@.children, "DataType::generic_arguments"@);
            }
            let arguments_node = content.find_node("DataType::generic_arguments");
            proof {
                let j = find_index(content@.children, "DataType::generic_arguments"@)->0;
                assert(decreases_to!(node@ => node@.children));
                assert(decreases_to!(node@.children => node@.children[0]));
                assert(decreases_to!(node@.children[0] => content@));
                assert(decreases_to!(content@ => content@.children));
                assert(decreases_to!(content@.children => content@.children[j]));
                assert(decreases_to!(content@.children[j] => arguments_node@));
            }
            let arguments = self.generic_arguments(arguments_node);
            let result = HirDataType::Generic(HirIdentifierBinding::new(HirIdentifier(id), HirGenericDataType { arguments }));
            result
        } else {
            vstd::pervasive::unreached()
        }
    }

    pub fn generic_arguments(&mut self, node: &SyntaxNode) -> (arguments: Vec<HirDataType>)
        requires
            spec_generic_arguments(node@) is Some,
        ensures
            data_types_view(arguments@) == spec_generic_arguments(node@)->0,
            *final(self) == *old(self),
        decreases node@,
    {
        let mut arguments: Vec<HirDataType> = Vec::new();
        let ghost children = node@.children;
        let mut i: usize = 0;
        proof {
            lemma_children_view(node.children@);
        }
        assert(children.subrange(0, children.len() as int) =~= children);
        while i < node.children.len()
            invariant
                i <= node.children.len(),
                children == node@.children,
                children.len() == node.children.len(),
                forall|j: int| 0 <= j < children.len() ==> #[trigger] children[j] == node.children@[j]@,
                *self == *old(self),
                spec_generic_argument_list(children.subrange(i as int, children.len() as int)) is Some,
                spec_generic_argument_list(children) is Some,
                spec_generic_argument_list(children)->0 == data_types_view(arguments@)
                    + spec_generic_argument_list(children.subrange(i as int, children.len() as int))->0,
            decreases node.children.len() - i,
        {
            let ghost rest = children.subrange(i as int, children.len() as int);
            assert(rest.subrange(1, rest.len() as int) =~= children.subrange(i + 1, children.len() as int));
            assert(rest[0] == children[i as int]);
            assert(children[i as int] == node.children@[i as int]@);
            let ghost old_args = arguments@;
            let ghost before = data_types_view(arguments@);
            match &node.children[i] {
                SyntaxChild::Node(data_type_node) => {
                    let t = if text_eq(&data_type_node.name, "Identifier::identifier") {
                        HirDataType::Identifier(HirIdentifier(data_type_node.get_leaf(0).value.clone()))
                    } else if text_eq(&data_type_node.name, "DataType::data_type") {
                        proof {
                            assert(decreases_to!(node@ => node@.children));
                            assert(decreases_to!(node@.children => node@.children[i as int]));
                            assert(decreases_to!(node@.children[i as int] => data_type_node@));
                        }
                        self.data_type(data_type_node)
                    } else {
                        vstd::pervasive::unreached()
                    };
                    arguments.push(t);
                    proof {
                        lemma_data_types_view(arguments@);
                        lemma_data_types_view(old_args);
                        assert(arguments@ == old_args.push(t));
                        assert(data_types_view(arguments@) =~= before.push(t@));
                        assert(before.push(t@) + spec_generic_argument_list(rest.subrange(1, rest.len() as int))->0
                            =~= before + (seq![t@] + spec_generic_argument_list(rest.subrange(1, rest.len() as int))->0));
                    }
                },
                _ => {},
            }
            i += 1;
        }
        assert(children.subrange(i as int, children.len() as int) =~= Seq::<SpecChild>::empty());
        assert(data_types_view(arguments@) + Seq::<SpecDataType>::empty() =~= data_types_view(arguments@));
        arguments
    }

    /// The optional data type suffix of a number.
    fn suffix(&mut self, node: &SyntaxNode) -> (data_type: Option<HirPrimitiveDataType>)
        requires
            spec_suffix(node@) is Some,
        ensures
            data_type == spec_suffix(node@)->0,
            *final(self) == *old(self),
    {
        match node.find_node_or_none("data_type_suffix") {
            Some(v) => Some(self.primitive_data_type(v)),
            None => None,
        }
    }

    pub fn literal(&mut self, node: &SyntaxNode) -> (literal: HirLiteral)
        requires
            spec_literal(node@) is Some,
        ensures
            literal@ == spec_literal(node@)->0,
            *final(self) == *old(self),
    {
        let content = node.get_node(0);
        if text_eq(&content.name, "Literal::boolean") {
            let v = &content.get_leaf(0).value;
            if text_eq(v, "true") {
                HirLiteral::Boolean(true)
            } else if text_eq(v, "false") {
                HirLiteral::Boolean(false)
            } else {
                vstd::pervasive::unreached()
            }
        } else if text_eq(&content.name, "Literal::number") {
            let float_number_node = content.get_node(0);
            if text_eq(&float_number_node.name, "Literal::float_number") {
                let data_type = self.suffix(float_number_node);
                let integer = &float_number_node.find_node("integer").get_leaf(0).value;
                let float = &float_number_node.find_node("float").get_leaf(0).value;
                let mut value = integer.clone();
                push_char(&mut value, '.');
                value.append(float.as_str());
                assert(value@ =~= integer@ + seq!['.'] + float@);
                HirLiteral::Float(HirFloatLiteral { data_type, value })
            } else {
                let data_type = self.suffix(content);
                let value_content = content.find_node("value").get_node(0);
                let base = if text_eq(&value_content.name, "Literal::binary_number") {
                    HirIntegerBase::Binary
                } else if text_eq(&value_content.name, "Literal::octal_number") {
                    HirIntegerBase::Octal
                } else if text_eq(&value_content.name, "Literal::decimal_number") {
                    HirIntegerBase::Decimal
                } else if text_eq(&value_content.name, "Literal::hexadecimal_number") {
                    HirIntegerBase::Hexadecimal
                } else {
                    vstd::pervasive::unreached()
                };
                let value = value_content.get_leaf(0).value.clone();
                let exponent = match content.find_node_or_none("Literal::number_exponent") {
                    Some(exponent_node) => {
                        let sign = &exponent_node.get_leaf(0).value;
                        let positive = if text_eq(sign, "+") {
                            true
                        } else if text_eq(sign, "-") {
                            false
                        } else {
                            vstd::pervasive::unreached()
                        };
                        let value = exponent_node.find_node("value").get_leaf(0).value.clone();
                        Some(HirIntegerExponent { positive, value })
                    },
                    None => None,
                };
                HirLiteral::Integer(HirIntegerLiteral { data_type, base, value, exponent })
            }
        } else if text_eq(&content.name, "self") {
            HirLiteral::SelfValue
        } else if text_eq(&content.name, "none") {
            HirLiteral::NoneValue
        } else {
            vstd::pervasive::unreached()
        }
    }

    pub fn expression(&mut self, node: &SyntaxNode) -> (expr: HirExpression)
        requires
            spec_expression(node@) is Some,
        ensures
            expr@ == spec_expression(node@)->0,
            *final(self) == *old(self),
        decreases node@, 0nat,
    {
        let content_node = node.get_node(0);
        proof {
            assert(decreases_to!(node@ => node@.children));
            assert(decreases_to!(node@.children => node@.children[0]));
            assert(decreases_to!(node@.children[0] => content_node@));
        }
        if text_eq(&content_node.name, "Operation::operation") {
            self.operation(content_node)
        } else if text_eq(&content_node.name, "Literal::literal") {
            HirExpression::Literal(self.literal(content_node))
        } else if text_eq(&content_node.name, "Identifier::identifier") {
            HirExpression::Identifier(HirIdentifier(self.identifier(content_node)))
        } else if text_eq(&content_node.name, "DataType::data_type") {
            HirExpression::DataType(self.data_type(content_node))
        } else {
            vstd::pervasive::unreached()
        }
    }

    pub fn operation(&mut self, node: &SyntaxNode) -> (expr: HirExpression)
        requires
            spec_operation(node@) is Some,
        ensures
            expr@ == spec_operation(node@)->0,
            *final(self) == *old(self),
        decreases node@, 0nat,
    {
        let ghost children = node@.children;
        let mut tokens: Vec<HirOperationToken> = Vec::new();
        let mut i: usize = 0;
        proof {
            lemma_children_view(node.children@);
            assert(children.subrange(0, children.len() as int) =~= children);
            assert(tokens_view(tokens@) =~= Seq::<SpecToken>::empty());
        }
        while i < node.children.len()
            invariant
                i <= node.children.len(),
                children == node@.children,
                *self == *old(self),
                children.len() == node.children.len(),
                forall|j: int| 0 <= j < children.len() ==> #[trigger] children[j] == node.children@[j]@,
                spec_operation_tokens(children) is Some,
                spec_operation_tokens(children.subrange(i as int, children.len() as int)) is Some,
                spec_operation_tokens(children)->0 == tokens_view(tokens@)
                    + spec_operation_tokens(children.subrange(i as int, children.len() as int))->0,
            decreases node.children.len() - i,
        {
            let ghost rest = children.subrange(i as int, children.len() as int);
            assert(rest.subrange(1, rest.len() as int) =~= children.subrange(i + 1, children.len() as int));
            assert(rest[0] == children[i as int]);
            let ghost before = tokens_view(tokens@);
            assert(children[i as int] == node.children@[i as int]@);
            let child = node.children[i].into_node();
            proof {
                assert(decreases_to!(node@ => node@.children));
                assert(decreases_to!(node@.children => node@.children[i as int]));
                assert(decreases_to!(node@.children[i as int] => child@));
            }
            let token = self.operation_token(child);
            tokens.push(token);
            proof {
                assert(tokens_view(tokens@) =~= before.push(crate::hir::ir::expr::token_view(token)));
                assert(before.push(crate::hir::ir::expr::token_view(token)) + spec_operation_tokens(rest.subrange(1, rest.len() as int))->0
                    =~= before + (seq![crate::hir::ir::expr::token_view(token)] + spec_operation_tokens(rest.subrange(1, rest.len() as int))->0));
            }
            i += 1;
        }
        proof {
            assert(children.subrange(i as int, children.len() as int) =~= Seq::<SpecChild>::empty());
            assert(tokens_view(tokens@) + Seq::<SpecToken>::empty() =~= tokens_view(tokens@));
        }
        proof {
            lemma_postfix_defined(tokens_view(tokens@));
        }
        match OperationParser::parse(tokens) {
            Ok(v) => v,
            Err(e) => vstd::pervasive::unreached(),
        }
    }

    pub fn operation_token(&mut self, node: &SyntaxNode) -> (token: HirOperationToken)
        requires
            spec_operation_token(node@) is Some,
        ensures
            crate::hir::ir::expr::token_view(token) == spec_operation_token(node@)->0,
            *final(self) == *old(self),
        decreases node@, 1nat,
    {
        if text_eq(&node.name, "operator") {
            HirOperationToken::Operator(self.operator(node))
        } else {
            HirOperationToken::Term(self.expression(node))
        }
    }

    pub fn operator(&mut self, node: &SyntaxNode) -> (operator: HirOperator)
        requires
            spec_operator(node@) is Some,
        ensures
            crate::hir::ir::expr::operator_view(operator) == spec_operator(node@)->0,
            *final(self) == *old(self),
        decreases node@, 0nat,
    {
        if let Some(operator_leaf) = node.get_leaf_or_none(0) {
            let v = &operator_leaf.value;
            if text_eq(v, "=") { HirOperator::Substitute }
            else if text_eq(v, "+") { HirOperator::Add }
            else if text_eq(v, "-") { HirOperator::Subtract }
            else if text_eq(v, "*") { HirOperator::Multiply }
            else if text_eq(v, "!e") { HirOperator::Not }
            else if text_eq(v, "~e") { HirOperator::BitNot }
            else if text_eq(v, "-e") { HirOperator::Negative }
            else if text_eq(v, "e!") { HirOperator::Nonnize }
            else if text_eq(v, "e?") { HirOperator::Propagate }
            else if text_eq(v, ".") { HirOperator::MemberAccess }
            else if text_eq(v, "::") { HirOperator::Path }
            else if text_eq(v, "(") { HirOperator::GroupBegin }
            else if text_eq(v, ")") { HirOperator::GroupEnd }
            else { vstd::pervasive::unreached() }
        } else {
            let operator_node = node.get_node(0);
            proof {
                assert(decreases_to!(node@ => node@.children));
                assert(decreases_to!(node@.children => node@.children[0]));
                assert(decreases_to!(node@.children[0] => operator_node@));
                assert(decreases_to!(operator_node@ => operator_node@.children));
            }
            if text_eq(&operator_node.name, "Operation::function_call_operator") {
                let arguments = self.expression_list(operator_node);
                HirOperator::FunctionCall(arguments)
            } else {
                vstd::pervasive::unreached()
            }
        }
    }

    /// The expressions of the child nodes.
    fn expression_list(&mut self, node: &SyntaxNode) -> (exprs: Vec<HirExpression>)
        requires
            spec_expression_list(node@.children) is Some,
        ensures
            exprs_view(exprs@) == spec_expression_list(node@.children)->0,
            *final(self) == *old(self),
        decreases node@.children, 1nat,
    {
        let ghost children = node@.children;
        let mut exprs: Vec<HirExpression> = Vec::new();
        let mut i: usize = 0;
        proof {
            lemma_children_view(node.children@);
        }
        assert(children.subrange(0, children.len() as int) =~= children);
        while i < node.children.len()
            invariant
                i <= node.children.len(),
                children == node@.children,
                children.len() == node.children.len(),
                forall|j: int| 0 <= j < children.len() ==> #[trigger] children[j] == node.children@[j]@,
                *self == *old(self),
                spec_expression_list(children) is Some,
                spec_expression_list(children.subrange(i as int, children.len() as int)) is Some,
                spec_expression_list(children)->0 == exprs_view(exprs@)
                    + spec_expression_list(children.subrange(i as int, children.len() as int))->0,
            decreases node.children.len() - i,
        {
            let ghost rest = children.subrange(i as int, children.len() as int);
            assert(rest.subrange(1, rest.len() as int) =~= children.subrange(i + 1, children.len() as int));
            assert(rest[0] == children[i as int]);
            let ghost old_exprs = exprs@;
            assert(children[i as int] == node.children@[i as int]@);
            match &node.children[i] {
                SyntaxChild::Node(child) => {
                    proof {
                        assert(decreases_to!(node@.children => node@.children[i as int]));
                        assert(decreases_to!(node@.children[i as int] => child@));
                    }
                    let e = self.expression(child);
                    exprs.push(e);
                    proof {
                        lemma_exprs_view(exprs@);
                        lemma_exprs_view(old_exprs);
                        assert(exprs_view(exprs@) =~= exprs_view(old_exprs).push(e@));
                        assert(exprs_view(old_exprs).push(e@) + spec_expression_list(rest.subrange(1, rest.len() as int))->0
                            =~= exprs_view(old_exprs) + (seq![e@] + spec_expression_list(rest.subrange(1, rest.len() as int))->0));
                    }
                },
                _ => {},
            }
            i += 1;
        }
        assert(children.subrange(i as int, children.len() as int) =~= Seq::<SpecChild>::empty());
        assert(exprs_view(exprs@) + Seq::<SpecExpression>::empty() =~= exprs_view(exprs@));
        exprs
    }

    /// Pushes an entry to the log.
    fn log(&mut self, error: TreeHirifierError)
        ensures
            final(self)@ == with_logs(old(self)@, seq![log_view(TreeHirifierLog::Error(error))]),
    {
        let ghost old_logs = self.logs@;
        let entry = TreeHirifierLog::Error(error);
        self.logs.push(entry);
        assert(logs_view(self.logs@) =~= logs_view(old_logs) + seq![log_view(entry)]);
    }

    pub fn formal_argument(&mut self, index: usize, node: &SyntaxNode) -> (argument: HirIdentifierBinding<HirFormalArgument>)
        requires
            spec_formal_argument(index as int, node@) is Some,
        ensures
            crate::hir::ir::item::formal_argument_view(argument) == spec_formal_argument(index as int, node@).unwrap().0,
            final(self)@ == with_logs(old(self)@, spec_formal_argument(index as int, node@).unwrap().1),
    {
        let mutability = if node.has_leaf("mut") {
            HirMutability::Mutable
        } else {
            HirMutability::Immutable
        };
        let (id, data_type) = if let Some(id_node) = node.find_node_or_none("Identifier::identifier") {
            let id = self.identifier(id_node);
            let data_type = self.data_type(node.find_node("DataType::data_type"));
            assert(old(self)@.logs + Seq::<SpecLog>::empty() =~= old(self)@.logs);
            (id, data_type)
        } else if node.has_leaf("self") {
            if index != 0 {
                self.log(TreeHirifierError::SelfArgumentMustLocateFirstPosition);
            } else {
                assert(old(self)@.logs + Seq::<SpecLog>::empty() =~= old(self)@.logs);
            }
            let id = String::from_str("self");
            (id, HirDataType::Primitive(HirPrimitiveDataType::SelfType))
        } else {
            vstd::pervasive::unreached()
        };
        HirIdentifierBinding::new(HirIdentifier(id), HirFormalArgument { mutability, data_type })
    }

    pub fn function(&mut self, node: &SyntaxNode) -> (result: (String, HirFunction))
        requires
            spec_function(node@) is Some,
        ensures
            result.0@ == spec_function(node@).unwrap().0,
            result.1@ == spec_function(node@).unwrap().1,
            final(self)@ == with_logs(old(self)@, spec_function(node@).unwrap().2),
    {
        let id = self.identifier(node.find_node("Identifier::identifier"));
        let accessibility = self.accessibility(node.find_node("Main::accessibility"));
        let return_type = match node.find_node_or_none("DataType::data_type") {
            Some(v) => self.data_type(v),
            None => HirDataType::Primitive(HirPrimitiveDataType::NoneType),
        };
        let args_node = node.find_node("args");
        let ghost arg_nodes = nodes_of(args_node@.children);
        let ghost st0 = self@;
        let mut arguments: Vec<HirIdentifierBinding<HirFormalArgument>> = Vec::new();
        let mut i: usize = 0;
        let mut k: usize = 0;
        proof {
            lemma_children_view(args_node.children@);
            assert(args_node@.children.take(0) =~= Seq::<SpecChild>::empty());
            assert(nodes_of(args_node@.children.take(0)) =~= Seq::<SpecNode>::empty());
            assert(arg_nodes.subrange(0, arg_nodes.len() as int) =~= arg_nodes);
            assert(st0.logs + Seq::<SpecLog>::empty() =~= st0.logs);
        }
        while i < args_node.children.len()
            invariant
                i <= args_node.children.len(),
                args_node@.children.len() == args_node.children.len(),
                forall|j: int| 0 <= j < args_node.children.len() ==> #[trigger] args_node@.children[j] == args_node.children@[j]@,
                arg_nodes == nodes_of(args_node@.children),
                nodes_of(args_node@.children.take(i as int)) == arg_nodes.take(k as int),
                k <= arg_nodes.len(),
                k == arguments.len(),
                spec_formal_arguments(arg_nodes, 0) is Some,
                spec_formal_arguments(arg_nodes.subrange(k as int, arg_nodes.len() as int), k as int) is Some,
                spec_formal_arguments(arg_nodes, 0).unwrap().0 == arguments@.map_values(
                    |a: HirIdentifierBinding<HirFormalArgument>| crate::hir::ir::item::formal_argument_view(a),
                ) + spec_formal_arguments(arg_nodes.subrange(k as int, arg_nodes.len() as int), k as int).unwrap().0,
                st0.logs + spec_formal_arguments(arg_nodes, 0).unwrap().1 == self@.logs
                    + spec_formal_arguments(arg_nodes.subrange(k as int, arg_nodes.len() as int), k as int).unwrap().1,
                self@.next == st0.next,
                self@.nodes == st0.nodes,
                self@.hakos == st0.hakos,
                self@.items == st0.items,
            decreases args_node.children.len() - i,
        {
            proof {
                lemma_nodes_of_push(args_node@.children.take(i as int), args_node@.children[i as int]);
                assert(args_node@.children.take(i + 1) =~= args_node@.children.take(i as int).push(args_node@.children[i as int]));
                lemma_nodes_of_len(args_node@.children.take(i as int));
                lemma_nodes_of_len(args_node@.children);
                lemma_nodes_of_prefix(args_node@.children, i as int);
                assert(args_node@.children[i as int] == args_node.children@[i as int]@);
            }
            match &args_node.children[i] {
                SyntaxChild::Node(arg_node) => {
                    let ghost rest = arg_nodes.subrange(k as int, arg_nodes.len() as int);
                    proof {
                        assert(arg_nodes.take(k + 1) == arg_nodes.take(k as int).push(arg_node@));
                        assert(rest[0] == arg_node@);
                        assert(rest.subrange(1, rest.len() as int) =~= arg_nodes.subrange(k + 1, arg_nodes.len() as int));
                    }
                    let ghost before_logs = self@.logs;
                    let ghost before_args = arguments@;
                    let argument = self.formal_argument(k, arg_node);
                    arguments.push(argument);
                    proof {
                        let f = |a: HirIdentifierBinding<HirFormalArgument>| crate::hir::ir::item::formal_argument_view(a);
                        let r1 = spec_formal_arguments(arg_nodes.subrange(k + 1, arg_nodes.len() as int), k + 1)->0;
                        let this = spec_formal_argument(k as int, arg_node@)->0;
                        assert(arguments@.map_values(f) =~= before_args.map_values(f).push(this.0));
                        assert(before_args.map_values(f).push(this.0) + r1.0 =~= before_args.map_values(f) + (seq![this.0] + r1.0));
                        assert(before_logs + this.1 + r1.1 =~= before_logs + (this.1 + r1.1));
                    }
                    k += 1;
                },
                _ => {},
            }
            i += 1;
        }
        proof {
            assert(args_node@.children.take(i as int) =~= args_node@.children);
            lemma_nodes_of_len(args_node@.children);
            assert(arg_nodes.take(k as int).len() == k);
            assert(arg_nodes.subrange(k as int, arg_nodes.len() as int) =~= Seq::<SpecNode>::empty());
        }
        let expressions = self.expression_list(node.find_node("exprs"));
        proof {
            let f = |a: HirIdentifierBinding<HirFormalArgument>| crate::hir::ir::item::formal_argument_view(a);
            assert(arguments@.map_values(f) + Seq::<(Seq<char>, SpecFormalArgument)>::empty() =~= arguments@.map_values(f));
            assert(self@.logs + Seq::<SpecLog>::empty() =~= self@.logs);
            assert(self@.logs =~= st0.logs + spec_function(node@).unwrap().2);
        }
        let function = HirFunction { accessibility, return_type, arguments, expressions };
        (id, function)
    }
}

proof fn lemma_nodes_of_len(children: Seq<SpecChild>)
    ensures
        nodes_of(children).len() <= children.len(),
    decreases children.len(),
{
    if children.len() > 0 {
        lemma_nodes_of_len(children.subrange(1, children.len() as int));
    }
}

proof fn lemma_nodes_of_prefix(children: Seq<SpecChild>, i: int)
    requires
        0 <= i <= children.len(),
    ensures
        nodes_of(children) == nodes_of(children.take(i)) + nodes_of(children.skip(i)),
    decreases children.len(),
{
    if i == 0 {
        assert(children.take(0) =~= Seq::<SpecChild>::empty());
        assert(children.skip(0) =~= children);
        assert(Seq::<SpecNode>::empty() + nodes_of(children) =~= nodes_of(children));
    } else {
        let rest = children.subrange(1, children.len() as int);
        lemma_nodes_of_prefix(rest, i - 1);
        assert(children.take(i).subrange(1, i) =~= rest.take(i - 1));
        assert(children.skip(i) =~= rest.skip(i - 1));
        if children[0] is Node {
            assert(seq![children[0]->Node_0] + (nodes_of(rest.take(i - 1)) + nodes_of(rest.skip(i - 1)))
                =~= (seq![children[0]->Node_0] + nodes_of(rest.take(i - 1))) + nodes_of(rest.skip(i - 1)));
        }
    }
}

proof fn lemma_leaf_values_prefix(children: Seq<SpecChild>, i: int)
    requires
        0 <= i <= children.len(),
    ensures
        leaf_values(children) == leaf_values(children.take(i)) + leaf_values(children.skip(i)),
    decreases children.len(),
{
    if i == 0 {
        assert(children.take(0) =~= Seq::<SpecChild>::empty());
        assert(children.skip(0) =~= children);
        assert(Seq::<Seq<char>>::empty() + leaf_values(children) =~= leaf_values(children));
    } else {
        let rest = children.subrange(1, children.len() as int);
        lemma_leaf_values_prefix(rest, i - 1);
        assert(children.take(i).subrange(1, i) =~= rest.take(i - 1));
        assert(children.skip(i) =~= rest.skip(i - 1));
        if children[0] is Leaf {
            assert(seq![children[0]->Leaf_1] + (leaf_values(rest.take(i - 1)) + leaf_values(rest.skip(i - 1)))
                =~= (seq![children[0]->Leaf_1] + leaf_values(rest.take(i - 1))) + leaf_values(rest.skip(i - 1)));
        }
    }
}

proof fn lemma_leaf_values_len(children: Seq<SpecChild>)
    ensures
        leaf_values(children).len() <= children.len(),
    decreases children.len(),
{
    if children.len() > 0 {
        lemma_leaf_values_len(children.subrange(1, children.len() as int));
    }
}

impl TreeHirifier {
    /// Hirifies the hakos one after another: the intermediate representation with the
    /// path tree and the items, and the log.
    pub fn hirify(hakos: Vec<&AstHako>) -> (result: (Hir, Vec<TreeHirifierLog>))
        requires
            spec_hakos(hakos@.map_values(|h: &AstHako| (*h)@), initial_state()) is Some,
        ensures
            ({
                let st = spec_hakos(hakos@.map_values(|h: &AstHako| (*h)@), initial_state()).unwrap();
                &&& result.0.path_tree.nodes_view() == st.nodes
                &&& result.0.path_tree.hakos() == st.hakos
                &&& result.0.items@.map_values(|b: HirPathIndexBinding<HirItem>| item_binding_view(b)) == st.items
                &&& logs_view(result.1@) == st.logs
            }),
    {
        let ghost all = hakos@.map_values(|h: &AstHako| (*h)@);
        let mut analyzer = TreeHirifier::new();
        let mut i: usize = 0;
        assert(all.subrange(0, all.len() as int) =~= all);
        while i < hakos.len()
            invariant
                i <= hakos.len(),
                all == hakos@.map_values(|h: &AstHako| (*h)@),
                spec_hakos(all, initial_state()) is Some,
                spec_hakos(all.subrange(i as int, all.len() as int), analyzer@) == spec_hakos(all, initial_state()),
            decreases hakos.len() - i,
        {
            let ghost rest = all.subrange(i as int, all.len() as int);
            assert(rest[0] == (*hakos@[i as int])@);
            assert(rest.subrange(1, rest.len() as int) =~= all.subrange(i + 1, all.len() as int));
            analyzer.hako(hakos[i]);
            i += 1;
        }
        assert(all.subrange(i as int, all.len() as int) =~= Seq::<SpecHako>::empty());
        let hir = Hir { path_tree: analyzer.path_tree, items: analyzer.items };
        (hir, analyzer.logs)
    }

    pub fn new() -> (hirifier: TreeHirifier)
        ensures
            hirifier@ == initial_state(),
    {
        let h = TreeHirifier {
            path_index_generator: HirPathIndexGenerator::new(),
            path_tree: HirPathTree::new(),
            items: Vec::new(),
            logs: Vec::new(),
        };
        assert(h@.nodes =~= Map::<usize, SpecPathNode>::empty());
        assert(h@.items =~= Seq::<(HirPathIndex, SpecItem)>::empty());
        assert(h@.logs =~= Seq::<SpecLog>::empty());
        h
    }

    pub fn use_declaration(&mut self, node: &SyntaxNode) -> (path: HirPath)
        ensures
            path@ == SpecPath::Unresolved(leaf_values(node@.children)),
            final(self)@ == with_logs(old(self)@, spec_use_logs(leaf_values(node@.children), 0)),
    {
        let ghost values = leaf_values(node@.children);
        let ghost st0 = self@;
        let mut segments: Vec<HirIdentifier> = Vec::new();
        let mut i: usize = 0;
        let mut index: usize = 0;
        proof {
            assert(node@.children.take(0) =~= Seq::<SpecChild>::empty());
            assert(leaf_values(node@.children.take(0)) =~= Seq::<Seq<char>>::empty());
            lemma_children_view(node.children@);
            assert(values.subrange(0, values.len() as int) =~= values);
            assert(st0.logs + Seq::<SpecLog>::empty() =~= st0.logs);
            assert(segment_names(segments@) =~= Seq::<Seq<char>>::empty());
        }
        while i < node.children.len()
            invariant
                i <= node.children.len(),
                node@.children.len() == node.children.len(),
                forall|j: int| 0 <= j < node.children.len() ==> #[trigger] node@.children[j] == node.children@[j]@,
                values == leaf_values(node@.children),
                leaf_values(node@.children.take(i as int)) == values.take(index as int),
                index <= values.len(),
                segment_names(segments@) == values.take(index as int),
                st0.logs + spec_use_logs(values, 0) == self@.logs
                    + spec_use_logs(values.subrange(index as int, values.len() as int), index as int),
                self@.next == st0.next,
                self@.nodes == st0.nodes,
                self@.hakos == st0.hakos,
                self@.items == st0.items,
            decreases node.children.len() - i,
        {
            proof {
                lemma_leaf_values_push(node@.children.take(i as int), node@.children[i as int]);
                assert(node@.children.take(i + 1) =~= node@.children.take(i as int).push(node@.children[i as int]));
                lemma_leaf_values_len(node@.children.take(i as int));
                lemma_leaf_values_prefix(node@.children, i as int);
                assert(node@.children[i as int] == node.children@[i as int]@);
            }
            match &node.children[i] {
                SyntaxChild::Leaf(leaf) => {
                    let ghost rest = values.subrange(index as int, values.len() as int);
                    proof {
                        assert(values.take(index + 1) == values.take(index as int).push(leaf.value@));
                        assert(rest[0] == leaf.value@);
                        assert(rest.subrange(1, rest.len() as int) =~= values.subrange(index + 1, values.len() as int));
                    }
                    let ghost before_logs = self@.logs;
                    let new_segment = leaf.value.clone();
                    if index != 0 && (text_eq(&new_segment, "hako") || text_eq(&new_segment, "self")) {
                        self.log(TreeHirifierError::PathSegmentMustLocateFirstPosition { path_segment: new_segment.clone() });
                        proof {
                            let r1 = spec_use_logs(values.subrange(index + 1, values.len() as int), index + 1);
                            assert(before_logs + seq![SpecLog::PathSegmentMustLocateFirstPosition(leaf.value@)] + r1
                                =~= before_logs + (seq![SpecLog::PathSegmentMustLocateFirstPosition(leaf.value@)] + r1));
                        }
                    } else {
                        proof {
                            let r1 = spec_use_logs(values.subrange(index + 1, values.len() as int), index + 1);
                            assert(Seq::<SpecLog>::empty() + r1 =~= r1);
                        }
                    }
                    let ghost old_segments = segments@;
                    segments.push(HirIdentifier(new_segment));
                    assert(segment_names(segments@) =~= segment_names(old_segments).push(leaf.value@));
                    index += 1;
                },
                _ => {},
            }
            i += 1;
        }
        proof {
            assert(node@.children.take(i as int) =~= node@.children);
            lemma_leaf_values_len(node@.children);
            assert(values.take(index as int).len() == index);
            assert(values.subrange(index as int, values.len() as int) =~= Seq::<Seq<char>>::empty());
            assert(self@.logs + Seq::<SpecLog>::empty() =~= self@.logs);
            assert(values.take(index as int) =~= values);
        }
        HirPath::Unresolved(segments)
    }

    /// Adds a node to the path tree under the given index.
    fn add_path_node(&mut self, index: HirPathIndex, node: HirPathNode)
        requires
            !(node.kind is Hako && node.parent is Some),
        ensures
            final(self)@ == add_path_node(old(self)@, index, node@),
    {
        let ghost old_nodes = self.path_tree.node_map();
        self.path_tree.add_node(&mut self.path_index_generator, Some(index), node);
        assert(self.path_tree.nodes_view() =~= old(self)@.nodes.insert(index.0, node@));
    }

    /// Hands out the next path index.
    fn next_index(&mut self) -> (index: HirPathIndex)
        requires
            old(self)@.next < usize::MAX,
        ensures
            index.0 == old(self)@.next,
            final(self)@ == advance(old(self)@),
    {
        self.path_index_generator.generate()
    }

    pub fn item(&mut self, node: &SyntaxNode, parent: HirPathIndex) -> (result: ItemHirifierResult)
        requires
            spec_item(node@, parent, old(self)@) is Some,
        ensures
            (item_result_view(result), final(self)@) == spec_item(node@, parent, old(self)@).unwrap(),
    {
        let path_index = self.next_index();
        let content = node.get_node(0);
        if text_eq(&content.name, "UseDeclaration::use_declaration") {
            ItemHirifierResult::UseDeclaration(self.use_declaration(content))
        } else if text_eq(&content.name, "Function::function") {
            let (id, function) = self.function(content);
            let path_node = HirPathNode {
                id: HirIdentifier(id),
                kind: HirPathKind::Function,
                parent: Some(parent),
                children: Vec::new(),
            };
            assert(path_node@.children =~= Seq::<HirPathIndex>::empty());
            self.add_path_node(path_index, path_node);
            let ghost old_items = self.items@;
            let binding = HirPathIndexBinding::new(path_index, HirItem::Function(function));
            self.items.push(binding);
            proof {
                let f = |b: HirPathIndexBinding<HirItem>| item_binding_view(b);
                assert(self.items@.map_values(f) =~= old_items.map_values(f).push(item_binding_view(binding)));
            }
            ItemHirifierResult::ItemPathIndex(path_index)
        } else {
            vstd::pervasive::unreached()
        }
    }

    pub fn module(&mut self, module: &AstModule, parent: HirPathIndex) -> (path_index: HirPathIndex)
        requires
            spec_module(module@, parent, old(self)@) is Some,
        ensures
            (path_index, final(self)@) == spec_module(module@, parent, old(self)@).unwrap(),
        decreases module,
    {
        let path_index = self.next_index();
        let ghost st1 = self@;
        let ghost subs = spec_modules(module@.submodules, path_index, st1);
        let mut children: Vec<HirPathIndex> = Vec::new();
        let mut k: usize = 0;
        proof {
            lemma_modules_view(module.submodules@);
            assert(module@.submodules.subrange(0, module@.submodules.len() as int) =~= module@.submodules);
            assert(children@ + subs.unwrap().0 =~= subs.unwrap().0);
        }
        while k < module.submodules.len()
            invariant
                k <= module.submodules.len(),
                module@.submodules.len() == module.submodules.len(),
                forall|j: int| 0 <= j < module.submodules.len() ==> #[trigger] module@.submodules[j] == module.submodules@[j]@,
                subs == spec_modules(module@.submodules, path_index, st1),
                subs is Some,
                spec_modules(module@.submodules.subrange(k as int, module@.submodules.len() as int), path_index, self@) is Some,
                subs.unwrap().0 == children@ + spec_modules(
                    module@.submodules.subrange(k as int, module@.submodules.len() as int),
                    path_index,
                    self@,
                ).unwrap().0,
                subs.unwrap().1 == spec_modules(
                    module@.submodules.subrange(k as int, module@.submodules.len() as int),
                    path_index,
                    self@,
                ).unwrap().1,
            decreases module.submodules.len() - k,
        {
            let ghost rest = module@.submodules.subrange(k as int, module@.submodules.len() as int);
            proof {
                assert(rest[0] == module.submodules@[k as int]@);
                assert(rest.subrange(1, rest.len() as int) =~= module@.submodules.subrange(k + 1, module@.submodules.len() as int));
                assert(decreases_to!(module => module.submodules));
            }
            let ghost before = children@;
            let sub_index = self.module(&module.submodules[k], path_index);
            children.push(sub_index);
            proof {
                let r1 = spec_modules(module@.submodules.subrange(k + 1, module@.submodules.len() as int), path_index, self@).unwrap().0;
                assert(before.push(sub_index) + r1 =~= before + (seq![sub_index] + r1));
            }
            k += 1;
        }
        proof {
            assert(module@.submodules.subrange(k as int, module@.submodules.len() as int) =~= Seq::<SpecModule>::empty());
            assert(children@ + Seq::<HirPathIndex>::empty() =~= children@);
        }
        let ghost st2 = self@;
        let ghost item_nodes = nodes_of(module.node@.children);
        let ghost items_result = spec_items(item_nodes, path_index, st2);
        let ghost sub_children = children@;
        let mut i: usize = 0;
        let mut n: usize = 0;
        proof {
            assert(module.node@.children.take(0) =~= Seq::<SpecChild>::empty());
            assert(nodes_of(module.node@.children.take(0)) =~= Seq::<SpecNode>::empty());
            lemma_children_view(module.node.children@);
            assert(item_nodes.subrange(0, item_nodes.len() as int) =~= item_nodes);
            assert(children@ + Seq::<HirPathIndex>::empty() =~= children@);
        }
        while i < module.node.children.len()
            invariant
                i <= module.node.children.len(),
                module.node@.children.len() == module.node.children.len(),
                forall|j: int| 0 <= j < module.node.children.len() ==> #[trigger] module.node@.children[j] == module.node.children@[j]@,
                item_nodes == nodes_of(module.node@.children),
                nodes_of(module.node@.children.take(i as int)) == item_nodes.take(n as int),
                n <= item_nodes.len(),
                items_result == spec_items(item_nodes, path_index, st2),
                items_result is Some,
                spec_items(item_nodes.subrange(n as int, item_nodes.len() as int), path_index, self@) is Some,
                sub_children + items_result.unwrap().0 == children@ + spec_items(
                    item_nodes.subrange(n as int, item_nodes.len() as int),
                    path_index,
                    self@,
                ).unwrap().0,
                items_result.unwrap().1 == spec_items(
                    item_nodes.subrange(n as int, item_nodes.len() as int),
                    path_index,
                    self@,
                ).unwrap().1,
            decreases module.node.children.len() - i,
        {
            proof {
                lemma_nodes_of_push(module.node@.children.take(i as int), module.node@.children[i as int]);
                assert(module.node@.children.take(i + 1) =~= module.node@.children.take(i as int).push(module.node@.children[i as int]));
                lemma_nodes_of_len(module.node@.children.take(i as int));
                lemma_nodes_of_len(module.node@.children);
                lemma_nodes_of_prefix(module.node@.children, i as int);
                assert(module.node@.children[i as int] == module.node.children@[i as int]@);
            }
            match &module.node.children[i] {
                SyntaxChild::Node(each_subitem_node) => {
                    let ghost rest = item_nodes.subrange(n as int, item_nodes.len() as int);
                    proof {
                        assert(item_nodes.take(n + 1) == item_nodes.take(n as int).push(each_subitem_node@));
                        assert(rest[0] == each_subitem_node@);
                        assert(rest.subrange(1, rest.len() as int) =~= item_nodes.subrange(n + 1, item_nodes.len() as int));
                    }
                    let ghost before = children@;
                    match self.item(each_subitem_node, path_index) {
                        ItemHirifierResult::ItemPathIndex(item_index) => {
                            children.push(item_index);
                            proof {
                                let r1 = spec_items(item_nodes.subrange(n + 1, item_nodes.len() as int), path_index, self@).unwrap().0;
                                assert(before.push(item_index) + r1 =~= before + (seq![item_index] + r1));
                            }
                        },
                        ItemHirifierResult::UseDeclaration(_path) => {},
                    }
                    n += 1;
                },
                _ => {},
            }
            i += 1;
        }
        proof {
            assert(module.node@.children.take(i as int) =~= module.node@.children);
            lemma_nodes_of_len(module.node@.children);
            assert(item_nodes.take(n as int).len() == n);
            assert(item_nodes.subrange(n as int, item_nodes.len() as int) =~= Seq::<SpecNode>::empty());
            assert(children@ + Seq::<HirPathIndex>::empty() =~= children@);
        }
        let path_node = HirPathNode {
            id: HirIdentifier(module.id.clone()),
            kind: HirPathKind::Module,
            parent: Some(parent),
            children,
        };
        self.add_path_node(path_index, path_node);
        path_index
    }

    pub fn hako(&mut self, hako: &AstHako)
        requires
            spec_hako(hako@, old(self)@) is Some,
        ensures
            final(self)@ == spec_hako(hako@, old(self)@).unwrap(),
    {
        let path_index = self.next_index();
        let ghost st1 = self@;
        let ghost subs = spec_modules(hako@.modules, path_index, st1);
        let mut child_path_indexes: Vec<HirPathIndex> = Vec::new();
        let mut k: usize = 0;
        proof {
            lemma_modules_view(hako.modules@);
            assert(hako@.modules.subrange(0, hako@.modules.len() as int) =~= hako@.modules);
            assert(child_path_indexes@ + subs.unwrap().0 =~= subs.unwrap().0);
        }
        while k < hako.modules.len()
            invariant
                k <= hako.modules.len(),
                hako@.modules.len() == hako.modules.len(),
                forall|j: int| 0 <= j < hako.modules.len() ==> #[trigger] hako@.modules[j] == hako.modules@[j]@,
                subs == spec_modules(hako@.modules, path_index, st1),
                subs is Some,
                spec_modules(hako@.modules.subrange(k as int, hako@.modules.len() as int), path_index, self@) is Some,
                subs.unwrap().0 == child_path_indexes@ + spec_modules(
                    hako@.modules.subrange(k as int, hako@.modules.len() as int),
                    path_index,
                    self@,
                ).unwrap().0,
                subs.unwrap().1 == spec_modules(
                    hako@.modules.subrange(k as int, hako@.modules.len() as int),
                    path_index,
                    self@,
                ).unwrap().1,
            decreases hako.modules.len() - k,
        {
            let ghost rest = hako@.modules.subrange(k as int, hako@.modules.len() as int);
            proof {
                assert(rest[0] == hako.modules@[k as int]@);
                assert(rest.subrange(1, rest.len() as int) =~= hako@.modules.subrange(k + 1, hako@.modules.len() as int));
            }
            let ghost before = child_path_indexes@;
            let module_path_index = self.module(&hako.modules[k], path_index);
            child_path_indexes.push(module_path_index);
            proof {
                let r1 = spec_modules(hako@.modules.subrange(k + 1, hako@.modules.len() as int), path_index, self@).unwrap().0;
                assert(before.push(module_path_index) + r1 =~= before + (seq![module_path_index] + r1));
            }
            k += 1;
        }
        proof {
            assert(hako@.modules.subrange(k as int, hako@.modules.len() as int) =~= Seq::<SpecModule>::empty());
            assert(child_path_indexes@ + Seq::<HirPathIndex>::empty() =~= child_path_indexes@);
        }
        let path_node = HirPathNode {
            id: HirIdentifier(hako.id.clone()),
            kind: HirPathKind::Hako,
            parent: None,
            children: child_path_indexes,
        };
        self.add_path_node(path_index, path_node);
    }
}

} // verus!
