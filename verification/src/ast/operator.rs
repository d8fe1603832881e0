use vstd::prelude::*;
use crate::hir::ir::expr::{
    HirExpression, HirOperation, HirOperationSequence, HirOperationToken, HirOperator,
    SpecExpression, SpecOperation, SpecOperator, SpecToken, operator_view, token_view, tokens_view,
};
use crate::hir::ir::path::{HirPath, HirPathSegment, SpecPath, segment_names};
use crate::ast::operator_laws::{groups_closed, lemma_postfix_defined, no_bit_not};

verus! {

pub type OperationParserResult<T> = Result<T, OperationParserError>;

#[derive(Clone, Copy, Debug, PartialEq, Eq, Structural)]
pub enum OperationParserError {
    InvalidKindOfTerm,
    InvalidLengthOfTerm,
}

#[derive(Clone, Copy, Debug, PartialEq, Eq, Structural)]
pub enum OperatorPrecedenceMode {
    InputPrecedence,
    StackPrecedence,
}

/// A value tagged with the position of the token it came from.
struct IndexedToken<T>(usize, T);

impl<T> IndexedToken<T> {
    fn new(index: usize, value: T) -> (token: IndexedToken<T>)
        ensures
            token.0 == index,
            token.1 == value,
    {
        IndexedToken(index, value)
    }

    fn index(&self) -> (index: usize)
        ensures
            index == self.0,
    {
        self.0
    }

    fn value(self) -> (value: T)
        ensures
            value == self.1,
    {
        self.1
    }
}

// ----- operator precedence -----

/// Whether an operator has a precedence in the given mode: `~` has none, and a
/// closing parenthesis has none once it would sit on the operator stack.
pub open spec fn precedence_defined(op: SpecOperator, mode: OperatorPrecedenceMode) -> bool {
    match op {
        SpecOperator::BitNot => false,
        SpecOperator::GroupEnd => mode is InputPrecedence,
        _ => true,
    }
}

/// The precedence of an operator when it is the next input token (`InputPrecedence`)
/// and when it is on top of the operator stack (`StackPrecedence`). An operator with a
/// higher input than stack precedence is right-associative.
pub open spec fn operator_precedence(op: SpecOperator, mode: OperatorPrecedenceMode) -> nat {
    let input = mode is InputPrecedence;
    match op {
        SpecOperator::Substitute => if input { 4 } else { 3 },
        SpecOperator::Add => if input { 5 } else { 6 },
        SpecOperator::Subtract => if input { 5 } else { 6 },
        SpecOperator::Multiply => if input { 7 } else { 8 },
        SpecOperator::Negative => if input { 10 } else { 9 },
        SpecOperator::Not => if input { 10 } else { 9 },
        SpecOperator::Nonnize => if input { 11 } else { 12 },
        SpecOperator::Propagate => if input { 11 } else { 12 },
        SpecOperator::FunctionCall(_) => if input { 11 } else { 12 },
        SpecOperator::MemberAccess => if input { 13 } else { 14 },
        SpecOperator::Path => if input { 15 } else { 16 },
        SpecOperator::GroupBegin => if input { 17 } else { 1 },
        SpecOperator::GroupEnd => 1,
        SpecOperator::BitNot => 0,
    }
}

// ----- conversion into postfix notation -----

/// The rank by which the conversion compares the next input token with the top of
/// the stack: a term outranks every operator; `None` where no precedence is defined.
pub open spec fn token_precedence(t: SpecToken, mode: OperatorPrecedenceMode) -> Option<int> {
    match t {
        SpecToken::Operator(op) => if precedence_defined(op, mode) {
            Some((operator_precedence(op, mode) + 1) as int)
        } else {
            None
        },
        SpecToken::Term(_) => Some(usize::MAX as int),
    }
}

/// One run of the conversion from the given state: `input` is what is left to read,
/// `stack` the pending tokens (top last), `output` what was written. The next input
/// token goes onto the stack when it ranks higher than the top of the stack; the top
/// of the stack is written when it ranks higher; on a tie both are written, the top
/// of the stack first. `None` where a token without precedence would be compared.
pub open spec fn postfix_run(
    input: Seq<SpecToken>,
    stack: Seq<SpecToken>,
    output: Seq<SpecToken>,
) -> Option<Seq<SpecToken>>
    decreases 2 * input.len() + stack.len(),
{
    if input.len() == 0 && stack.len() == 0 {
        Some(output)
    } else {
        let ip = if input.len() > 0 {
            token_precedence(input[0], OperatorPrecedenceMode::InputPrecedence)
        } else {
            Some(0int)
        };
        let sp = if stack.len() > 0 {
            token_precedence(stack.last(), OperatorPrecedenceMode::StackPrecedence)
        } else {
            Some(0int)
        };
        if ip is None || sp is None {
            None
        } else if ip->0 < sp->0 {
            postfix_run(input, stack.drop_last(), output.push(stack.last()))
        } else if sp->0 < ip->0 {
            postfix_run(input.drop_first(), stack.push(input[0]), output)
        } else {
            postfix_run(input.drop_first(), stack.drop_last(), output.push(stack.last()).push(input[0]))
        }
    }
}

/// The postfix order of a token sequence, where the conversion is defined.
pub open spec fn spec_into_postfix(input: Seq<SpecToken>) -> Option<Seq<SpecToken>> {
    postfix_run(input, Seq::empty(), Seq::empty())
}

// ----- construction of the expression from postfix notation -----

/// The segments of `left :: right`: `left` is a name or a path, `right` a name.
pub open spec fn path_join(left: SpecExpression, right: SpecExpression) -> Option<Seq<Seq<char>>> {
    let prefix = match left {
        SpecExpression::Identifier(id) => Some(seq![id]),
        SpecExpression::Operation(op) => match *op {
            SpecOperation::Path(SpecPath::Unresolved(segments)) => Some(segments),
            _ => None,
        },
        _ => None,
    };
    match prefix {
        Some(p) => match right {
            SpecExpression::Identifier(id) => Some(p.push(id)),
            _ => None,
        },
        None => None,
    }
}

pub open spec fn is_binary(op: SpecOperator) -> bool {
    match op {
        SpecOperator::Substitute | SpecOperator::Add | SpecOperator::Subtract
        | SpecOperator::Multiply | SpecOperator::MemberAccess | SpecOperator::Path => true,
        _ => false,
    }
}

/// The operation that a binary operator other than `::` builds.
pub open spec fn binary_operation(op: SpecOperator, l: SpecExpression, r: SpecExpression) -> SpecOperation {
    match op {
        SpecOperator::Substitute => SpecOperation::Substitute(l, r),
        SpecOperator::Add => SpecOperation::Add(l, r),
        SpecOperator::Subtract => SpecOperation::Subtract(l, r),
        SpecOperator::Multiply => SpecOperation::Multiply(l, r),
        _ => SpecOperation::MemberAccess(l, r),
    }
}

/// The operation that a unary operator builds (an opening parenthesis builds a group).
pub open spec fn unary_operation(op: SpecOperator, t: SpecExpression) -> SpecOperation {
    match op {
        SpecOperator::Not => SpecOperation::Not(t),
        SpecOperator::BitNot => SpecOperation::BitNot(t),
        SpecOperator::Negative => SpecOperation::Negative(t),
        SpecOperator::Nonnize => SpecOperation::Nonnize(t),
        SpecOperator::Propagate => SpecOperation::Propagate(t),
        SpecOperator::FunctionCall(args) => SpecOperation::FunctionCall(t, args),
        _ => SpecOperation::Group(t),
    }
}

pub open spec fn spec_path_operation(segments: Seq<Seq<char>>) -> SpecOperation {
    SpecOperation::Path(SpecPath::Unresolved(segments))
}

pub open spec fn operation_expr(op: SpecOperation) -> SpecExpression {
    SpecExpression::Operation(Box::new(op))
}

/// One step of evaluating postfix notation on a stack of expressions (top last):
/// a term is pushed; a binary operator replaces the two topmost expressions, a
/// unary one the topmost, by the operation on them; a closing parenthesis does nothing.
pub open spec fn construct_step(stack: Seq<SpecExpression>, tok: SpecToken) -> Result<
    Seq<SpecExpression>,
    OperationParserError,
> {
    match tok {
        SpecToken::Term(e) => Ok(stack.push(e)),
        SpecToken::Operator(op) => {
            if op is GroupEnd {
                Ok(stack)
            } else if is_binary(op) {
                if stack.len() < 2 {
                    Err(OperationParserError::InvalidLengthOfTerm)
                } else {
                    let l = stack[stack.len() - 2];
                    let r = stack[stack.len() - 1];
                    let rest = stack.take(stack.len() - 2);
                    if op is Path {
                        match path_join(l, r) {
                            Some(segments) => Ok(rest.push(operation_expr(spec_path_operation(segments)))),
                            None => Err(OperationParserError::InvalidKindOfTerm),
                        }
                    } else {
                        Ok(rest.push(operation_expr(binary_operation(op, l, r))))
                    }
                }
            } else {
                if stack.len() < 1 {
                    Err(OperationParserError::InvalidLengthOfTerm)
                } else {
                    Ok(stack.drop_last().push(operation_expr(unary_operation(op, stack.last()))))
                }
            }
        },
    }
}

/// Evaluates the tokens one after another, stopping at the first error.
pub open spec fn construct_run(stack: Seq<SpecExpression>, tokens: Seq<SpecToken>) -> Result<
    Seq<SpecExpression>,
    OperationParserError,
>
    decreases tokens.len(),
{
    if tokens.len() == 0 {
        Ok(stack)
    } else {
        match construct_step(stack, tokens[0]) {
            Ok(s) => construct_run(s, tokens.drop_first()),
            Err(e) => Err(e),
        }
    }
}

/// The expression that postfix notation denotes: the topmost expression left after
/// evaluating all tokens.
pub open spec fn spec_construct_expression(tokens: Seq<SpecToken>) -> Result<SpecExpression, OperationParserError> {
    match construct_run(Seq::empty(), tokens) {
        Ok(s) => if s.len() == 0 {
            Err(OperationParserError::InvalidLengthOfTerm)
        } else {
            Ok(s.last())
        },
        Err(e) => Err(e),
    }
}

/// The model of a parse result.
pub open spec fn result_view(r: OperationParserResult<HirExpression>) -> Result<SpecExpression, OperationParserError> {
    match r {
        Ok(e) => Ok(e@),
        Err(e) => Err(e),
    }
}

/// The expressions of a stack of indexed tokens.
spec fn stack_view(s: Seq<IndexedToken<HirExpression>>) -> Seq<SpecExpression> {
    s.map_values(|t: IndexedToken<HirExpression>| t.1@)
}

/// Indexes strictly increase from the bottom of the stack and stay below `bound`.
spec fn indexes_below(s: Seq<IndexedToken<HirExpression>>, bound: int) -> bool {
    &&& forall|i: int, j: int| 0 <= i < j < s.len() ==> s[i].0 < s[j].0
    &&& forall|i: int| 0 <= i < s.len() ==> s[i].0 < bound
}

pub struct OperationParser;

impl OperationParser {
    /// Parses a token sequence in source order into an expression: converts it into
    /// postfix notation and evaluates that. The tokens hold no `~`, and each `)` closes
    /// a `(` before it: exactly where the conversion is defined (`lemma_postfix_defined`).
    pub fn parse(input: HirOperationSequence) -> (result: OperationParserResult<HirExpression>)
        requires
            no_bit_not(tokens_view(input@)),
            groups_closed(tokens_view(input@), 0),
        ensures
            spec_into_postfix(tokens_view(input@)) is Some,
            result_view(result) == spec_construct_expression(spec_into_postfix(tokens_view(input@))->0),
    {
        proof {
            lemma_postfix_defined(tokens_view(input@));
        }
        let output = OperationParser::into_postfix_notation(input)?;
        OperationParser::construct_expression(output)
    }

    /// Converts a token sequence in source order into postfix notation by comparing
    /// the precedences of the next input token and the top of the operator stack.
    pub fn into_postfix_notation(input: HirOperationSequence) -> (result: OperationParserResult<HirOperationSequence>)
        requires
            no_bit_not(tokens_view(input@)),
            groups_closed(tokens_view(input@), 0),
        ensures
            result matches Ok(output) && Some(tokens_view(output@)) == spec_into_postfix(tokens_view(input@)),
    {
        proof {
            lemma_postfix_defined(tokens_view(input@));
        }
        let mut source = input;
        let ghost all = source@;
        let n = source.len();
        // the input, reversed: its last token is the next one to read
        let mut rest: Vec<HirOperationToken> = Vec::new();
        while source.len() > 0
            invariant
                source.len() + rest.len() == n,
                n == all.len(),
                all == input@,
                source@ == all.take(source.len() as int),
                forall|j: int| 0 <= j < rest.len() ==> rest@[j] == all[n - 1 - j],
            decreases source.len(),
        {
            let t = source.pop().unwrap();
            rest.push(t);
        }
        let mut stack: Vec<HirOperationToken> = Vec::new();
        let mut output: Vec<HirOperationToken> = Vec::new();
        let ghost mut remaining = tokens_view(all);
        assert(tokens_view(stack@) =~= Seq::<SpecToken>::empty());
        assert(tokens_view(output@) =~= Seq::<SpecToken>::empty());

        loop
            invariant
                remaining.len() == rest.len(),
                forall|j: int| 0 <= j < rest.len() ==> token_view(#[trigger] rest@[j]) == remaining[remaining.len() - 1 - j],
                postfix_run(remaining, tokens_view(stack@), tokens_view(output@)) == spec_into_postfix(tokens_view(all)),
                spec_into_postfix(tokens_view(all)) is Some,
                all == input@,
            decreases 2 * rest.len() + stack.len(),
        {
            let ghost sv = tokens_view(stack@);
            let ghost ov = tokens_view(output@);
            if rest.len() == 0 && stack.len() == 0 {
                assert(postfix_run(remaining, sv, ov) == Some(ov));
                return Ok(output);
            }
            proof {
                if rest.len() > 0 {
                    assert(token_view(rest@[rest.len() - 1]) == remaining[0]);
                }
                if stack.len() > 0 {
                    assert(sv.last() == token_view(stack@[stack.len() - 1]));
                }
            }
            let input_precedence = if rest.len() > 0 {
                match &rest[rest.len() - 1] {
                    HirOperationToken::Operator(operator) =>
                        OperationParser::get_operator_precedence(operator, OperatorPrecedenceMode::InputPrecedence) + 1,
                    HirOperationToken::Term(_) => usize::MAX,
                }
            } else {
                0
            };
            let stack_precedence = if stack.len() > 0 {
                match &stack[stack.len() - 1] {
                    HirOperationToken::Operator(operator) =>
                        OperationParser::get_operator_precedence(operator, OperatorPrecedenceMode::StackPrecedence) + 1,
                    HirOperationToken::Term(_) => usize::MAX,
                }
            } else {
                0
            };
            if input_precedence < stack_precedence {
                let t = stack.pop().unwrap();
                output.push(t);
                assert(tokens_view(stack@) =~= sv.drop_last());
                assert(tokens_view(output@) =~= ov.push(sv.last()));
            } else if stack_precedence < input_precedence {
                let t = rest.pop().unwrap();
                stack.push(t);
                proof {
                    assert(tokens_view(stack@) =~= sv.push(remaining[0]));
                    remaining = remaining.drop_first();
                }
            } else {
                let t = stack.pop().unwrap();
                output.push(t);
                let u = rest.pop().unwrap();
                output.push(u);
                proof {
                    assert(tokens_view(stack@) =~= sv.drop_last());
                    assert(tokens_view(output@) =~= ov.push(sv.last()).push(remaining[0]));
                    remaining = remaining.drop_first();
                }
            }
        }
    }

    pub fn get_operator_precedence(operator: &HirOperator, mode: OperatorPrecedenceMode) -> (precedence: usize)
        requires
            precedence_defined(operator_view(*operator), mode),
        ensures
            precedence == operator_precedence(operator_view(*operator), mode),
    {
        let is_input_mode = match mode {
            OperatorPrecedenceMode::InputPrecedence => true,
            OperatorPrecedenceMode::StackPrecedence => false,
        };
        match operator {
            HirOperator::Substitute => if is_input_mode { 4 } else { 3 },
            HirOperator::Add => if is_input_mode { 5 } else { 6 },
            HirOperator::Subtract => if is_input_mode { 5 } else { 6 },
            HirOperator::Multiply => if is_input_mode { 7 } else { 8 },
            HirOperator::Negative => if is_input_mode { 10 } else { 9 },
            HirOperator::Not => if is_input_mode { 10 } else { 9 },
            HirOperator::Nonnize => if is_input_mode { 11 } else { 12 },
            HirOperator::Propagate => if is_input_mode { 11 } else { 12 },
            HirOperator::FunctionCall(_) => if is_input_mode { 11 } else { 12 },
            HirOperator::MemberAccess => if is_input_mode { 13 } else { 14 },
            HirOperator::Path => if is_input_mode { 15 } else { 16 },
            HirOperator::GroupBegin => if is_input_mode { 17 } else { 1 },
            HirOperator::GroupEnd => 1,
            HirOperator::BitNot => 0,
        }
    }
    /// Builds the expression that postfix notation denotes.
    pub fn construct_expression(input: HirOperationSequence) -> (result: OperationParserResult<HirExpression>)
        ensures
            result_view(result) == spec_construct_expression(tokens_view(input@)),
    {
        let mut source = input;
        let ghost all = source@;
        let ghost tokens = tokens_view(all);
        let n = source.len();
        let mut rest: Vec<HirOperationToken> = Vec::new();
        while source.len() > 0
            invariant
                source.len() + rest.len() == n,
                n == all.len(),
                all == input@,
                source@ == all.take(source.len() as int),
                forall|j: int| 0 <= j < rest.len() ==> rest@[j] == all[n - 1 - j],
            decreases source.len(),
        {
            let t = source.pop().unwrap();
            rest.push(t);
        }

        let mut stack: Vec<IndexedToken<HirExpression>> = Vec::new();
        let mut token_index: usize = 0;
        assert(tokens.skip(0) =~= tokens);
        assert(stack_view(stack@) =~= Seq::empty());
        while rest.len() > 0
            invariant
                rest.len() + token_index == n,
                n == all.len(),
                all == input@,
                tokens == tokens_view(all),
                forall|j: int| 0 <= j < rest.len() ==> rest@[j] == all[n - 1 - j],
                indexes_below(stack@, token_index as int),
                construct_run(stack_view(stack@), tokens.skip(token_index as int))
                    == construct_run(Seq::empty(), tokens),
            decreases rest.len(),
        {
            let each_token = rest.pop().unwrap();
            let ghost old_stack = stack_view(stack@);
            assert(tokens.skip(token_index as int)[0] == token_view(each_token));
            assert(tokens.skip(token_index as int).drop_first() =~= tokens.skip(token_index + 1));
            match each_token {
                HirOperationToken::Operator(operator) => {
                    match apply_operator(operator, token_index, &mut stack) {
                        Ok(()) => (),
                        Err(e) => {
                            assert(construct_run(old_stack, tokens.skip(token_index as int)) == Err::<Seq<SpecExpression>, _>(e));
                            return Err(e);
                        },
                    }
                },
                HirOperationToken::Term(term) => {
                    stack.push(IndexedToken::new(token_index, term));
                    assert(stack_view(stack@) =~= old_stack.push(term@));
                },
            }
            token_index += 1;
        }
        assert(tokens.skip(token_index as int) =~= Seq::<SpecToken>::empty());
        let last = match pop_term(&mut stack) {
            Ok(v) => v,
            Err(e) => return Err(e),
        };
        Ok(last.value())
    }
}

/// Applies an operator to the stack of expressions: builds the operation on the
/// topmost one or two expressions, tagged with the position of the operator.
fn apply_operator(
    operator: HirOperator,
    token_index: usize,
    stack: &mut Vec<IndexedToken<HirExpression>>,
) -> (result: OperationParserResult<()>)
    requires
        indexes_below(old(stack)@, token_index as int),
        token_index < usize::MAX,
    ensures
        match construct_step(stack_view(old(stack)@), SpecToken::Operator(operator_view(operator))) {
            Ok(s) => result is Ok && stack_view(final(stack)@) == s
                && indexes_below(final(stack)@, token_index + 1),
            Err(e) => result == Err::<(), _>(e),
        },
{
    let ghost old_stack = stack_view(stack@);
    let ghost len = old_stack.len();
    proof {
        if len >= 2 {
            assert(stack_view(stack@.take(len - 2)) =~= old_stack.take(len - 2));
        }
        if len >= 1 {
            assert(stack_view(stack@.drop_last()) =~= old_stack.drop_last());
        }
    }
    let (output_token_index, operation) = match operator {
        HirOperator::Substitute => {
            let (index, left, right) = pop_two_terms(token_index, stack)?;
            (index, HirOperation::Substitute(left, right))
        },
        HirOperator::Add => {
            let (index, left, right) = pop_two_terms(token_index, stack)?;
            (index, HirOperation::Add(left, right))
        },
        HirOperator::Subtract => {
            let (index, left, right) = pop_two_terms(token_index, stack)?;
            (index, HirOperation::Subtract(left, right))
        },
        HirOperator::Multiply => {
            let (index, left, right) = pop_two_terms(token_index, stack)?;
            (index, HirOperation::Multiply(left, right))
        },
        HirOperator::Not => (token_index, HirOperation::Not(pop_term(stack)?.value())),
        HirOperator::BitNot => (token_index, HirOperation::BitNot(pop_term(stack)?.value())),
        HirOperator::Negative => (token_index, HirOperation::Negative(pop_term(stack)?.value())),
        HirOperator::Nonnize => (token_index, HirOperation::Nonnize(pop_term(stack)?.value())),
        HirOperator::Propagate => (token_index, HirOperation::Propagate(pop_term(stack)?.value())),
        HirOperator::FunctionCall(arguments) => {
            let term = pop_term(stack)?;
            (token_index, HirOperation::FunctionCall(term.value(), arguments))
        },
        HirOperator::MemberAccess => {
            let (index, left, right) = pop_two_terms(token_index, stack)?;
            (index, HirOperation::MemberAccess(left, right))
        },
        HirOperator::Path => {
            let (index, left, right) = pop_two_terms(token_index, stack)?;
            let segments = match join_path_segments(left, right) {
                Some(v) => v,
                None => return Err(OperationParserError::InvalidKindOfTerm),
            };
            (index, HirOperation::Path(HirPath::Unresolved(segments)))
        },
        HirOperator::GroupBegin => (token_index, HirOperation::Group(pop_term(stack)?.value())),
        HirOperator::GroupEnd => return Ok(()),
    };
    let new_operation = HirExpression::Operation(Box::new(operation));
    let ghost before_push = stack_view(stack@);
    stack.push(IndexedToken(output_token_index, new_operation));
    assert(stack_view(stack@) =~= before_push.push(new_operation@));
    Ok(())
}

/// Takes the topmost expression off the stack.
fn pop_term(stack: &mut Vec<IndexedToken<HirExpression>>) -> (result: OperationParserResult<
    IndexedToken<HirExpression>,
>)
    ensures
        old(stack).len() == 0 ==> result == Err::<IndexedToken<HirExpression>, _>(
            OperationParserError::InvalidLengthOfTerm,
        ),
        old(stack).len() > 0 ==> result == Ok::<_, OperationParserError>(old(stack)@.last())
            && final(stack)@ == old(stack)@.drop_last(),
{
    match stack.pop() {
        Some(v) => Ok(v),
        None => Err(OperationParserError::InvalidLengthOfTerm),
    }
}

/// Takes the two topmost expressions off the stack, the one read first on the left.
fn pop_two_terms(operator_index: usize, stack: &mut Vec<IndexedToken<HirExpression>>) -> (result:
    OperationParserResult<(usize, HirExpression, HirExpression)>)
    requires
        forall|i: int, j: int| 0 <= i < j < old(stack).len() ==> old(stack)@[i].0 < old(stack)@[j].0,
    ensures
        old(stack).len() < 2 ==> result == Err::<(usize, HirExpression, HirExpression), _>(
            OperationParserError::InvalidLengthOfTerm,
        ),
        old(stack).len() >= 2 ==> {
            &&& result matches Ok((index, left, right))
            &&& index == operator_index
            &&& left == old(stack)@[old(stack).len() - 2].1
            &&& right == old(stack)@[old(stack).len() - 1].1
            &&& final(stack)@ == old(stack)@.take(old(stack).len() - 2)
        },
{
    let term1 = pop_term(stack)?;
    let term2 = pop_term(stack)?;
    let indexed_terms = if term1.index() < term2.index() {
        (operator_index, term1.value(), term2.value())
    } else {
        (operator_index, term2.value(), term1.value())
    };
    Ok(indexed_terms)
}

/// The segments of `left :: right`, where `left` is a name or an unresolved path and
/// `right` a name.
fn join_path_segments(left: HirExpression, right: HirExpression) -> (segments: Option<Vec<HirPathSegment>>)
    ensures
        match segments {
            Some(s) => path_join(left@, right@) == Some(segment_names(s@)),
            None => path_join(left@, right@) is None,
        },
{
    let mut segments = if let HirExpression::Identifier(v) = left {
        let s = vec![v];
        assert(segment_names(s@) =~= seq![left@->Identifier_0]);
        s
    } else if let HirExpression::Operation(v) = left {
        if let HirOperation::Path(HirPath::Unresolved(v)) = *v {
            v
        } else {
            return None;
        }
    } else {
        return None;
    };
    if let HirExpression::Identifier(v) = right {
        let ghost before = segments@;
        segments.push(v);
        assert(segment_names(segments@) =~= segment_names(before).push(right@->Identifier_0));
    } else {
        return None;
    }
    Some(segments)
}

} // verus!
