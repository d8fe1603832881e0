use vstd::prelude::*;
use crate::ast::syntax_tree::{SpecChild, SpecNode};

verus! {

// The grammar of the language, as what parsing each rule at a position of a text
// gives: `None` where the rule does not match there, else the position where the
// match ends and the children that it produces. The grammar is a parsing expression
// grammar: a choice takes its first alternative that matches, a repetition is greedy,
// and nothing backtracks into a finished match.
//
// Rules that can nest take a depth budget: each such rule uses one unit and hands
// the rest to the rules inside it; a rule reached with no budget left does not match.

/// Where a match ends and the children it produces, or `None` for no match.
pub type Parsed = Option<(int, Seq<SpecChild>)>;

// ----- characters -----

#[derive(Clone, Copy)]
pub enum CharClass {
    /// ` `, tab and line feed.
    Whitespace,
    /// ` ` and tab.
    Blank,
    /// `a-z`, `A-Z` and `_`.
    IdentifierStart,
    /// `a-z`, `A-Z`, `0-9` and `_`.
    IdentifierRest,
    /// `0`, `1` and `_`.
    Binary,
    /// `0-7` and `_`.
    Octal,
    /// `0-9`, `a-f`, `A-F` and `_`.
    Hexadecimal,
    /// `0-9` and `_`.
    Decimal,
}

pub open spec fn is_digit(c: char) -> bool {
    '0' <= c && c <= '9'
}

pub open spec fn is_alphabet(c: char) -> bool {
    ('a' <= c && c <= 'z') || ('A' <= c && c <= 'Z')
}

pub open spec fn in_class(c: char, k: CharClass) -> bool {
    match k {
        CharClass::Whitespace => c == ' ' || c == '\t' || c == '\n',
        CharClass::Blank => c == ' ' || c == '\t',
        CharClass::IdentifierStart => is_alphabet(c) || c == '_',
        CharClass::IdentifierRest => is_alphabet(c) || is_digit(c) || c == '_',
        CharClass::Binary => c == '0' || c == '1' || c == '_',
        CharClass::Octal => ('0' <= c && c <= '7') || c == '_',
        CharClass::Hexadecimal => is_digit(c) || ('a' <= c && c <= 'f') || ('A' <= c && c <= 'F') || c == '_',
        CharClass::Decimal => is_digit(c) || c == '_',
    }
}

/// The end of the longest run of characters of the class that starts at `p`.
pub open spec fn run_end(s: Seq<char>, p: int, k: CharClass) -> int
    decreases s.len() - p,
{
    if 0 <= p < s.len() && in_class(s[p], k) {
        run_end(s, p + 1, k)
    } else {
        p
    }
}

pub proof fn lemma_run_end(s: Seq<char>, p: int, k: CharClass)
    ensures
        p <= run_end(s, p, k),
        0 <= p <= s.len() ==> run_end(s, p, k) <= s.len(),
        forall|i: int| p <= i < run_end(s, p, k) ==> 0 <= i < s.len() && #[trigger] in_class(s[i], k),
        0 <= run_end(s, p, k) < s.len() && 0 <= p ==> !in_class(s[run_end(s, p, k)], k),
    decreases s.len() - p,
{
    if 0 <= p < s.len() && in_class(s[p], k) {
        lemma_run_end(s, p + 1, k);
    }
}

/// The end of the whitespace that starts at `p`.
pub open spec fn ws_end(s: Seq<char>, p: int) -> int {
    run_end(s, p, CharClass::Whitespace)
}

/// Whether the text `t` stands at position `p`.
pub open spec fn text_at(s: Seq<char>, p: int, t: Seq<char>) -> bool {
    0 <= p && p + t.len() <= s.len() && s.subrange(p, p + t.len()) == t
}

/// The character at `p`, if there is one, is `c`.
pub open spec fn char_at(s: Seq<char>, p: int, c: char) -> bool {
    0 <= p < s.len() && s[p] == c
}

pub open spec fn leaf(p: int, t: Seq<char>) -> SpecChild {
    SpecChild::Leaf(p as usize, t)
}

pub open spec fn node(name: Seq<char>, children: Seq<SpecChild>) -> SpecChild {
    SpecChild::Node(SpecNode { name, children })
}

/// A literal text, as a leaf.
pub open spec fn p_text(s: Seq<char>, p: int, t: Seq<char>) -> Parsed {
    if text_at(s, p, t) {
        Some((p + t.len(), seq![leaf(p, t)]))
    } else {
        None
    }
}

/// What a rule gives, as one node named after it.
pub open spec fn wrap(name: Seq<char>, r: Parsed) -> Parsed {
    match r {
        Some((e, c)) => Some((e, seq![node(name, c)])),
        None => None,
    }
}

/// The first of two alternatives that matches.
pub open spec fn or(a: Parsed, b: Parsed) -> Parsed {
    match a {
        Some(r) => Some(r),
        None => b,
    }
}

/// An optional element: what it gives, or nothing at `p`.
pub open spec fn optional(r: Parsed, p: int) -> (int, Seq<SpecChild>) {
    match r {
        Some(x) => x,
        None => (p, Seq::empty()),
    }
}

// ----- separators -----

#[derive(Clone, Copy)]
pub enum Separator {
    /// One or more commas, with whitespace around and between them.
    Comma,
    /// `::` with whitespace around it.
    Path,
    /// Zero or more whitespace characters.
    Whitespace,
    /// Zero or more line feeds and semicolons, each with blanks around it.
    Expression,
}

/// Past the commas from `p` on, each after optional whitespace, and the whitespace after
/// the last.
pub open spec fn commas_end(s: Seq<char>, p: int) -> int
    decreases s.len() - p,
{
    let q = ws_end(s, p);
    proof {
        lemma_run_end(s, p, CharClass::Whitespace);
    }
    if char_at(s, q, ',') {
        commas_end(s, q + 1)
    } else {
        q
    }
}

/// Past the expression separators from `p` on.
pub open spec fn expression_separators_end(s: Seq<char>, p: int) -> int
    decreases s.len() - p,
{
    let q = run_end(s, p, CharClass::Blank);
    proof {
        lemma_run_end(s, p, CharClass::Blank);
    }
    if char_at(s, q, '\n') || char_at(s, q, ';') {
        proof {
            lemma_run_end(s, q + 1, CharClass::Blank);
        }
        expression_separators_end(s, run_end(s, q + 1, CharClass::Blank))
    } else {
        p
    }
}

/// Where a separator that starts at `p` ends, if it matches there.
pub open spec fn separator_end(sep: Separator, s: Seq<char>, p: int) -> Option<int> {
    match sep {
        Separator::Comma => {
            let q = ws_end(s, p);
            if char_at(s, q, ',') { Some(commas_end(s, q + 1)) } else { None }
        },
        Separator::Path => {
            let q = ws_end(s, p);
            if text_at(s, q, seq![':', ':']) { Some(ws_end(s, q + 2)) } else { None }
        },
        Separator::Whitespace => Some(ws_end(s, p)),
        Separator::Expression => Some(expression_separators_end(s, p)),
    }
}

// ----- lexical rules -----

/// The length of the reserved word at `p`, or 0 where none stands there.
pub open spec fn reserved_len(s: Seq<char>, p: int) -> int {
    if text_at(s, p, "bool"@) { 4 }
    else if text_at(s, p, "char"@) { 4 }
    else if text_at(s, p, "fn"@) { 2 }
    else if text_at(s, p, "hako"@) { 4 }
    else if text_at(s, p, "none"@) { 4 }
    else if text_at(s, p, "pub"@) { 3 }
    else if text_at(s, p, "str"@) { 3 }
    else if text_at(s, p, "true"@) { 4 }
    else if text_at(s, p, "false"@) { 5 }
    else if text_at(s, p, "usize"@) { 5 }
    else if text_at(s, p, "f32"@) { 3 }
    else { 0 }
}

/// `Identifier::identifier`: a letter or `_` and then letters, digits and `_`, not
/// starting with a reserved word; or a reserved word followed by at least one of
/// them. One leaf with the whole text.
pub open spec fn p_identifier(s: Seq<char>, p: int) -> Parsed {
    let r = reserved_len(s, p);
    if r == 0 {
        if 0 <= p < s.len() && in_class(s[p], CharClass::IdentifierStart) {
            let e = run_end(s, p + 1, CharClass::IdentifierRest);
            Some((e, seq![leaf(p, s.subrange(p, e))]))
        } else {
            None
        }
    } else {
        let e = run_end(s, p + r, CharClass::IdentifierRest);
        if e > p + r {
            Some((e, seq![leaf(p, s.subrange(p, e))]))
        } else {
            None
        }
    }
}

/// A reserved word is no identifier: where one stands, an identifier that matches
/// there goes on past it.
pub proof fn lemma_identifier_is_not_reserved(s: Seq<char>, p: int)
    requires
        reserved_len(s, p) > 0,
    ensures
        match p_identifier(s, p) {
            Some((e, _)) => e > p + reserved_len(s, p),
            None => true,
        },
{
}

/// `Main::accessibility`: `pub@hako`, `pub` or nothing.
pub open spec fn p_accessibility(s: Seq<char>, p: int) -> (int, Seq<SpecChild>) {
    optional(or(p_text(s, p, "pub@hako"@), p_text(s, p, "pub"@)), p)
}

/// `DataType::primitive_number`: `usize` or `f32`.
pub open spec fn p_primitive_number(s: Seq<char>, p: int) -> Parsed {
    or(p_text(s, p, "usize"@), p_text(s, p, "f32"@))
}

/// `DataType::primitive`: a primitive number type, `char` or `str`.
pub open spec fn p_primitive(s: Seq<char>, p: int) -> Parsed {
    or(p_primitive_number(s, p), or(p_text(s, p, "char"@), p_text(s, p, "str"@)))
}

/// `Literal::boolean`: `true` or `false`.
pub open spec fn p_boolean(s: Seq<char>, p: int) -> Parsed {
    or(p_text(s, p, "true"@), p_text(s, p, "false"@))
}

/// The text without its digit separators.
pub open spec fn remove_underscores(t: Seq<char>) -> Seq<char>
    decreases t.len(),
{
    if t.len() == 0 {
        t
    } else {
        let rest = remove_underscores(t.drop_last());
        if t.last() == '_' { rest } else { rest.push(t.last()) }
    }
}

/// What is left of digits without their separators holds no separator, and is no
/// longer than they are.
pub proof fn lemma_separators_removed(t: Seq<char>)
    ensures
        remove_underscores(t).len() <= t.len(),
        forall|i: int| 0 <= i < remove_underscores(t).len() ==> #[trigger] remove_underscores(t)[i] != '_',
    decreases t.len(),
{
    if t.len() > 0 {
        lemma_separators_removed(t.drop_last());
    }
}

pub open spec fn has_capital_hex_letter(t: Seq<char>) -> bool {
    exists|i: int| 0 <= i < t.len() && 'A' <= #[trigger] t[i] && t[i] <= 'F'
}

pub open spec fn error_node(name: Seq<char>, child: SpecChild) -> SpecChild {
    SpecChild::Error(SpecNode { name, children: seq![child] })
}

/// Whether a digit separator stands first or last.
pub open spec fn separator_on_side(raw: Seq<char>) -> bool {
    raw.len() > 0 && (raw[0] == '_' || raw.last() == '_')
}

/// What the digits of an integer become: a leaf without the digit separators, or the
/// mistakes in them, each an error node around that leaf.
pub open spec fn integer_reduce(p: int, raw: Seq<char>) -> Seq<SpecChild> {
    let pure = remove_underscores(raw);
    let l = leaf(p, pure);
    let errors = (if separator_on_side(raw) { seq![error_node("digit_separator_on_side"@, l)] } else { Seq::empty() })
        + (if pure.len() >= 2 && pure[0] == '0' { seq![error_node("starts_with_zero"@, l)] } else { Seq::empty() })
        + (if has_capital_hex_letter(pure) { seq![error_node("has_capital_letter"@, l)] } else { Seq::empty() });
    if errors.len() == 0 { seq![l] } else { errors }
}

/// What the digits of the fraction of a float become, as for an integer, with other
/// mistakes.
pub open spec fn float_reduce(p: int, raw: Seq<char>) -> Seq<SpecChild> {
    let pure = remove_underscores(raw);
    let l = leaf(p, pure);
    let errors = (if separator_on_side(raw) { seq![error_node("digit_separator_on_side"@, l)] } else { Seq::empty() })
        + (if pure.len() >= 2 && pure.last() == '0' { seq![error_node("ends_with_zero"@, l)] } else { Seq::empty() });
    if errors.len() == 0 { seq![l] } else { errors }
}

/// A run of decimal digits and separators, reduced as an integer
/// (`Literal::decimal_number_value`).
pub open spec fn p_decimal_digits(s: Seq<char>, p: int) -> Parsed {
    let e = run_end(s, p, CharClass::Decimal);
    if e > p { Some((e, integer_reduce(p, s.subrange(p, e)))) } else { None }
}

/// A run of decimal digits and separators, reduced as a fraction
/// (`Literal::float_number_value`).
pub open spec fn p_fraction_digits(s: Seq<char>, p: int) -> Parsed {
    let e = run_end(s, p, CharClass::Decimal);
    if e > p { Some((e, float_reduce(p, s.subrange(p, e)))) } else { None }
}

/// A base prefix and a run of digits of that base, reduced as an integer.
pub open spec fn p_radix_number(s: Seq<char>, p: int, prefix: Seq<char>, k: CharClass) -> Parsed {
    if text_at(s, p, prefix) {
        let q = p + prefix.len();
        let e = run_end(s, q, k);
        if e > q { Some((e, integer_reduce(q, s.subrange(q, e)))) } else { None }
    } else {
        None
    }
}

/// The integer value of a number: binary, octal, hexadecimal or decimal, as a node
/// named after its base.
pub open spec fn p_integer_value(s: Seq<char>, p: int) -> Parsed {
    or(wrap("Literal::binary_number"@, p_radix_number(s, p, "0b"@, CharClass::Binary)),
    or(wrap("Literal::octal_number"@, p_radix_number(s, p, "0o"@, CharClass::Octal)),
    or(wrap("Literal::hexadecimal_number"@, p_radix_number(s, p, "0x"@, CharClass::Hexadecimal)),
    wrap("Literal::decimal_number"@, p_decimal_digits(s, p)))))
}

/// `Literal::number_exponent`: `e`, `e-` or the refused `e+`, then the digits as `value`.
pub open spec fn p_number_exponent(s: Seq<char>, p: int) -> Parsed {
    let symbol = if text_at(s, p, "e+"@) {
        Some((p + 2, seq![error_node("explicit_plus_symbol"@, leaf(p, "e+"@))]))
    } else if text_at(s, p, "e-"@) {
        Some((p + 2, seq![leaf(p, "-"@)]))
    } else if text_at(s, p, "e"@) {
        Some((p + 1, seq![leaf(p, "+"@)]))
    } else {
        None
    };
    match symbol {
        Some((q, c)) => match wrap("value"@, p_decimal_digits(s, q)) {
            Some((e, v)) => Some((e, c + v)),
            None => None,
        },
        None => None,
    }
}

/// An optional data type suffix of a number, as a `DataType::primitive_number` node.
pub open spec fn p_suffix(s: Seq<char>, p: int) -> (int, Seq<SpecChild>) {
    optional(wrap("DataType::primitive_number"@, p_primitive_number(s, p)), p)
}

/// `Literal::float_number`: the `integer` digits, `.`, the `float` digits and an
/// optional suffix.
pub open spec fn p_float_number(s: Seq<char>, p: int) -> Parsed {
    match wrap("integer"@, p_decimal_digits(s, p)) {
        Some((q, ci)) => if char_at(s, q, '.') {
            match wrap("float"@, p_fraction_digits(s, q + 1)) {
                Some((q2, cf)) => {
                    let (e, cs) = p_suffix(s, q2);
                    Some((e, ci + cf + cs))
                },
                None => None,
            }
        } else {
            None
        },
        None => None,
    }
}

/// An integer: its `value`, an optional exponent and an optional suffix.
pub open spec fn p_integer(s: Seq<char>, p: int) -> Parsed {
    match wrap("value"@, p_integer_value(s, p)) {
        Some((q, cv)) => {
            let (q2, cx) = optional(wrap("Literal::number_exponent"@, p_number_exponent(s, q)), q);
            let (e, cs) = p_suffix(s, q2);
            Some((e, cv + cx + cs))
        },
        None => None,
    }
}

/// `Literal::number`: a float number, else an integer.
pub open spec fn p_number(s: Seq<char>, p: int) -> Parsed {
    or(wrap("Literal::float_number"@, p_float_number(s, p)), p_integer(s, p))
}

/// `Literal::literal`: a boolean or a number.
pub open spec fn p_literal(s: Seq<char>, p: int) -> Parsed {
    or(wrap("Literal::boolean"@, p_boolean(s, p)), wrap("Literal::number"@, p_number(s, p)))
}

/// A prefix operator `!`, `~` or `-`, as a leaf with `e` after the symbol.
pub open spec fn p_prefix_operator(s: Seq<char>, p: int) -> Parsed {
    if char_at(s, p, '!') || char_at(s, p, '~') || char_at(s, p, '-') {
        Some((p + 1, seq![leaf(p, seq![s[p], 'e'])]))
    } else {
        None
    }
}

/// An infix operator: `=`, `+`, `-`, `*`, `.` or `::`.
pub open spec fn p_infix_operator(s: Seq<char>, p: int) -> Parsed {
    or(p_text(s, p, "="@), or(p_text(s, p, "+"@), or(p_text(s, p, "-"@),
    or(p_text(s, p, "*"@), or(p_text(s, p, "."@), p_text(s, p, "::"@))))))
}

// ----- symbols -----

/// `Symbol::whitespace`: a space, a tab or a line feed.
pub open spec fn p_whitespace(s: Seq<char>, p: int) -> Parsed {
    or(p_text(s, p, " "@), or(p_text(s, p, "\t"@), p_text(s, p, "\n"@)))
}

/// `Symbol::around_expression_separator`: a space or a tab.
pub open spec fn p_blank(s: Seq<char>, p: int) -> Parsed {
    or(p_text(s, p, " "@), p_text(s, p, "\t"@))
}

/// Zero or more blanks, each as a `Symbol::around_expression_separator` node.
pub open spec fn p_blank_nodes(s: Seq<char>, p: int) -> (int, Seq<SpecChild>)
    decreases s.len() - p,
{
    match wrap("Symbol::around_expression_separator"@, p_blank(s, p)) {
        Some((e, c)) => if p < e <= s.len() {
            let (e2, c2) = p_blank_nodes(s, e);
            (e2, c + c2)
        } else {
            (p, Seq::empty())
        },
        None => (p, Seq::empty()),
    }
}

/// `Symbol::expression_separator`: a line feed or a semicolon, with blanks around it.
pub open spec fn p_expression_separator(s: Seq<char>, p: int) -> Parsed {
    let (q, c1) = p_blank_nodes(s, p);
    match or(p_text(s, q, "\n"@), p_text(s, q, ";"@)) {
        Some((q2, c)) => {
            let (e, c3) = p_blank_nodes(s, q2);
            Some((e, c1 + c + c3))
        },
        None => None,
    }
}

/// `Identifier::reserved`: a reserved word; a boolean or a primitive number type comes
/// as a node of its rule.
pub open spec fn p_reserved(s: Seq<char>, p: int) -> Parsed {
    or(p_text(s, p, "bool"@), or(p_text(s, p, "char"@), or(p_text(s, p, "fn"@), or(p_text(s, p, "hako"@),
    or(p_text(s, p, "none"@), or(p_text(s, p, "pub"@), or(p_text(s, p, "str"@),
    or(wrap("Literal::boolean"@, p_boolean(s, p)), wrap("DataType::primitive_number"@, p_primitive_number(s, p))))))))))
}

// ----- the rules that nest -----

/// What is repeated or separated in the rules.
#[derive(Clone, Copy)]
pub enum Element {
    /// An `Item::item` node.
    Item,
    /// A `Function::formal_argument` node.
    FormalArgument,
    /// An `Expression::expression` node.
    Expression,
    /// A `DataType::data_type` node, else an identifier as an `Identifier::identifier` node.
    GenericArgument,
    /// `hako`, `self` or an identifier, as a leaf.
    PathSegment,
    /// A prefix operator as an `operator` node.
    PrefixOperator,
    /// A postfix operator as an `operator` node.
    PostfixOperator,
    /// Whitespace, an infix operator as an `operator` node, whitespace and a term.
    InfixTail,
}

pub open spec fn p_element(k: Element, s: Seq<char>, p: int, depth: nat) -> Parsed
    decreases depth, 0int, 2int,
{
    match k {
        Element::Item => wrap("Item::item"@, p_item(s, p, depth)),
        Element::FormalArgument => wrap("Function::formal_argument"@, p_formal_argument(s, p, depth)),
        Element::Expression => wrap("Expression::expression"@, p_expression(s, p, depth)),
        Element::GenericArgument => or(
            wrap("DataType::data_type"@, p_data_type(s, p, depth)),
            wrap("Identifier::identifier"@, p_identifier(s, p)),
        ),
        Element::PathSegment => or(p_text(s, p, "hako"@), or(p_text(s, p, "self"@), p_identifier(s, p))),
        Element::PrefixOperator => wrap("operator"@, p_prefix_operator(s, p)),
        Element::PostfixOperator => wrap("operator"@, p_postfix_operator(s, p, depth)),
        Element::InfixTail => {
            let q = ws_end(s, p);
            match wrap("operator"@, p_infix_operator(s, q)) {
                Some((q2, co)) => match p_term(s, ws_end(s, q2), depth) {
                    Some((e, ct)) => Some((e, co + ct)),
                    None => None,
                },
                None => None,
            }
        },
    }
}

/// Zero or more of an element, each one going further than the last.
pub open spec fn p_repeat(k: Element, s: Seq<char>, p: int, depth: nat) -> (int, Seq<SpecChild>)
    decreases depth, s.len() - p + 1, 0int,
{
    if !(0 <= p <= s.len()) {
        (p, Seq::empty())
    } else {
        match p_element(k, s, p, depth) {
            Some((e, c)) => if p < e <= s.len() {
                let (e2, c2) = p_repeat(k, s, e, depth);
                (e2, c + c2)
            } else {
                (p, Seq::empty())
            },
            None => (p, Seq::empty()),
        }
    }
}

/// After an element: separators and elements in turn, as far as they go; a separator
/// not followed by an element is taken as the end.
pub open spec fn p_separated_rest(k: Element, sep: Separator, s: Seq<char>, p: int, depth: nat) -> (int, Seq<SpecChild>)
    decreases depth, s.len() - p + 1, 0int,
{
    if !(0 <= p <= s.len()) {
        (p, Seq::empty())
    } else {
        match separator_end(sep, s, p) {
            Some(q) => if p <= q <= s.len() {
                match p_element(k, s, q, depth) {
                    Some((e, c)) => if q < e <= s.len() {
                        let (e2, c2) = p_separated_rest(k, sep, s, e, depth);
                        (e2, c + c2)
                    } else {
                        (p, Seq::empty())
                    },
                    None => (q, Seq::empty()),
                }
            } else {
                (p, Seq::empty())
            },
            None => (p, Seq::empty()),
        }
    }
}

/// One or more elements with separators between them, and maybe one after them.
pub open spec fn p_separated(k: Element, sep: Separator, s: Seq<char>, p: int, depth: nat) -> Parsed
    decreases depth, s.len() - p + 2, 0int,
{
    if !(0 <= p <= s.len()) {
        None
    } else {
        match p_element(k, s, p, depth) {
            Some((e, c)) => if p <= e <= s.len() {
                let (e2, c2) = p_separated_rest(k, sep, s, e, depth);
                Some((e2, c + c2))
            } else {
                None
            },
            None => None,
        }
    }
}

/// Separated elements, with a separator before them too.
pub open spec fn p_separated_around(k: Element, sep: Separator, s: Seq<char>, p: int, depth: nat) -> Parsed
    decreases depth, s.len() - p + 3, 0int,
{
    if !(0 <= p <= s.len()) {
        None
    } else {
        let q = match separator_end(sep, s, p) {
            Some(q) => q,
            None => p,
        };
        if p <= q <= s.len() {
            p_separated(k, sep, s, q, depth)
        } else {
            None
        }
    }
}

/// `Main::main`: items with whitespace around and between them, or only whitespace.
pub open spec fn p_main(s: Seq<char>, p: int, depth: nat) -> Parsed
    decreases depth, 0int, 1int,
{
    if depth == 0 {
        None
    } else {
        or(p_separated_around(Element::Item, Separator::Whitespace, s, p, (depth - 1) as nat), Some((ws_end(s, p), Seq::empty())))
    }
}

/// `Item::item`: a use declaration or a function.
pub open spec fn p_item(s: Seq<char>, p: int, depth: nat) -> Parsed
    decreases depth, 0int, 1int,
{
    if depth == 0 {
        None
    } else {
        or(
            wrap("UseDeclaration::use_declaration"@, p_use_declaration(s, p, (depth - 1) as nat)),
            wrap("Function::function"@, p_function(s, p, (depth - 1) as nat)),
        )
    }
}

/// `Main::item`: a function.
pub open spec fn p_main_item(s: Seq<char>, p: int, depth: nat) -> Parsed {
    if depth == 0 {
        None
    } else {
        wrap("Function::function"@, p_function(s, p, (depth - 1) as nat))
    }
}

/// `UseDeclaration::use_declaration`: `use`, whitespace, and path segments separated
/// by `::`.
pub open spec fn p_use_declaration(s: Seq<char>, p: int, depth: nat) -> Parsed
    decreases depth, 0int, 1int,
{
    if depth == 0 {
        None
    } else if text_at(s, p, "use"@) {
        let q = ws_end(s, p + 3);
        if q > p + 3 {
            p_separated(Element::PathSegment, Separator::Path, s, q, (depth - 1) as nat)
        } else {
            None
        }
    } else {
        None
    }
}

/// The formal arguments of a function, separated by commas in parentheses, as an
/// `args` node.
pub open spec fn p_function_arguments(s: Seq<char>, p: int, depth: nat) -> Parsed
    decreases depth, 0int, 0int,
{
    if depth == 0 {
        None
    } else if char_at(s, p, '(') {
        let q = ws_end(s, p + 1);
        let (q2, c) = optional(p_separated(Element::FormalArgument, Separator::Comma, s, q, (depth - 1) as nat), q);
        let q3 = ws_end(s, q2);
        if char_at(s, q3, ')') {
            Some((q3 + 1, seq![node("args"@, c)]))
        } else {
            None
        }
    } else {
        None
    }
}

/// The expressions of a function in braces, as an `exprs` node.
pub open spec fn p_function_block(s: Seq<char>, p: int, depth: nat) -> Parsed
    decreases depth, 0int, 0int,
{
    if depth == 0 {
        None
    } else if char_at(s, p, '{') {
        let q = ws_end(s, p + 1);
        let (q2, c) = optional(p_separated_around(Element::Expression, Separator::Expression, s, q, (depth - 1) as nat), q);
        let q3 = ws_end(s, q2);
        if char_at(s, q3, '}') {
            Some((q3 + 1, seq![node("exprs"@, c)]))
        } else {
            None
        }
    } else {
        None
    }
}

/// The start of a function: its accessibility, `fn` and its name, as the
/// `Main::accessibility` and `Identifier::identifier` nodes.
pub open spec fn p_function_head(s: Seq<char>, p: int) -> Parsed {
    let (q0, ca) = p_accessibility(s, p);
    let q1 = ws_end(s, q0);
    if text_at(s, q1, "fn"@) {
        match p_identifier(s, ws_end(s, q1 + 2)) {
            Some((q2, ci)) => Some((q2, seq![node("Main::accessibility"@, ca), node("Identifier::identifier"@, ci)])),
            None => None,
        }
    } else {
        None
    }
}

/// The rest of a function: its formal arguments, an optional return type as a
/// `DataType::data_type` node, and its expressions.
pub open spec fn p_function_tail(s: Seq<char>, p: int, depth: nat) -> Parsed
    decreases depth, 0int, 1int,
{
    if depth == 0 {
        None
    } else {
        match p_function_arguments(s, p, depth) {
            Some((q, cargs)) => {
                let q2 = ws_end(s, q);
                let (q3, cret) = optional(wrap("DataType::data_type"@, p_data_type(s, q2, (depth - 1) as nat)), q2);
                match p_function_block(s, ws_end(s, q3), depth) {
                    Some((e, cb)) => Some((e, cargs + cret + cb)),
                    None => None,
                }
            },
            None => None,
        }
    }
}

/// `Function::function`: its start, then the rest.
pub open spec fn p_function(s: Seq<char>, p: int, depth: nat) -> Parsed
    decreases depth, 0int, 2int,
{
    if depth == 0 {
        None
    } else {
        match p_function_head(s, p) {
            Some((q, ch)) => match p_function_tail(s, ws_end(s, q), depth) {
                Some((e, ct)) => Some((e, ch + ct)),
                None => None,
            },
            None => None,
        }
    }
}

/// `Function::formal_argument`: an optional `mut` with whitespace, then `self`, or a
/// name, whitespace and a data type.
pub open spec fn p_formal_argument(s: Seq<char>, p: int, depth: nat) -> Parsed
    decreases depth, 0int, 1int,
{
    if depth == 0 {
        None
    } else {
        let (q, cm) = if text_at(s, p, "mut"@) && ws_end(s, p + 3) > p + 3 {
            (ws_end(s, p + 3), seq![leaf(p, "mut"@)])
        } else {
            (p, Seq::empty())
        };
        match p_text(s, q, "self"@) {
            Some((e, c)) => Some((e, cm + c)),
            None => match p_identifier(s, q) {
                Some((q2, ci)) => {
                    let q3 = ws_end(s, q2);
                    if q3 > q2 {
                        match p_data_type(s, q3, (depth - 1) as nat) {
                            Some((e, cd)) => Some((e, cm + seq![node("Identifier::identifier"@, ci), node("DataType::data_type"@, cd)])),
                            None => None,
                        }
                    } else {
                        None
                    }
                },
                None => None,
            },
        }
    }
}

/// `DataType::data_type`: a primitive data type or a generic one.
pub open spec fn p_data_type(s: Seq<char>, p: int, depth: nat) -> Parsed
    decreases depth, 0int, 1int,
{
    if depth == 0 {
        None
    } else {
        or(wrap("DataType::primitive"@, p_primitive(s, p)), wrap("DataType::generic"@, p_generic(s, p, (depth - 1) as nat)))
    }
}

/// `DataType::generic`: a name and, in angle brackets, arguments separated by commas
/// as an `args` node.
pub open spec fn p_generic(s: Seq<char>, p: int, depth: nat) -> Parsed
    decreases depth, 0int, 1int,
{
    if depth == 0 {
        None
    } else {
        match p_identifier(s, p) {
            Some((q, ci)) => {
                let q2 = ws_end(s, q);
                if char_at(s, q2, '<') {
                    match p_separated(Element::GenericArgument, Separator::Comma, s, ws_end(s, q2 + 1), (depth - 1) as nat) {
                        Some((q3, ca)) => if char_at(s, q3, '>') {
                            Some((q3 + 1, seq![node("Identifier::identifier"@, ci), node("args"@, ca)]))
                        } else {
                            None
                        },
                        None => None,
                    }
                } else {
                    None
                }
            },
            None => None,
        }
    }
}

/// The children of an `Expression::expression`: the operation node; or, where the
/// operation is a single term without operators, what that term holds.
pub open spec fn expose(c: Seq<SpecChild>) -> Seq<SpecChild> {
    if c.len() == 1 && c[0] is Node && c[0]->Node_0.children.len() > 0 {
        seq![c[0]->Node_0.children.last()]
    } else {
        seq![node("Operation::operation"@, c)]
    }
}

/// `Expression::expression`: an operation, exposed.
pub open spec fn p_expression(s: Seq<char>, p: int, depth: nat) -> Parsed
    decreases depth, 0int, 1int,
{
    if depth == 0 {
        None
    } else {
        match p_operation(s, p, (depth - 1) as nat) {
            Some((e, c)) => Some((e, expose(c))),
            None => None,
        }
    }
}

/// `Operation::operation`: terms with infix operators between them, else one term.
pub open spec fn p_operation(s: Seq<char>, p: int, depth: nat) -> Parsed
    decreases depth, 0int, 1int,
{
    if depth == 0 {
        None
    } else {
        or(p_infix(s, p, (depth - 1) as nat), p_term(s, p, (depth - 1) as nat))
    }
}

/// `Operation::infix`: a term and one or more infix tails.
pub open spec fn p_infix(s: Seq<char>, p: int, depth: nat) -> Parsed
    decreases depth, 0int, 1int,
{
    if depth == 0 {
        None
    } else {
        let d = (depth - 1) as nat;
        match p_term(s, p, d) {
            Some((q, ct)) => match p_element(Element::InfixTail, s, q, d) {
                Some((q2, c1)) => {
                    let (e, c2) = p_repeat(Element::InfixTail, s, q2, d);
                    Some((e, ct + c1 + c2))
                },
                None => None,
            },
            None => None,
        }
    }
}

/// `Operation::term`: prefix operators, a group or a pure expression, and postfix
/// operators, with whitespace between.
pub open spec fn p_term(s: Seq<char>, p: int, depth: nat) -> Parsed
    decreases depth, 0int, 1int,
{
    if depth == 0 {
        None
    } else {
        let d = (depth - 1) as nat;
        let (q, cpre) = p_repeat(Element::PrefixOperator, s, p, d);
        let q2 = ws_end(s, q);
        match or(p_group(s, q2, d), wrap("Expression::pure_expression"@, p_pure_expression(s, q2, d))) {
            Some((q3, cm)) => {
                let (e, cpost) = p_repeat(Element::PostfixOperator, s, ws_end(s, q3), d);
                Some((e, cpre + cm + cpost))
            },
            None => None,
        }
    }
}

/// `Operation::group`: an expression in parentheses, each parenthesis as an `operator`
/// node.
pub open spec fn p_group(s: Seq<char>, p: int, depth: nat) -> Parsed
    decreases depth, 0int, 1int,
{
    if depth == 0 {
        None
    } else if char_at(s, p, '(') {
        match wrap("Expression::expression"@, p_expression(s, ws_end(s, p + 1), (depth - 1) as nat)) {
            Some((q, ce)) => {
                let q2 = ws_end(s, q);
                if char_at(s, q2, ')') {
                    Some((q2 + 1, seq![node("operator"@, seq![leaf(p, "("@)])] + ce + seq![node("operator"@, seq![leaf(q2, ")"@)])]))
                } else {
                    None
                }
            },
            None => None,
        }
    } else {
        None
    }
}

/// `Expression::pure_expression`: a literal, a data type or an identifier.
pub open spec fn p_pure_expression(s: Seq<char>, p: int, depth: nat) -> Parsed
    decreases depth, 0int, 1int,
{
    if depth == 0 {
        None
    } else {
        or(wrap("Literal::literal"@, p_literal(s, p)),
        or(wrap("DataType::data_type"@, p_data_type(s, p, (depth - 1) as nat)),
        wrap("Identifier::identifier"@, p_identifier(s, p))))
    }
}

/// A postfix operator: `!` or `?` as a leaf with `e` before the symbol, or a function
/// call.
pub open spec fn p_postfix_operator(s: Seq<char>, p: int, depth: nat) -> Parsed
    decreases depth, 0int, 1int,
{
    if depth == 0 {
        None
    } else if char_at(s, p, '!') || char_at(s, p, '?') {
        Some((p + 1, seq![leaf(p, seq!['e', s[p]])]))
    } else {
        wrap("Operation::function_call_operator"@, p_function_call(s, p, (depth - 1) as nat))
    }
}

/// `Operation::function_call_operator`: expressions separated by commas, in
/// parentheses.
pub open spec fn p_function_call(s: Seq<char>, p: int, depth: nat) -> Parsed
    decreases depth, 0int, 1int,
{
    if depth == 0 {
        None
    } else if char_at(s, p, '(') {
        let q = ws_end(s, p + 1);
        let (q2, c) = optional(p_separated(Element::Expression, Separator::Comma, s, q, (depth - 1) as nat), q);
        let q3 = ws_end(s, q2);
        if char_at(s, q3, ')') {
            Some((q3 + 1, c))
        } else {
            None
        }
    } else {
        None
    }
}


proof fn lemma_text_at_first(s: Seq<char>, p: int, t: Seq<char>)
    requires
        text_at(s, p, t),
        t.len() > 0,
    ensures
        s[p] == t[0],
{
    assert(s.subrange(p, p + t.len())[0] == s[p]);
}

/// Every infix operator symbol of the language (`=`, `+`, `-`, `*`, `.` and `::`) is
/// taken where it stands, as a leaf with its text and position.
pub proof fn lemma_infix_operator_symbols(s: Seq<char>, p: int)
    ensures
        text_at(s, p, "="@) ==> p_infix_operator(s, p) == Some((p + 1, seq![SpecChild::Leaf(p as usize, "="@)])),
        text_at(s, p, "+"@) ==> p_infix_operator(s, p) == Some((p + 1, seq![SpecChild::Leaf(p as usize, "+"@)])),
        text_at(s, p, "-"@) ==> p_infix_operator(s, p) == Some((p + 1, seq![SpecChild::Leaf(p as usize, "-"@)])),
        text_at(s, p, "*"@) ==> p_infix_operator(s, p) == Some((p + 1, seq![SpecChild::Leaf(p as usize, "*"@)])),
        text_at(s, p, "."@) ==> p_infix_operator(s, p) == Some((p + 1, seq![SpecChild::Leaf(p as usize, "."@)])),
        text_at(s, p, "::"@) ==> p_infix_operator(s, p) == Some((p + 2, seq![SpecChild::Leaf(p as usize, "::"@)])),
{
    reveal_strlit("=");
    reveal_strlit("+");
    reveal_strlit("-");
    reveal_strlit("*");
    reveal_strlit(".");
    reveal_strlit("::");
    let symbols = seq!["="@, "+"@, "-"@, "*"@, "."@, "::"@];
    assert("="@[0] == '=' && "+"@[0] == '+' && "-"@[0] == '-' && "*"@[0] == '*' && "."@[0] == '.' && "::"@[0] == ':');
    assert forall|i: int| 0 <= i < symbols.len() && #[trigger] text_at(s, p, symbols[i]) implies s[p] == symbols[i][0] by {
        lemma_text_at_first(s, p, symbols[i]);
    }
    assert(symbols[0] == "="@ && symbols[1] == "+"@ && symbols[2] == "-"@);
    assert(symbols[3] == "*"@ && symbols[4] == "."@ && symbols[5] == "::"@);
}


/// Between two terms of an operation, each infix operator symbol is taken: after
/// whitespace, the symbol as an `operator` node holding it, then whitespace and the
/// next term.
pub proof fn lemma_infix_tail(s: Seq<char>, p: int, depth: nat, sym: Seq<char>)
    requires
        sym == "="@ || sym == "+"@ || sym == "-"@ || sym == "*"@ || sym == "."@ || sym == "::"@,
        text_at(s, ws_end(s, p), sym),
        p_term(s, ws_end(s, ws_end(s, p) + sym.len()), depth) is Some,
    ensures
        ({
            let term = p_term(s, ws_end(s, ws_end(s, p) + sym.len()), depth)->0;
            p_element(Element::InfixTail, s, p, depth) == Some((
                term.0,
                seq![SpecChild::Node(SpecNode {
                    name: "operator"@,
                    children: seq![SpecChild::Leaf(ws_end(s, p) as usize, sym)],
                })] + term.1,
            ))
        }),
{
    reveal_strlit("::");
    reveal_strlit("=");
    reveal_strlit("+");
    reveal_strlit("-");
    reveal_strlit("*");
    reveal_strlit(".");
    lemma_infix_operator_symbols(s, ws_end(s, p));
}


/// The prefix operators `!`, `~` and `-` and the postfix operators `!` and `?` are taken
/// where they stand, as a leaf that marks the operand's side with `e`: `!e`, `~e`, `-e`
/// before a term, `e!`, `e?` after one.
pub proof fn lemma_prefix_postfix_symbols(s: Seq<char>, p: int, depth: nat)
    ensures
        char_at(s, p, '!') ==> p_prefix_operator(s, p) == Some((p + 1, seq![SpecChild::Leaf(p as usize, "!e"@)])),
        char_at(s, p, '~') ==> p_prefix_operator(s, p) == Some((p + 1, seq![SpecChild::Leaf(p as usize, "~e"@)])),
        char_at(s, p, '-') ==> p_prefix_operator(s, p) == Some((p + 1, seq![SpecChild::Leaf(p as usize, "-e"@)])),
        depth > 0 && char_at(s, p, '!') ==> p_postfix_operator(s, p, depth) == Some((p + 1, seq![SpecChild::Leaf(p as usize, "e!"@)])),
        depth > 0 && char_at(s, p, '?') ==> p_postfix_operator(s, p, depth) == Some((p + 1, seq![SpecChild::Leaf(p as usize, "e?"@)])),
{
    reveal_strlit("!e");
    reveal_strlit("~e");
    reveal_strlit("-e");
    reveal_strlit("e!");
    reveal_strlit("e?");
    if 0 <= p < s.len() {
        assert(seq![s[p], 'e'] =~= seq![s[p], 'e']);
        if s[p] == '!' {
            assert(seq![s[p], 'e'] =~= "!e"@);
            assert(seq!['e', s[p]] =~= "e!"@);
        }
        if s[p] == '~' {
            assert(seq![s[p], 'e'] =~= "~e"@);
        }
        if s[p] == '-' {
            assert(seq![s[p], 'e'] =~= "-e"@);
        }
        if s[p] == '?' {
            assert(seq!['e', s[p]] =~= "e?"@);
        }
    }
}

} // verus!
