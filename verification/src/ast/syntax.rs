use vstd::prelude::*;
use crate::ast::grammar::{
    CharClass, Element, Parsed, Separator, char_at, commas_end, error_node, expression_separators_end,
    float_reduce, has_capital_hex_letter, in_class, integer_reduce, leaf, lemma_run_end, node, p_accessibility,
    p_boolean, p_decimal_digits, p_fraction_digits, p_identifier, p_infix_operator, p_integer,
    p_integer_value, p_literal, p_number, p_number_exponent, p_float_number, p_prefix_operator,
    p_primitive, p_primitive_number, p_radix_number, p_suffix, p_text, remove_underscores,
    reserved_len, run_end, separator_end, separator_on_side, text_at, wrap, ws_end,
    expose, optional, p_data_type, p_element, p_expression, p_formal_argument, p_function,
    p_function_call, p_generic, p_group, p_infix, p_item, p_main, p_operation, p_postfix_operator,
    p_pure_expression, p_repeat, p_separated, p_separated_around, p_separated_rest, p_term,
    p_use_declaration, p_function_arguments, p_function_block, p_function_head, p_function_tail,
    p_blank, p_blank_nodes, p_expression_separator, p_main_item, p_reserved, p_whitespace,
};

use crate::ast::syntax_tree::{SpecChild, SpecNode, SyntaxChild, SyntaxLeaf, SyntaxNode, SyntaxTree, children_view, lemma_children_view};
use crate::text::text_eq;
use crate::text::push_char;
use vstd::string::{StrSliceExecFns, StringExecFns};
use vstd::std_specs::iter::IteratorSpec;

verus! {

/// The model of what a parsing function returns.
pub open spec fn parsed_view(r: Option<(usize, Vec<SyntaxChild>)>) -> Parsed {
    match r {
        Some((e, c)) => Some((e as int, children_view(c@))),
        None => None,
    }
}

/// A match, if there is one, ends between `p` and the end of the text.
pub open spec fn within(r: Option<(usize, Vec<SyntaxChild>)>, p: int, len: int) -> bool {
    match r {
        Some((e, _)) => p <= e <= len,
        None => true,
    }
}

proof fn lemma_children_concat(a: Seq<SyntaxChild>, b: Seq<SyntaxChild>)
    ensures
        children_view(a + b) == children_view(a) + children_view(b),
{
    lemma_children_view(a);
    lemma_children_view(b);
    lemma_children_view(a + b);
    assert(children_view(a + b) =~= children_view(a) + children_view(b));
}

fn concat(a: Vec<SyntaxChild>, b: Vec<SyntaxChild>) -> (c: Vec<SyntaxChild>)
    ensures
        children_view(c@) == children_view(a@) + children_view(b@),
{
    let mut a = a;
    let mut b = b;
    let ghost a0 = a@;
    let ghost b0 = b@;
    a.append(&mut b);
    proof {
        lemma_children_concat(a0, b0);
    }
    a
}

fn single(x: SyntaxChild) -> (c: Vec<SyntaxChild>)
    ensures
        children_view(c@) == seq![x@],
{
    let v = vec![x];
    proof {
        lemma_children_view(v@);
        assert(children_view(v@) =~= seq![x@]);
    }
    v
}

fn none_children() -> (c: Vec<SyntaxChild>)
    ensures
        children_view(c@) == Seq::<SpecChild>::empty(),
{
    let v: Vec<SyntaxChild> = Vec::new();
    proof {
        lemma_children_view(v@);
        assert(children_view(v@) =~= Seq::<SpecChild>::empty());
    }
    v
}

fn new_node(name: &str, children: Vec<SyntaxChild>) -> (x: SyntaxChild)
    ensures
        x@ == node(name@, children_view(children@)),
{
    SyntaxChild::Node(SyntaxNode { name: String::from_str(name), children })
}

fn new_leaf(p: usize, value: String) -> (x: SyntaxChild)
    ensures
        x@ == leaf(p as int, value@),
{
    SyntaxChild::Leaf(SyntaxLeaf { start: p, value })
}

fn wrap_node(name: &str, r: Option<(usize, Vec<SyntaxChild>)>) -> (w: Option<(usize, Vec<SyntaxChild>)>)
    ensures
        parsed_view(w) == wrap(name@, parsed_view(r)),
        forall|p: int, len: int| within(r, p, len) ==> within(w, p, len),
{
    match r {
        Some((e, c)) => Some((e, single(new_node(name, c)))),
        None => None,
    }
}

// ----- characters -----

fn in_class_exec(c: char, k: CharClass) -> (b: bool)
    ensures
        b == in_class(c, k),
{
    match k {
        CharClass::Whitespace => c == ' ' || c == '\t' || c == '\n',
        CharClass::Blank => c == ' ' || c == '\t',
        CharClass::IdentifierStart => ('a' <= c && c <= 'z') || ('A' <= c && c <= 'Z') || c == '_',
        CharClass::IdentifierRest => ('a' <= c && c <= 'z') || ('A' <= c && c <= 'Z') || ('0' <= c && c <= '9') || c == '_',
        CharClass::Binary => c == '0' || c == '1' || c == '_',
        CharClass::Octal => ('0' <= c && c <= '7') || c == '_',
        CharClass::Hexadecimal => ('0' <= c && c <= '9') || ('a' <= c && c <= 'f') || ('A' <= c && c <= 'F') || c == '_',
        CharClass::Decimal => ('0' <= c && c <= '9') || c == '_',
    }
}

fn run_end_exec(s: &Vec<char>, p: usize, k: CharClass) -> (e: usize)
    requires
        p <= s.len(),
    ensures
        e == run_end(s@, p as int, k),
        p <= e <= s.len(),
{
    let mut i = p;
    while i < s.len() && in_class_exec(s[i], k)
        invariant
            p <= i <= s.len(),
            run_end(s@, i as int, k) == run_end(s@, p as int, k),
        decreases s.len() - i,
    {
        i += 1;
    }
    i
}

fn ws(s: &Vec<char>, p: usize) -> (e: usize)
    requires
        p <= s.len(),
    ensures
        e == ws_end(s@, p as int),
        p <= e <= s.len(),
{
    run_end_exec(s, p, CharClass::Whitespace)
}

fn char_at_exec(s: &Vec<char>, p: usize, c: char) -> (b: bool)
    ensures
        b == char_at(s@, p as int, c),
{
    p < s.len() && s[p] == c
}

fn text_at_exec(s: &Vec<char>, p: usize, t: &str) -> (b: bool)
    ensures
        b == text_at(s@, p as int, t@),
{
    let n = t.unicode_len();
    if p > s.len() || n > s.len() - p {
        return false;
    }
    let mut i: usize = 0;
    while i < n
        invariant
            i <= n,
            n == t@.len(),
            p + n <= s.len(),
            forall|j: int| 0 <= j < i ==> s@[p + j] == t@[j],
        decreases n - i,
    {
        if s[p + i] != t.get_char(i) {
            assert(s@.subrange(p as int, p + n)[i as int] != t@[i as int]);
            return false;
        }
        i += 1;
    }
    assert(s@.subrange(p as int, p + n) =~= t@);
    true
}

/// The text between two positions.
fn substring(s: &Vec<char>, from: usize, to: usize) -> (t: String)
    requires
        from <= to <= s.len(),
    ensures
        t@ == s@.subrange(from as int, to as int),
{
    let mut t = String::new();
    let mut i = from;
    while i < to
        invariant
            from <= i <= to <= s.len(),
            t@ == s@.subrange(from as int, i as int),
        decreases to - i,
    {
        push_char(&mut t, s[i]);
        i += 1;
        assert(t@ =~= s@.subrange(from as int, i as int));
    }
    t
}

fn text_exec(s: &Vec<char>, p: usize, t: &str) -> (r: Option<(usize, Vec<SyntaxChild>)>)
    ensures
        parsed_view(r) == p_text(s@, p as int, t@),
        within(r, p as int, s.len() as int),
{
    if text_at_exec(s, p, t) {
        let n = t.unicode_len();
        assert(p + n <= s.len());
        Some((p + n, single(new_leaf(p, String::from_str(t)))))
    } else {
        None
    }
}


// ----- separators -----

fn commas_end_exec(s: &Vec<char>, p: usize) -> (e: usize)
    requires
        p <= s.len(),
    ensures
        e == commas_end(s@, p as int),
        p <= e <= s.len(),
{
    let mut i = p;
    loop
        invariant
            p <= i <= s.len(),
            commas_end(s@, i as int) == commas_end(s@, p as int),
        decreases s.len() - i,
    {
        let q = ws(s, i);
        if char_at_exec(s, q, ',') {
            i = q + 1;
        } else {
            return q;
        }
    }
}

fn expression_separators_end_exec(s: &Vec<char>, p: usize) -> (e: usize)
    requires
        p <= s.len(),
    ensures
        e == expression_separators_end(s@, p as int),
        p <= e <= s.len(),
{
    let mut i = p;
    loop
        invariant
            p <= i <= s.len(),
            expression_separators_end(s@, i as int) == expression_separators_end(s@, p as int),
        decreases s.len() - i,
    {
        let q = run_end_exec(s, i, CharClass::Blank);
        if char_at_exec(s, q, '\n') || char_at_exec(s, q, ';') {
            i = run_end_exec(s, q + 1, CharClass::Blank);
        } else {
            return i;
        }
    }
}

fn separator_end_exec(sep: Separator, s: &Vec<char>, p: usize) -> (e: Option<usize>)
    requires
        p <= s.len(),
    ensures
        match e {
            Some(q) => separator_end(sep, s@, p as int) == Some(q as int) && p <= q <= s.len(),
            None => separator_end(sep, s@, p as int) is None,
        },
{
    match sep {
        Separator::Comma => {
            let q = ws(s, p);
            if char_at_exec(s, q, ',') { Some(commas_end_exec(s, q + 1)) } else { None }
        },
        Separator::Path => {
            let q = ws(s, p);
            if text_at_exec(s, q, "::") {
                proof {
                    reveal_strlit("::");
                    assert("::"@ =~= seq![':', ':']);
                }
                Some(ws(s, q + 2))
            } else {
                proof {
                    reveal_strlit("::");
                    assert("::"@ =~= seq![':', ':']);
                }
                None
            }
        },
        Separator::Whitespace => Some(ws(s, p)),
        Separator::Expression => Some(expression_separators_end_exec(s, p)),
    }
}

// ----- lexical rules -----

fn reserved_len_exec(s: &Vec<char>, p: usize) -> (n: usize)
    ensures
        n == reserved_len(s@, p as int),
{
    proof {
        reveal_strlit("bool");
        reveal_strlit("char");
        reveal_strlit("fn");
        reveal_strlit("hako");
        reveal_strlit("none");
        reveal_strlit("pub");
        reveal_strlit("str");
        reveal_strlit("true");
        reveal_strlit("false");
        reveal_strlit("usize");
        reveal_strlit("f32");
    }
    if text_at_exec(s, p, "bool") { 4 }
    else if text_at_exec(s, p, "char") { 4 }
    else if text_at_exec(s, p, "fn") { 2 }
    else if text_at_exec(s, p, "hako") { 4 }
    else if text_at_exec(s, p, "none") { 4 }
    else if text_at_exec(s, p, "pub") { 3 }
    else if text_at_exec(s, p, "str") { 3 }
    else if text_at_exec(s, p, "true") { 4 }
    else if text_at_exec(s, p, "false") { 5 }
    else if text_at_exec(s, p, "usize") { 5 }
    else if text_at_exec(s, p, "f32") { 3 }
    else { 0 }
}

fn identifier(s: &Vec<char>, p: usize) -> (r: Option<(usize, Vec<SyntaxChild>)>)
    requires
        p <= s.len(),
    ensures
        parsed_view(r) == p_identifier(s@, p as int),
        within(r, p as int, s.len() as int),
{
    let r = reserved_len_exec(s, p);
    if r == 0 {
        if p < s.len() && in_class_exec(s[p], CharClass::IdentifierStart) {
            let e = run_end_exec(s, p + 1, CharClass::IdentifierRest);
            Some((e, single(new_leaf(p, substring(s, p, e)))))
        } else {
            None
        }
    } else {
        assert(text_at(s@, p as int, "bool"@) || text_at(s@, p as int, "char"@) || text_at(s@, p as int, "fn"@)
            || text_at(s@, p as int, "hako"@) || text_at(s@, p as int, "none"@) || text_at(s@, p as int, "pub"@)
            || text_at(s@, p as int, "str"@) || text_at(s@, p as int, "true"@) || text_at(s@, p as int, "false"@)
            || text_at(s@, p as int, "usize"@) || text_at(s@, p as int, "f32"@));
        proof {
            reveal_strlit("bool");
            reveal_strlit("char");
            reveal_strlit("fn");
            reveal_strlit("hako");
            reveal_strlit("none");
            reveal_strlit("pub");
            reveal_strlit("str");
            reveal_strlit("true");
            reveal_strlit("false");
            reveal_strlit("usize");
            reveal_strlit("f32");
        }
        let e = run_end_exec(s, p + r, CharClass::IdentifierRest);
        if e > p + r {
            Some((e, single(new_leaf(p, substring(s, p, e)))))
        } else {
            None
        }
    }
}

fn accessibility(s: &Vec<char>, p: usize) -> (r: (usize, Vec<SyntaxChild>))
    requires
        p <= s.len(),
    ensures
        (r.0 as int, children_view(r.1@)) == p_accessibility(s@, p as int),
        p <= r.0 <= s.len(),
{
    match text_exec(s, p, "pub@hako") {
        Some(x) => x,
        None => match text_exec(s, p, "pub") {
            Some(x) => x,
            None => (p, none_children()),
        },
    }
}

fn primitive_number(s: &Vec<char>, p: usize) -> (r: Option<(usize, Vec<SyntaxChild>)>)
    ensures
        parsed_view(r) == p_primitive_number(s@, p as int),
        within(r, p as int, s.len() as int),
{
    match text_exec(s, p, "usize") {
        Some(x) => Some(x),
        None => text_exec(s, p, "f32"),
    }
}

fn primitive(s: &Vec<char>, p: usize) -> (r: Option<(usize, Vec<SyntaxChild>)>)
    ensures
        parsed_view(r) == p_primitive(s@, p as int),
        within(r, p as int, s.len() as int),
{
    match primitive_number(s, p) {
        Some(x) => Some(x),
        None => match text_exec(s, p, "char") {
            Some(x) => Some(x),
            None => text_exec(s, p, "str"),
        },
    }
}

fn boolean(s: &Vec<char>, p: usize) -> (r: Option<(usize, Vec<SyntaxChild>)>)
    ensures
        parsed_view(r) == p_boolean(s@, p as int),
        within(r, p as int, s.len() as int),
{
    match text_exec(s, p, "true") {
        Some(x) => Some(x),
        None => text_exec(s, p, "false"),
    }
}


fn new_error(name: &str, child: SyntaxChild) -> (x: SyntaxChild)
    ensures
        x@ == error_node(name@, child@),
{
    let children = vec![child];
    proof {
        lemma_children_view(children@);
        assert(children_view(children@) =~= seq![child@]);
    }
    SyntaxChild::Error(SyntaxNode { name: String::from_str(name), children })
}

/// The digits between two positions without their separators, as characters and as a
/// string.
fn digits_without_separators(s: &Vec<char>, from: usize, to: usize) -> (r: (Vec<char>, String))
    requires
        from <= to <= s.len(),
    ensures
        r.0@ == remove_underscores(s@.subrange(from as int, to as int)),
        r.1@ == r.0@,
{
    let mut chars: Vec<char> = Vec::new();
    let mut text = String::new();
    let mut i = from;
    assert(s@.subrange(from as int, from as int) =~= Seq::<char>::empty());
    while i < to
        invariant
            from <= i <= to <= s.len(),
            chars@ == remove_underscores(s@.subrange(from as int, i as int)),
            text@ == chars@,
        decreases to - i,
    {
        let ghost t = s@.subrange(from as int, i + 1);
        assert(t.drop_last() =~= s@.subrange(from as int, i as int));
        assert(t.last() == s@[i as int]);
        let c = s[i];
        if c != '_' {
            chars.push(c);
            push_char(&mut text, c);
        }
        i += 1;
    }
    (chars, text)
}

fn has_capital_exec(t: &Vec<char>) -> (b: bool)
    ensures
        b == has_capital_hex_letter(t@),
{
    let mut i: usize = 0;
    while i < t.len()
        invariant
            i <= t.len(),
            forall|j: int| 0 <= j < i ==> !('A' <= #[trigger] t@[j] && t@[j] <= 'F'),
        decreases t.len() - i,
    {
        if 'A' <= t[i] && t[i] <= 'F' {
            return true;
        }
        i += 1;
    }
    false
}

/// Whether a digit separator stands first or last between two positions.
fn separator_on_side_exec(s: &Vec<char>, from: usize, to: usize) -> (b: bool)
    requires
        from <= to <= s.len(),
    ensures
        b == separator_on_side(s@.subrange(from as int, to as int)),
{
    from < to && (s[from] == '_' || s[to - 1] == '_')
}

fn integer_reduce_exec(s: &Vec<char>, from: usize, to: usize) -> (c: Vec<SyntaxChild>)
    requires
        from <= to <= s.len(),
    ensures
        children_view(c@) == integer_reduce(from as int, s@.subrange(from as int, to as int)),
{
    let (pure, text) = digits_without_separators(s, from, to);
    let mut errors = none_children();
    if separator_on_side_exec(s, from, to) {
        errors = concat(errors, single(new_error("digit_separator_on_side", new_leaf(from, text.clone()))));
    }
    if pure.len() >= 2 && pure[0] == '0' {
        errors = concat(errors, single(new_error("starts_with_zero", new_leaf(from, text.clone()))));
    }
    if has_capital_exec(&pure) {
        errors = concat(errors, single(new_error("has_capital_letter", new_leaf(from, text.clone()))));
    }
    proof {
        lemma_children_view(errors@);
    }
    if errors.len() == 0 {
        single(new_leaf(from, text))
    } else {
        errors
    }
}

fn float_reduce_exec(s: &Vec<char>, from: usize, to: usize) -> (c: Vec<SyntaxChild>)
    requires
        from <= to <= s.len(),
    ensures
        children_view(c@) == float_reduce(from as int, s@.subrange(from as int, to as int)),
{
    let (pure, text) = digits_without_separators(s, from, to);
    let mut errors = none_children();
    if separator_on_side_exec(s, from, to) {
        errors = concat(errors, single(new_error("digit_separator_on_side", new_leaf(from, text.clone()))));
    }
    if pure.len() >= 2 && pure[pure.len() - 1] == '0' {
        errors = concat(errors, single(new_error("ends_with_zero", new_leaf(from, text.clone()))));
    }
    proof {
        lemma_children_view(errors@);
    }
    if errors.len() == 0 {
        single(new_leaf(from, text))
    } else {
        errors
    }
}


// ----- numbers and literals -----

fn decimal_digits(s: &Vec<char>, p: usize) -> (r: Option<(usize, Vec<SyntaxChild>)>)
    requires
        p <= s.len(),
    ensures
        parsed_view(r) == p_decimal_digits(s@, p as int),
        within(r, p as int, s.len() as int),
{
    let e = run_end_exec(s, p, CharClass::Decimal);
    if e > p { Some((e, integer_reduce_exec(s, p, e))) } else { None }
}

fn fraction_digits(s: &Vec<char>, p: usize) -> (r: Option<(usize, Vec<SyntaxChild>)>)
    requires
        p <= s.len(),
    ensures
        parsed_view(r) == p_fraction_digits(s@, p as int),
        within(r, p as int, s.len() as int),
{
    let e = run_end_exec(s, p, CharClass::Decimal);
    if e > p { Some((e, float_reduce_exec(s, p, e))) } else { None }
}

fn radix_number(s: &Vec<char>, p: usize, prefix: &str, k: CharClass) -> (r: Option<(usize, Vec<SyntaxChild>)>)
    requires
        p <= s.len(),
    ensures
        parsed_view(r) == p_radix_number(s@, p as int, prefix@, k),
        within(r, p as int, s.len() as int),
{
    if text_at_exec(s, p, prefix) {
        let q = p + prefix.unicode_len();
        let e = run_end_exec(s, q, k);
        if e > q { Some((e, integer_reduce_exec(s, q, e))) } else { None }
    } else {
        None
    }
}

fn integer_value(s: &Vec<char>, p: usize) -> (r: Option<(usize, Vec<SyntaxChild>)>)
    requires
        p <= s.len(),
    ensures
        parsed_view(r) == p_integer_value(s@, p as int),
        within(r, p as int, s.len() as int),
{
    match wrap_node("Literal::binary_number", radix_number(s, p, "0b", CharClass::Binary)) {
        Some(x) => Some(x),
        None => match wrap_node("Literal::octal_number", radix_number(s, p, "0o", CharClass::Octal)) {
            Some(x) => Some(x),
            None => match wrap_node("Literal::hexadecimal_number", radix_number(s, p, "0x", CharClass::Hexadecimal)) {
                Some(x) => Some(x),
                None => wrap_node("Literal::decimal_number", decimal_digits(s, p)),
            },
        },
    }
}

fn number_exponent(s: &Vec<char>, p: usize) -> (r: Option<(usize, Vec<SyntaxChild>)>)
    requires
        p <= s.len(),
    ensures
        parsed_view(r) == p_number_exponent(s@, p as int),
        within(r, p as int, s.len() as int),
{
    proof {
        reveal_strlit("e+");
        reveal_strlit("e-");
        reveal_strlit("e");
    }
    let (q, c) = if text_at_exec(s, p, "e+") {
        (p + 2, single(new_error("explicit_plus_symbol", new_leaf(p, String::from_str("e+")))))
    } else if text_at_exec(s, p, "e-") {
        (p + 2, single(new_leaf(p, String::from_str("-"))))
    } else if text_at_exec(s, p, "e") {
        (p + 1, single(new_leaf(p, String::from_str("+"))))
    } else {
        return None;
    };
    match wrap_node("value", decimal_digits(s, q)) {
        Some((e, v)) => Some((e, concat(c, v))),
        None => None,
    }
}

fn suffix(s: &Vec<char>, p: usize) -> (r: (usize, Vec<SyntaxChild>))
    requires
        p <= s.len(),
    ensures
        (r.0 as int, children_view(r.1@)) == p_suffix(s@, p as int),
        p <= r.0 <= s.len(),
{
    match wrap_node("DataType::primitive_number", primitive_number(s, p)) {
        Some(x) => x,
        None => (p, none_children()),
    }
}

fn float_number(s: &Vec<char>, p: usize) -> (r: Option<(usize, Vec<SyntaxChild>)>)
    requires
        p <= s.len(),
    ensures
        parsed_view(r) == p_float_number(s@, p as int),
        within(r, p as int, s.len() as int),
{
    match wrap_node("integer", decimal_digits(s, p)) {
        Some((q, ci)) => if char_at_exec(s, q, '.') {
            match wrap_node("float", fraction_digits(s, q + 1)) {
                Some((q2, cf)) => {
                    let (e, cs) = suffix(s, q2);
                    Some((e, concat(concat(ci, cf), cs)))
                },
                None => None,
            }
        } else {
            None
        },
        None => None,
    }
}

fn integer(s: &Vec<char>, p: usize) -> (r: Option<(usize, Vec<SyntaxChild>)>)
    requires
        p <= s.len(),
    ensures
        parsed_view(r) == p_integer(s@, p as int),
        within(r, p as int, s.len() as int),
{
    match wrap_node("value", integer_value(s, p)) {
        Some((q, cv)) => {
            let (q2, cx) = match wrap_node("Literal::number_exponent", number_exponent(s, q)) {
                Some(x) => x,
                None => (q, none_children()),
            };
            let (e, cs) = suffix(s, q2);
            Some((e, concat(concat(cv, cx), cs)))
        },
        None => None,
    }
}

fn number(s: &Vec<char>, p: usize) -> (r: Option<(usize, Vec<SyntaxChild>)>)
    requires
        p <= s.len(),
    ensures
        parsed_view(r) == p_number(s@, p as int),
        within(r, p as int, s.len() as int),
{
    match wrap_node("Literal::float_number", float_number(s, p)) {
        Some(x) => Some(x),
        None => integer(s, p),
    }
}

fn literal(s: &Vec<char>, p: usize) -> (r: Option<(usize, Vec<SyntaxChild>)>)
    requires
        p <= s.len(),
    ensures
        parsed_view(r) == p_literal(s@, p as int),
        within(r, p as int, s.len() as int),
{
    match wrap_node("Literal::boolean", boolean(s, p)) {
        Some(x) => Some(x),
        None => wrap_node("Literal::number", number(s, p)),
    }
}

fn prefix_operator(s: &Vec<char>, p: usize) -> (r: Option<(usize, Vec<SyntaxChild>)>)
    requires
        p <= s.len(),
    ensures
        parsed_view(r) == p_prefix_operator(s@, p as int),
        within(r, p as int, s.len() as int),
{
    if char_at_exec(s, p, '!') || char_at_exec(s, p, '~') || char_at_exec(s, p, '-') {
        let mut value = String::new();
        push_char(&mut value, s[p]);
        push_char(&mut value, 'e');
        assert(value@ =~= seq![s@[p as int], 'e']);
        Some((p + 1, single(new_leaf(p, value))))
    } else {
        None
    }
}

fn infix_operator(s: &Vec<char>, p: usize) -> (r: Option<(usize, Vec<SyntaxChild>)>)
    ensures
        parsed_view(r) == p_infix_operator(s@, p as int),
        within(r, p as int, s.len() as int),
{
    match text_exec(s, p, "=") {
        Some(x) => Some(x),
        None => match text_exec(s, p, "+") {
            Some(x) => Some(x),
            None => match text_exec(s, p, "-") {
                Some(x) => Some(x),
                None => match text_exec(s, p, "*") {
                    Some(x) => Some(x),
                    None => match text_exec(s, p, ".") {
                        Some(x) => Some(x),
                        None => text_exec(s, p, "::"),
                    },
                },
            },
        },
    }
}


// ----- the rules that nest -----

fn element(k: Element, s: &Vec<char>, p: usize, depth: usize) -> (r: Option<(usize, Vec<SyntaxChild>)>)
    requires
        p <= s.len(),
    ensures
        parsed_view(r) == p_element(k, s@, p as int, depth as nat),
        within(r, p as int, s.len() as int),
    decreases depth, 2nat,
{
    match k {
        Element::Item => wrap_node("Item::item", item(s, p, depth)),
        Element::FormalArgument => wrap_node("Function::formal_argument", formal_argument(s, p, depth)),
        Element::Expression => wrap_node("Expression::expression", expression(s, p, depth)),
        Element::GenericArgument => match wrap_node("DataType::data_type", data_type(s, p, depth)) {
            Some(x) => Some(x),
            None => wrap_node("Identifier::identifier", identifier(s, p)),
        },
        Element::PathSegment => match text_exec(s, p, "hako") {
            Some(x) => Some(x),
            None => match text_exec(s, p, "self") {
                Some(x) => Some(x),
                None => identifier(s, p),
            },
        },
        Element::PrefixOperator => wrap_node("operator", prefix_operator(s, p)),
        Element::PostfixOperator => wrap_node("operator", postfix_operator(s, p, depth)),
        Element::InfixTail => {
            let q = ws(s, p);
            match wrap_node("operator", infix_operator(s, q)) {
                Some((q2, co)) => match term(s, ws(s, q2), depth) {
                    Some((e, ct)) => Some((e, concat(co, ct))),
                    None => None,
                },
                None => None,
            }
        },
    }
}

fn repeat(k: Element, s: &Vec<char>, p: usize, depth: usize) -> (r: (usize, Vec<SyntaxChild>))
    requires
        p <= s.len(),
    ensures
        (r.0 as int, children_view(r.1@)) == p_repeat(k, s@, p as int, depth as nat),
        p <= r.0 <= s.len(),
    decreases depth, 3nat,
{
    let mut q = p;
    let mut acc = none_children();
    loop
        invariant
            p <= q <= s.len(),
            p_repeat(k, s@, p as int, depth as nat).0 == p_repeat(k, s@, q as int, depth as nat).0,
            p_repeat(k, s@, p as int, depth as nat).1 == children_view(acc@) + p_repeat(k, s@, q as int, depth as nat).1,
        ensures
            p <= q <= s.len(),
            p_repeat(k, s@, p as int, depth as nat) == (q as int, children_view(acc@)),
        decreases s.len() - q,
    {
        match element(k, s, q, depth) {
            Some((e, c)) => {
                if q < e {
                    let ghost rest = p_repeat(k, s@, e as int, depth as nat).1;
                    assert(children_view(acc@) + (children_view(c@) + rest) =~= (children_view(acc@) + children_view(c@)) + rest);
                    acc = concat(acc, c);
                    q = e;
                } else {
                    assert(children_view(acc@) + Seq::<SpecChild>::empty() =~= children_view(acc@));
                    break;
                }
            },
            None => {
                assert(children_view(acc@) + Seq::<SpecChild>::empty() =~= children_view(acc@));
                break;
            },
        }
    }
    (q, acc)
}

fn separated(k: Element, sep: Separator, s: &Vec<char>, p: usize, depth: usize) -> (r: Option<(usize, Vec<SyntaxChild>)>)
    requires
        p <= s.len(),
    ensures
        parsed_view(r) == p_separated(k, sep, s@, p as int, depth as nat),
        within(r, p as int, s.len() as int),
    decreases depth, 3nat,
{
    match element(k, s, p, depth) {
        None => None,
        Some((e0, c0)) => {
            let mut q = e0;
            let mut acc = c0;
            let mut end = e0;
            loop
                invariant
                    p <= e0 <= q <= s.len(),
                    p_separated(k, sep, s@, p as int, depth as nat) == Some((
                        p_separated_rest(k, sep, s@, q as int, depth as nat).0,
                        children_view(acc@) + p_separated_rest(k, sep, s@, q as int, depth as nat).1,
                    )),
                ensures
                    p <= end <= s.len(),
                    p_separated(k, sep, s@, p as int, depth as nat) == Some((end as int, children_view(acc@))),
                decreases s.len() - q,
            {
                match separator_end_exec(sep, s, q) {
                    None => {
                        assert(children_view(acc@) + Seq::<SpecChild>::empty() =~= children_view(acc@));
                        end = q;
                        break;
                    },
                    Some(q1) => match element(k, s, q1, depth) {
                        None => {
                            assert(children_view(acc@) + Seq::<SpecChild>::empty() =~= children_view(acc@));
                            end = q1;
                            break;
                        },
                        Some((e, c)) => {
                            if q1 < e {
                                let ghost rest = p_separated_rest(k, sep, s@, e as int, depth as nat).1;
                                assert(children_view(acc@) + (children_view(c@) + rest) =~= (children_view(acc@) + children_view(c@)) + rest);
                                acc = concat(acc, c);
                                q = e;
                            } else {
                                assert(children_view(acc@) + Seq::<SpecChild>::empty() =~= children_view(acc@));
                                end = q;
                                break;
                            }
                        },
                    },
                }
            }
            Some((end, acc))
        },
    }
}

fn separated_around(k: Element, sep: Separator, s: &Vec<char>, p: usize, depth: usize) -> (r: Option<(usize, Vec<SyntaxChild>)>)
    requires
        p <= s.len(),
    ensures
        parsed_view(r) == p_separated_around(k, sep, s@, p as int, depth as nat),
        within(r, p as int, s.len() as int),
    decreases depth, 4nat,
{
    let q = match separator_end_exec(sep, s, p) {
        Some(q) => q,
        None => p,
    };
    separated(k, sep, s, q, depth)
}

fn main_rule(s: &Vec<char>, p: usize, depth: usize) -> (r: Option<(usize, Vec<SyntaxChild>)>)
    requires
        p <= s.len(),
    ensures
        parsed_view(r) == p_main(s@, p as int, depth as nat),
        within(r, p as int, s.len() as int),
    decreases depth, 1nat,
{
    if depth == 0 {
        return None;
    }
    match separated_around(Element::Item, Separator::Whitespace, s, p, depth - 1) {
        Some(x) => Some(x),
        None => Some((ws(s, p), none_children())),
    }
}

fn item(s: &Vec<char>, p: usize, depth: usize) -> (r: Option<(usize, Vec<SyntaxChild>)>)
    requires
        p <= s.len(),
    ensures
        parsed_view(r) == p_item(s@, p as int, depth as nat),
        within(r, p as int, s.len() as int),
    decreases depth, 1nat,
{
    if depth == 0 {
        return None;
    }
    match wrap_node("UseDeclaration::use_declaration", use_declaration(s, p, depth - 1)) {
        Some(x) => Some(x),
        None => wrap_node("Function::function", function(s, p, depth - 1)),
    }
}

fn use_declaration(s: &Vec<char>, p: usize, depth: usize) -> (r: Option<(usize, Vec<SyntaxChild>)>)
    requires
        p <= s.len(),
    ensures
        parsed_view(r) == p_use_declaration(s@, p as int, depth as nat),
        within(r, p as int, s.len() as int),
    decreases depth, 1nat,
{
    proof {
        reveal_strlit("use");
    }
    if depth == 0 {
        None
    } else if text_at_exec(s, p, "use") {
        let q = ws(s, p + 3);
        if q > p + 3 {
            separated(Element::PathSegment, Separator::Path, s, q, depth - 1)
        } else {
            None
        }
    } else {
        None
    }
}

fn formal_argument(s: &Vec<char>, p: usize, depth: usize) -> (r: Option<(usize, Vec<SyntaxChild>)>)
    requires
        p <= s.len(),
    ensures
        parsed_view(r) == p_formal_argument(s@, p as int, depth as nat),
        within(r, p as int, s.len() as int),
    decreases depth, 1nat,
{
    proof {
        reveal_strlit("mut");
    }
    if depth == 0 {
        return None;
    }
    let (q, cm) = if text_at_exec(s, p, "mut") && ws(s, p + 3) > p + 3 {
        (ws(s, p + 3), single(new_leaf(p, String::from_str("mut"))))
    } else {
        (p, none_children())
    };
    match text_exec(s, q, "self") {
        Some((e, c)) => Some((e, concat(cm, c))),
        None => match identifier(s, q) {
            Some((q2, ci)) => {
                let q3 = ws(s, q2);
                if q3 > q2 {
                    match data_type(s, q3, depth - 1) {
                        Some((e, cd)) => Some((e, concat(cm, concat(
                            single(new_node("Identifier::identifier", ci)),
                            single(new_node("DataType::data_type", cd)),
                        )))),
                        None => None,
                    }
                } else {
                    None
                }
            },
            None => None,
        },
    }
}

fn data_type(s: &Vec<char>, p: usize, depth: usize) -> (r: Option<(usize, Vec<SyntaxChild>)>)
    requires
        p <= s.len(),
    ensures
        parsed_view(r) == p_data_type(s@, p as int, depth as nat),
        within(r, p as int, s.len() as int),
    decreases depth, 1nat,
{
    if depth == 0 {
        return None;
    }
    match wrap_node("DataType::primitive", primitive(s, p)) {
        Some(x) => Some(x),
        None => wrap_node("DataType::generic", generic(s, p, depth - 1)),
    }
}

fn generic(s: &Vec<char>, p: usize, depth: usize) -> (r: Option<(usize, Vec<SyntaxChild>)>)
    requires
        p <= s.len(),
    ensures
        parsed_view(r) == p_generic(s@, p as int, depth as nat),
        within(r, p as int, s.len() as int),
    decreases depth, 1nat,
{
    if depth == 0 {
        return None;
    }
    match identifier(s, p) {
        Some((q, ci)) => {
            let q2 = ws(s, q);
            if char_at_exec(s, q2, '<') {
                match separated(Element::GenericArgument, Separator::Comma, s, ws(s, q2 + 1), depth - 1) {
                    Some((q3, ca)) => if char_at_exec(s, q3, '>') {
                        Some((q3 + 1, concat(
                            single(new_node("Identifier::identifier", ci)),
                            single(new_node("args", ca)),
                        )))
                    } else {
                        None
                    },
                    None => None,
                }
            } else {
                None
            }
        },
        None => None,
    }
}

/// Whether the children are one node that has children.
fn exposable(c: &Vec<SyntaxChild>) -> (b: bool)
    ensures
        b == ({
            let v = children_view(c@);
            v.len() == 1 && v[0] is Node && v[0]->Node_0.children.len() > 0
        }),
{
    proof {
        lemma_children_view(c@);
    }
    if c.len() == 1 {
        match &c[0] {
            SyntaxChild::Node(n) => {
                proof {
                    lemma_children_view(n.children@);
                }
                n.children.len() > 0
            },
            _ => false,
        }
    } else {
        false
    }
}

fn expose_exec(c: Vec<SyntaxChild>) -> (x: Vec<SyntaxChild>)
    ensures
        children_view(x@) == expose(children_view(c@)),
{
    proof {
        lemma_children_view(c@);
    }
    if exposable(&c) {
        let mut c = c;
        let ghost c0 = c@;
        let first = c.pop().unwrap();
        assert(first == c0[0]);
        match first {
            SyntaxChild::Node(n) => {
                let mut children = n.children;
                proof {
                    lemma_children_view(children@);
                }
                let ghost ch0 = children@;
                let last = children.pop().unwrap();
                assert(last == ch0.last());
                single(last)
            },
            _ => vstd::pervasive::unreached(),
        }
    } else {
        single(new_node("Operation::operation", c))
    }
}

fn expression(s: &Vec<char>, p: usize, depth: usize) -> (r: Option<(usize, Vec<SyntaxChild>)>)
    requires
        p <= s.len(),
    ensures
        parsed_view(r) == p_expression(s@, p as int, depth as nat),
        within(r, p as int, s.len() as int),
    decreases depth, 1nat,
{
    if depth == 0 {
        return None;
    }
    match operation(s, p, depth - 1) {
        Some((e, c)) => Some((e, expose_exec(c))),
        None => None,
    }
}

fn operation(s: &Vec<char>, p: usize, depth: usize) -> (r: Option<(usize, Vec<SyntaxChild>)>)
    requires
        p <= s.len(),
    ensures
        parsed_view(r) == p_operation(s@, p as int, depth as nat),
        within(r, p as int, s.len() as int),
    decreases depth, 1nat,
{
    if depth == 0 {
        return None;
    }
    match infix(s, p, depth - 1) {
        Some(x) => Some(x),
        None => term(s, p, depth - 1),
    }
}

fn infix(s: &Vec<char>, p: usize, depth: usize) -> (r: Option<(usize, Vec<SyntaxChild>)>)
    requires
        p <= s.len(),
    ensures
        parsed_view(r) == p_infix(s@, p as int, depth as nat),
        within(r, p as int, s.len() as int),
    decreases depth, 1nat,
{
    if depth == 0 {
        return None;
    }
    let d = depth - 1;
    match term(s, p, d) {
        Some((q, ct)) => match element(Element::InfixTail, s, q, d) {
            Some((q2, c1)) => {
                let (e, c2) = repeat(Element::InfixTail, s, q2, d);
                Some((e, concat(concat(ct, c1), c2)))
            },
            None => None,
        },
        None => None,
    }
}

fn term(s: &Vec<char>, p: usize, depth: usize) -> (r: Option<(usize, Vec<SyntaxChild>)>)
    requires
        p <= s.len(),
    ensures
        parsed_view(r) == p_term(s@, p as int, depth as nat),
        within(r, p as int, s.len() as int),
    decreases depth, 1nat,
{
    if depth == 0 {
        return None;
    }
    let d = depth - 1;
    let (q, cpre) = repeat(Element::PrefixOperator, s, p, d);
    let q2 = ws(s, q);
    let m = match group(s, q2, d) {
        Some(x) => Some(x),
        None => wrap_node("Expression::pure_expression", pure_expression(s, q2, d)),
    };
    match m {
        Some((q3, cm)) => {
            let (e, cpost) = repeat(Element::PostfixOperator, s, ws(s, q3), d);
            Some((e, concat(concat(cpre, cm), cpost)))
        },
        None => None,
    }
}

fn group(s: &Vec<char>, p: usize, depth: usize) -> (r: Option<(usize, Vec<SyntaxChild>)>)
    requires
        p <= s.len(),
    ensures
        parsed_view(r) == p_group(s@, p as int, depth as nat),
        within(r, p as int, s.len() as int),
    decreases depth, 1nat,
{
    if depth == 0 {
        None
    } else if char_at_exec(s, p, '(') {
        match wrap_node("Expression::expression", expression(s, ws(s, p + 1), depth - 1)) {
            Some((q, ce)) => {
                let q2 = ws(s, q);
                if char_at_exec(s, q2, ')') {
                    let open = single(new_node("operator", single(new_leaf(p, String::from_str("(")))));
                    let close = single(new_node("operator", single(new_leaf(q2, String::from_str(")")))));
                    Some((q2 + 1, concat(concat(open, ce), close)))
                } else {
                    None
                }
            },
            None => None,
        }
    } else {
        None
    }
}

fn pure_expression(s: &Vec<char>, p: usize, depth: usize) -> (r: Option<(usize, Vec<SyntaxChild>)>)
    requires
        p <= s.len(),
    ensures
        parsed_view(r) == p_pure_expression(s@, p as int, depth as nat),
        within(r, p as int, s.len() as int),
    decreases depth, 1nat,
{
    if depth == 0 {
        return None;
    }
    match wrap_node("Literal::literal", literal(s, p)) {
        Some(x) => Some(x),
        None => match wrap_node("DataType::data_type", data_type(s, p, depth - 1)) {
            Some(x) => Some(x),
            None => wrap_node("Identifier::identifier", identifier(s, p)),
        },
    }
}

fn postfix_operator(s: &Vec<char>, p: usize, depth: usize) -> (r: Option<(usize, Vec<SyntaxChild>)>)
    requires
        p <= s.len(),
    ensures
        parsed_view(r) == p_postfix_operator(s@, p as int, depth as nat),
        within(r, p as int, s.len() as int),
    decreases depth, 1nat,
{
    if depth == 0 {
        None
    } else if char_at_exec(s, p, '!') || char_at_exec(s, p, '?') {
        let mut value = String::new();
        push_char(&mut value, 'e');
        push_char(&mut value, s[p]);
        assert(value@ =~= seq!['e', s@[p as int]]);
        Some((p + 1, single(new_leaf(p, value))))
    } else {
        wrap_node("Operation::function_call_operator", function_call(s, p, depth - 1))
    }
}

fn function_call(s: &Vec<char>, p: usize, depth: usize) -> (r: Option<(usize, Vec<SyntaxChild>)>)
    requires
        p <= s.len(),
    ensures
        parsed_view(r) == p_function_call(s@, p as int, depth as nat),
        within(r, p as int, s.len() as int),
    decreases depth, 1nat,
{
    if depth == 0 {
        None
    } else if char_at_exec(s, p, '(') {
        let q = ws(s, p + 1);
        let (q2, c) = match separated(Element::Expression, Separator::Comma, s, q, depth - 1) {
            Some(x) => x,
            None => (q, none_children()),
        };
        let q3 = ws(s, q2);
        if char_at_exec(s, q3, ')') {
            Some((q3 + 1, c))
        } else {
            None
        }
    } else {
        None
    }
}

fn function_arguments(s: &Vec<char>, p: usize, depth: usize) -> (r: Option<(usize, Vec<SyntaxChild>)>)
    requires
        p <= s.len(),
        depth > 0,
    ensures
        parsed_view(r) == p_function_arguments(s@, p as int, depth as nat),
        within(r, p as int, s.len() as int),
    decreases depth, 0nat,
{
    if char_at_exec(s, p, '(') {
        let q = ws(s, p + 1);
        let (q2, c) = match separated(Element::FormalArgument, Separator::Comma, s, q, depth - 1) {
            Some(x) => x,
            None => (q, none_children()),
        };
        let q3 = ws(s, q2);
        if char_at_exec(s, q3, ')') {
            Some((q3 + 1, single(new_node("args", c))))
        } else {
            None
        }
    } else {
        None
    }
}

fn function_block(s: &Vec<char>, p: usize, depth: usize) -> (r: Option<(usize, Vec<SyntaxChild>)>)
    requires
        p <= s.len(),
        depth > 0,
    ensures
        parsed_view(r) == p_function_block(s@, p as int, depth as nat),
        within(r, p as int, s.len() as int),
    decreases depth, 0nat,
{
    if char_at_exec(s, p, '{') {
        let q = ws(s, p + 1);
        let (q2, c) = match separated_around(Element::Expression, Separator::Expression, s, q, depth - 1) {
            Some(x) => x,
            None => (q, none_children()),
        };
        let q3 = ws(s, q2);
        if char_at_exec(s, q3, '}') {
            Some((q3 + 1, single(new_node("exprs", c))))
        } else {
            None
        }
    } else {
        None
    }
}

fn function_head(s: &Vec<char>, p: usize) -> (r: Option<(usize, Vec<SyntaxChild>)>)
    requires
        p <= s.len(),
    ensures
        parsed_view(r) == p_function_head(s@, p as int),
        within(r, p as int, s.len() as int),
{
    proof {
        reveal_strlit("fn");
    }
    let (q0, ca) = accessibility(s, p);
    let q1 = ws(s, q0);
    if !text_at_exec(s, q1, "fn") {
        return None;
    }
    match identifier(s, ws(s, q1 + 2)) {
        Some((q2, ci)) => {
            let head = concat(single(new_node("Main::accessibility", ca)), single(new_node("Identifier::identifier", ci)));
            proof {
                assert(children_view(head@) =~= seq![
                    crate::ast::grammar::node("Main::accessibility"@, children_view(ca@)),
                    crate::ast::grammar::node("Identifier::identifier"@, children_view(ci@)),
                ]);
            }
            Some((q2, head))
        },
        None => None,
    }
}

fn function_tail(s: &Vec<char>, p: usize, depth: usize) -> (r: Option<(usize, Vec<SyntaxChild>)>)
    requires
        p <= s.len(),
    ensures
        parsed_view(r) == p_function_tail(s@, p as int, depth as nat),
        within(r, p as int, s.len() as int),
    decreases depth, 1nat,
{
    if depth == 0 {
        return None;
    }
    match function_arguments(s, p, depth) {
        Some((q, cargs)) => {
            let q2 = ws(s, q);
            let (q3, cret) = match wrap_node("DataType::data_type", data_type(s, q2, depth - 1)) {
                Some(x) => x,
                None => (q2, none_children()),
            };
            match function_block(s, ws(s, q3), depth) {
                Some((e, cb)) => Some((e, concat(concat(cargs, cret), cb))),
                None => None,
            }
        },
        None => None,
    }
}

fn function(s: &Vec<char>, p: usize, depth: usize) -> (r: Option<(usize, Vec<SyntaxChild>)>)
    requires
        p <= s.len(),
    ensures
        parsed_view(r) == p_function(s@, p as int, depth as nat),
        within(r, p as int, s.len() as int),
    decreases depth, 2nat,
{
    if depth == 0 {
        return None;
    }
    match function_head(s, p) {
        Some((q, ch)) => match function_tail(s, ws(s, q), depth) {
            Some((e, ct)) => Some((e, concat(ch, ct))),
            None => None,
        },
        None => None,
    }
}

/// The characters of a text.
fn text_chars(t: &str) -> (v: Vec<char>)
    ensures
        v@ == t@,
{
    broadcast use vstd::string::axiom_spec_iter, vstd::string::next_postcondition;
    let mut chars = t.chars();
    let mut v: Vec<char> = Vec::new();
    assert(v@ + chars.remaining() =~= t@);
    loop
        invariant
            v@ + chars.remaining() == t@,
            chars.decrease() is Some,
        ensures
            v@ == t@,
        decreases chars.decrease()->0,
    {
        let ghost before = chars.remaining();
        match chars.next() {
            Some(c) => {
                assert(v@.push(c) + chars.remaining() =~= v@ + before);
                v.push(c);
            },
            None => {
                assert(v@ + before =~= v@);
                break;
            },
        }
    }
    v
}


// ----- symbols -----

fn whitespace(s: &Vec<char>, p: usize) -> (r: Option<(usize, Vec<SyntaxChild>)>)
    ensures
        parsed_view(r) == p_whitespace(s@, p as int),
        within(r, p as int, s.len() as int),
{
    match text_exec(s, p, " ") {
        Some(x) => Some(x),
        None => match text_exec(s, p, "\t") {
            Some(x) => Some(x),
            None => text_exec(s, p, "\n"),
        },
    }
}

fn blank(s: &Vec<char>, p: usize) -> (r: Option<(usize, Vec<SyntaxChild>)>)
    ensures
        parsed_view(r) == p_blank(s@, p as int),
        within(r, p as int, s.len() as int),
{
    match text_exec(s, p, " ") {
        Some(x) => Some(x),
        None => text_exec(s, p, "\t"),
    }
}

fn blank_nodes(s: &Vec<char>, p: usize) -> (r: (usize, Vec<SyntaxChild>))
    requires
        p <= s.len(),
    ensures
        (r.0 as int, children_view(r.1@)) == p_blank_nodes(s@, p as int),
        p <= r.0 <= s.len(),
{
    let mut q = p;
    let mut acc = none_children();
    loop
        invariant
            p <= q <= s.len(),
            p_blank_nodes(s@, p as int).0 == p_blank_nodes(s@, q as int).0,
            p_blank_nodes(s@, p as int).1 == children_view(acc@) + p_blank_nodes(s@, q as int).1,
        ensures
            p <= q <= s.len(),
            p_blank_nodes(s@, p as int) == (q as int, children_view(acc@)),
        decreases s.len() - q,
    {
        match wrap_node("Symbol::around_expression_separator", blank(s, q)) {
            Some((e, c)) => {
                if q < e {
                    let ghost rest = p_blank_nodes(s@, e as int).1;
                    assert(children_view(acc@) + (children_view(c@) + rest) =~= (children_view(acc@) + children_view(c@)) + rest);
                    acc = concat(acc, c);
                    q = e;
                } else {
                    assert(children_view(acc@) + Seq::<SpecChild>::empty() =~= children_view(acc@));
                    break;
                }
            },
            None => {
                assert(children_view(acc@) + Seq::<SpecChild>::empty() =~= children_view(acc@));
                break;
            },
        }
    }
    (q, acc)
}

fn expression_separator(s: &Vec<char>, p: usize) -> (r: Option<(usize, Vec<SyntaxChild>)>)
    requires
        p <= s.len(),
    ensures
        parsed_view(r) == p_expression_separator(s@, p as int),
        within(r, p as int, s.len() as int),
{
    let (q, c1) = blank_nodes(s, p);
    let m = match text_exec(s, q, "\n") {
        Some(x) => Some(x),
        None => text_exec(s, q, ";"),
    };
    match m {
        Some((q2, c)) => {
            let (e, c3) = blank_nodes(s, q2);
            Some((e, concat(concat(c1, c), c3)))
        },
        None => None,
    }
}

fn reserved(s: &Vec<char>, p: usize) -> (r: Option<(usize, Vec<SyntaxChild>)>)
    ensures
        parsed_view(r) == p_reserved(s@, p as int),
        within(r, p as int, s.len() as int),
{
    match text_exec(s, p, "bool") {
        Some(x) => Some(x),
        None => match text_exec(s, p, "char") {
            Some(x) => Some(x),
            None => match text_exec(s, p, "fn") {
                Some(x) => Some(x),
                None => match text_exec(s, p, "hako") {
                    Some(x) => Some(x),
                    None => match text_exec(s, p, "none") {
                        Some(x) => Some(x),
                        None => match text_exec(s, p, "pub") {
                            Some(x) => Some(x),
                            None => match text_exec(s, p, "str") {
                                Some(x) => Some(x),
                                None => match wrap_node("Literal::boolean", boolean(s, p)) {
                                    Some(x) => Some(x),
                                    None => wrap_node("DataType::primitive_number", primitive_number(s, p)),
                                },
                            },
                        },
                    },
                },
            },
        },
    }
}

fn main_item(s: &Vec<char>, p: usize, depth: usize) -> (r: Option<(usize, Vec<SyntaxChild>)>)
    requires
        p <= s.len(),
    ensures
        parsed_view(r) == p_main_item(s@, p as int, depth as nat),
        within(r, p as int, s.len() as int),
{
    if depth == 0 {
        None
    } else {
        wrap_node("Function::function", function(s, p, depth - 1))
    }
}

// ----- parsing a text -----

/// The name of a rule of the grammar, such as `Main::main`.
#[derive(Clone, Debug, PartialEq)]
pub struct RuleId(pub String);

/// Why a text could not be parsed.
#[derive(Clone, Copy, Debug, PartialEq, Eq, Structural)]
pub enum ParserError {
    /// The rule does not match the whole text.
    NoMatchedRule,
    /// No rule has the given name.
    UnknownRule,
}

/// A syntax tree, or why there is none.
pub type ParserResult = Result<SyntaxTree, ParserError>;

pub open spec fn parser_result_view(r: ParserResult) -> Result<SpecNode, ParserError> {
    match r {
        Ok(tree) => Ok(tree@),
        Err(e) => Err(e),
    }
}

/// What the rule of the given name gives from the start of the text, or `None` where
/// no rule has that name.
pub open spec fn rule_children(name: Seq<char>, s: Seq<char>, depth: nat) -> Option<Parsed> {
    if name == "Main::main"@ { Some(p_main(s, 0, depth)) }
    else if name == "Main::accessibility"@ { Some(Some(p_accessibility(s, 0))) }
    else if name == "Identifier::identifier"@ { Some(p_identifier(s, 0)) }
    else if name == "Item::item"@ { Some(p_item(s, 0, depth)) }
    else if name == "UseDeclaration::use_declaration"@ { Some(p_use_declaration(s, 0, depth)) }
    else if name == "Function::function"@ { Some(p_function(s, 0, depth)) }
    else if name == "Function::formal_argument"@ { Some(p_formal_argument(s, 0, depth)) }
    else if name == "Expression::expression"@ { Some(p_expression(s, 0, depth)) }
    else if name == "Expression::pure_expression"@ { Some(p_pure_expression(s, 0, depth)) }
    else if name == "Literal::literal"@ { Some(p_literal(s, 0)) }
    else if name == "Literal::boolean"@ { Some(p_boolean(s, 0)) }
    else if name == "Literal::number"@ { Some(p_number(s, 0)) }
    else if name == "Operation::operation"@ { Some(p_operation(s, 0, depth)) }
    else if name == "DataType::data_type"@ { Some(p_data_type(s, 0, depth)) }
    else if name == "DataType::primitive"@ { Some(p_primitive(s, 0)) }
    else if name == "DataType::generic"@ { Some(p_generic(s, 0, depth)) }
    else { more_rule_children(name, s, depth) }
}

/// What the rules not named above give from the start of the text.
pub open spec fn more_rule_children(name: Seq<char>, s: Seq<char>, depth: nat) -> Option<Parsed> {
    if name == "Main::item"@ { Some(p_main_item(s, 0, depth)) }
    else if name == "Symbol::whitespace"@ { Some(p_whitespace(s, 0)) }
    else if name == "Symbol::expression_separator"@ { Some(p_expression_separator(s, 0)) }
    else if name == "Symbol::around_expression_separator"@ { Some(p_blank(s, 0)) }
    else if name == "Identifier::reserved"@ { Some(p_reserved(s, 0)) }
    else if name == "Literal::integer"@ { Some(p_integer(s, 0)) }
    else if name == "Literal::binary_number"@ { Some(p_radix_number(s, 0, "0b"@, CharClass::Binary)) }
    else if name == "Literal::octal_number"@ { Some(p_radix_number(s, 0, "0o"@, CharClass::Octal)) }
    else if name == "Literal::hexadecimal_number"@ { Some(p_radix_number(s, 0, "0x"@, CharClass::Hexadecimal)) }
    else if name == "Literal::decimal_number"@ { Some(p_decimal_digits(s, 0)) }
    else if name == "Literal::decimal_number_value"@ { Some(p_decimal_digits(s, 0)) }
    else if name == "Literal::number_exponent"@ { Some(p_number_exponent(s, 0)) }
    else if name == "Literal::float_number"@ { Some(p_float_number(s, 0)) }
    else if name == "Literal::float_number_value"@ { Some(p_fraction_digits(s, 0)) }
    else if name == "Operation::term"@ { Some(p_term(s, 0, depth)) }
    else if name == "Operation::infix"@ { Some(p_infix(s, 0, depth)) }
    else if name == "Operation::group"@ { Some(p_group(s, 0, depth)) }
    else if name == "Operation::prefix_operator"@ { Some(p_prefix_operator(s, 0)) }
    else if name == "Operation::postfix_operator"@ { Some(p_postfix_operator(s, 0, depth)) }
    else if name == "Operation::function_call_operator"@ { Some(p_function_call(s, 0, depth)) }
    else if name == "Operation::infix_operator"@ { Some(p_infix_operator(s, 0)) }
    else if name == "DataType::primitive_number"@ { Some(p_primitive_number(s, 0)) }
    else { None }
}

/// Parsing a whole text by a rule: a tree whose root is named after the rule, where
/// the rule matches the whole text.
pub open spec fn spec_parse(name: Seq<char>, s: Seq<char>, depth: nat) -> Result<SpecNode, ParserError> {
    match rule_children(name, s, depth) {
        Some(Some((e, c))) => if e == s.len() {
            Ok(SpecNode { name, children: c })
        } else {
            Err(ParserError::NoMatchedRule)
        },
        Some(None) => Err(ParserError::NoMatchedRule),
        None => Err(ParserError::UnknownRule),
    }
}

fn rule_children_exec(name: &String, s: &Vec<char>, depth: usize) -> (r: Option<Option<(usize, Vec<SyntaxChild>)>>)
    ensures
        match r {
            Some(x) => rule_children(name@, s@, depth as nat) == Some(parsed_view(x)) && within(x, 0, s.len() as int),
            None => rule_children(name@, s@, depth as nat) is None,
        },
{
    if text_eq(name, "Main::main") { Some(main_rule(s, 0, depth)) }
    else if text_eq(name, "Main::accessibility") { Some(Some(accessibility(s, 0))) }
    else if text_eq(name, "Identifier::identifier") { Some(identifier(s, 0)) }
    else if text_eq(name, "Item::item") { Some(item(s, 0, depth)) }
    else if text_eq(name, "UseDeclaration::use_declaration") { Some(use_declaration(s, 0, depth)) }
    else if text_eq(name, "Function::function") { Some(function(s, 0, depth)) }
    else if text_eq(name, "Function::formal_argument") { Some(formal_argument(s, 0, depth)) }
    else if text_eq(name, "Expression::expression") { Some(expression(s, 0, depth)) }
    else if text_eq(name, "Expression::pure_expression") { Some(pure_expression(s, 0, depth)) }
    else if text_eq(name, "Literal::literal") { Some(literal(s, 0)) }
    else if text_eq(name, "Literal::boolean") { Some(boolean(s, 0)) }
    else if text_eq(name, "Literal::number") { Some(number(s, 0)) }
    else if text_eq(name, "Operation::operation") { Some(operation(s, 0, depth)) }
    else if text_eq(name, "DataType::data_type") { Some(data_type(s, 0, depth)) }
    else if text_eq(name, "DataType::primitive") { Some(primitive(s, 0)) }
    else if text_eq(name, "DataType::generic") { Some(generic(s, 0, depth)) }
    else { more_rule_children_exec(name, s, depth) }
}

fn more_rule_children_exec(name: &String, s: &Vec<char>, depth: usize) -> (r: Option<Option<(usize, Vec<SyntaxChild>)>>)
    ensures
        match r {
            Some(x) => more_rule_children(name@, s@, depth as nat) == Some(parsed_view(x)) && within(x, 0, s.len() as int),
            None => more_rule_children(name@, s@, depth as nat) is None,
        },
{
    if text_eq(name, "Main::item") { Some(main_item(s, 0, depth)) }
    else if text_eq(name, "Symbol::whitespace") { Some(whitespace(s, 0)) }
    else if text_eq(name, "Symbol::expression_separator") { Some(expression_separator(s, 0)) }
    else if text_eq(name, "Symbol::around_expression_separator") { Some(blank(s, 0)) }
    else if text_eq(name, "Identifier::reserved") { Some(reserved(s, 0)) }
    else if text_eq(name, "Literal::integer") { Some(integer(s, 0)) }
    else if text_eq(name, "Literal::binary_number") { Some(radix_number(s, 0, "0b", CharClass::Binary)) }
    else if text_eq(name, "Literal::octal_number") { Some(radix_number(s, 0, "0o", CharClass::Octal)) }
    else if text_eq(name, "Literal::hexadecimal_number") { Some(radix_number(s, 0, "0x", CharClass::Hexadecimal)) }
    else if text_eq(name, "Literal::decimal_number") { Some(decimal_digits(s, 0)) }
    else if text_eq(name, "Literal::decimal_number_value") { Some(decimal_digits(s, 0)) }
    else if text_eq(name, "Literal::number_exponent") { Some(number_exponent(s, 0)) }
    else if text_eq(name, "Literal::float_number") { Some(float_number(s, 0)) }
    else if text_eq(name, "Literal::float_number_value") { Some(fraction_digits(s, 0)) }
    else if text_eq(name, "Operation::term") { Some(term(s, 0, depth)) }
    else if text_eq(name, "Operation::infix") { Some(infix(s, 0, depth)) }
    else if text_eq(name, "Operation::group") { Some(group(s, 0, depth)) }
    else if text_eq(name, "Operation::prefix_operator") { Some(prefix_operator(s, 0)) }
    else if text_eq(name, "Operation::postfix_operator") { Some(postfix_operator(s, 0, depth)) }
    else if text_eq(name, "Operation::function_call_operator") { Some(function_call(s, 0, depth)) }
    else if text_eq(name, "Operation::infix_operator") { Some(infix_operator(s, 0)) }
    else if text_eq(name, "DataType::primitive_number") { Some(primitive_number(s, 0)) }
    else { None }
}

/// The syntax of the language: its rules, and how deeply they may nest.
pub struct Syntax {
    pub max_recursion: usize,
}

impl Syntax {
    /// The syntax whose nesting rules go at most `max_recursion` deep.
    pub fn generate_volt(max_recursion: usize) -> (syntax: Syntax)
        ensures
            syntax.max_recursion == max_recursion,
    {
        Syntax { max_recursion }
    }

    /// Parses the whole input by the rule of the given name.
    pub fn parse(&self, input: &str, rule_id: &RuleId) -> (result: ParserResult)
        ensures
            parser_result_view(result) == spec_parse(rule_id.0@, input@, self.max_recursion as nat),
    {
        let s = text_chars(input);
        match rule_children_exec(&rule_id.0, &s, self.max_recursion) {
            Some(Some((e, c))) => if e == s.len() {
                Ok(SyntaxTree { root: SyntaxNode { name: rule_id.0.clone(), children: c } })
            } else {
                Err(ParserError::NoMatchedRule)
            },
            Some(None) => Err(ParserError::NoMatchedRule),
            None => Err(ParserError::UnknownRule),
        }
    }
}

} // verus!
