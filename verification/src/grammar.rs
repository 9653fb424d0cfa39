//! The grammar of the language, as functions from a text and a position to
//! what is read there and the position behind it.
//!
//! Alternatives are tried in the order written and the first that reads
//! something wins. Binary operators of one level associate to the left.
//! From lowest to highest the levels are: `+ -`, then `* / %`, then the
//! relational operators, then `&& || ^`; `!` binds tighter than all of
//! them. A word is read as far as it goes, so `letter` is a name and no
//! `let`. The comparisons of positions that `forward` makes only serve
//! the termination argument: no parser here stops before its start.

use crate::ast::{ExprView, Opcode, StmtView};
use crate::ieee::{is_digit, real_from_text, real_neg};
use vstd::prelude::*;

verus! {

/// What a parser hands back: what it read and where it stopped.
pub type Parsed<T> = Option<(T, int)>;

/// Blank, tab, carriage return or line feed.
pub open spec fn is_space(c: char) -> bool {
    c == ' ' || c == '\t' || c == '\r' || c == '\n'
}

/// A letter of the Latin alphabet or an underscore.
pub open spec fn is_ident_start(c: char) -> bool {
    ('a' <= c <= 'z') || ('A' <= c <= 'Z') || c == '_'
}

/// A letter, a decimal digit or an underscore.
pub open spec fn is_ident_part(c: char) -> bool {
    is_ident_start(c) || is_digit(c)
}

/// Anything but a double quote.
pub open spec fn is_text_char(c: char) -> bool {
    c != '"'
}

/// The kinds of characters that are read in runs.
#[derive(Clone, Copy, PartialEq, Eq, Debug)]
pub enum CharClass {
    /// Whitespace.
    Space,
    /// Decimal digits.
    Digit,
    /// What a name may hold behind its first character.
    IdentPart,
    /// What a string literal may hold.
    Text,
}

/// The character belongs to the class.
pub open spec fn in_class(k: CharClass, c: char) -> bool {
    match k {
        CharClass::Space => is_space(c),
        CharClass::Digit => is_digit(c),
        CharClass::IdentPart => is_ident_part(c),
        CharClass::Text => is_text_char(c),
    }
}

/// The number of characters from `pos` on that belong to the class, up to
/// the first that does not.
pub open spec fn run(s: Seq<char>, pos: int, k: CharClass) -> nat
    decreases s.len() - pos,
{
    if 0 <= pos < s.len() && in_class(k, s[pos]) {
        1 + run(s, pos + 1, k)
    } else {
        0
    }
}

/// The position behind the whitespace at `pos`.
pub open spec fn skip(s: Seq<char>, pos: int) -> int {
    pos + run(s, pos, CharClass::Space)
}

/// A result that does not stop before `from`, and nothing otherwise.
pub open spec fn forward<T>(from: int, r: Parsed<T>) -> Parsed<T> {
    match r {
        Some((v, p)) => if p >= from {
            r
        } else {
            None
        },
        None => None,
    }
}

/// How much of the text lies behind `pos`.
pub open spec fn left(s: Seq<char>, pos: int) -> nat {
    if pos <= s.len() {
        (s.len() - pos) as nat
    } else {
        0
    }
}

/// The character `c` after optional whitespace.
pub open spec fn symbol(s: Seq<char>, pos: int, c: char) -> Option<int> {
    let p = skip(s, pos);
    if 0 <= p < s.len() && s[p] == c {
        Some(p + 1)
    } else {
        None
    }
}

/// The end of the word that starts at `pos`: a letter or underscore and
/// all letters, digits and underscores behind it.
pub open spec fn word(s: Seq<char>, pos: int) -> Option<int> {
    if 0 <= pos < s.len() && is_ident_start(s[pos]) {
        Some(pos + 1 + run(s, pos + 1, CharClass::IdentPart))
    } else {
        None
    }
}

/// The word is reserved and cannot be a name.
pub open spec fn is_keyword(w: Seq<char>) -> bool {
    w == "let"@ || w == "fn"@ || w == "return"@ || w == "if"@ || w == "else"@ || w == "loop"@
        || w == "break"@ || w == "true"@ || w == "false"@ || w == "null"@
}

/// The reserved word `kw` after optional whitespace.
pub open spec fn keyword(s: Seq<char>, pos: int, kw: Seq<char>) -> Option<int> {
    let p = skip(s, pos);
    match word(s, p) {
        Some(end) => if s.subrange(p, end) == kw {
            Some(end)
        } else {
            None
        },
        None => None,
    }
}

/// A name at `pos`: a word that is not reserved.
pub open spec fn ident(s: Seq<char>, pos: int) -> Parsed<Seq<char>> {
    match word(s, pos) {
        Some(end) => if is_keyword(s.subrange(pos, end)) {
            None
        } else {
            Some((s.subrange(pos, end), end))
        },
        None => None,
    }
}

/// A name after optional whitespace.
pub open spec fn name(s: Seq<char>, pos: int) -> Parsed<Seq<char>> {
    ident(s, skip(s, pos))
}

/// A sign at `pos`.
pub open spec fn number_sign(s: Seq<char>, pos: int) -> Parsed<char> {
    if 0 <= pos < s.len() && (s[pos] == '+' || s[pos] == '-') {
        Some((s[pos], pos + 1))
    } else {
        None
    }
}

/// The position behind an optional sign at `pos`.
pub open spec fn unsigned_start(s: Seq<char>, pos: int) -> int {
    match number_sign(s, pos) {
        Some((_, p)) => p,
        None => pos,
    }
}

/// There is a minus sign at `pos`.
pub open spec fn is_negative(s: Seq<char>, pos: int) -> bool {
    number_sign(s, pos) == Some(('-', pos + 1))
}

/// The number that a decimal digit denotes.
pub open spec fn digit_value(c: char) -> nat {
    if c == '1' {
        1
    } else if c == '2' {
        2
    } else if c == '3' {
        3
    } else if c == '4' {
        4
    } else if c == '5' {
        5
    } else if c == '6' {
        6
    } else if c == '7' {
        7
    } else if c == '8' {
        8
    } else if c == '9' {
        9
    } else {
        0
    }
}

/// The number that a text of decimal digits denotes.
pub open spec fn decimal(digits: Seq<char>) -> nat
    decreases digits.len(),
{
    if digits.len() == 0 {
        0
    } else {
        decimal(digits.drop_last()) * 10 + digit_value(digits.last())
    }
}

/// An integer literal at `pos`: an optional sign and decimal digits whose
/// number is at most the greatest integer.
pub open spec fn int_literal(s: Seq<char>, pos: int) -> Parsed<i64> {
    let start = unsigned_start(s, pos);
    let end = start + run(s, start, CharClass::Digit);
    let n = decimal(s.subrange(start, end));
    if end > start && n <= i64::MAX {
        Some((
            if is_negative(s, pos) {
                (-n) as i64
            } else {
                n as i64
            },
            end,
        ))
    } else {
        None
    }
}

/// A real literal at `pos`: an optional sign, digits or none, a point and
/// at least one digit. Its value is the bit pattern of the nearest double.
pub open spec fn float_literal(s: Seq<char>, pos: int) -> Parsed<u64> {
    let start = unsigned_start(s, pos);
    let point = start + run(s, start, CharClass::Digit);
    let end = point + 1 + run(s, point + 1, CharClass::Digit);
    if 0 <= point < s.len() && s[point] == '.' && end > point + 1 {
        match real_from_text(s.subrange(start, end)) {
            Some(bits) => Some((
                if is_negative(s, pos) {
                    real_neg(bits)
                } else {
                    bits
                },
                end,
            )),
            None => None,
        }
    } else {
        None
    }
}

/// A string literal at `pos`: the characters between two double quotes.
pub open spec fn str_literal(s: Seq<char>, pos: int) -> Parsed<Seq<char>> {
    if 0 <= pos < s.len() && s[pos] == '"' {
        let end = pos + 1 + run(s, pos + 1, CharClass::Text);
        if end < s.len() {
            Some((s.subrange(pos + 1, end), end + 1))
        } else {
            None
        }
    } else {
        None
    }
}

/// A truth value at `pos`: the word `true` or the word `false`.
pub open spec fn bool_literal(s: Seq<char>, pos: int) -> Parsed<bool> {
    match word(s, pos) {
        Some(end) => if s.subrange(pos, end) == "true"@ {
            Some((true, end))
        } else if s.subrange(pos, end) == "false"@ {
            Some((false, end))
        } else {
            None
        },
        None => None,
    }
}

/// The two characters at `pos`.
pub open spec fn pair_at(s: Seq<char>, pos: int, a: char, b: char) -> bool {
    0 <= pos && pos + 1 < s.len() && s[pos] == a && s[pos + 1] == b
}

/// The character at `pos`.
pub open spec fn char_at(s: Seq<char>, pos: int, a: char) -> bool {
    0 <= pos < s.len() && s[pos] == a
}

/// `+` or `-` at `pos`.
pub open spec fn sum_opcode(s: Seq<char>, pos: int) -> Parsed<Opcode> {
    if char_at(s, pos, '+') {
        Some((Opcode::Add, pos + 1))
    } else if char_at(s, pos, '-') {
        Some((Opcode::Sub, pos + 1))
    } else {
        None
    }
}

/// `*`, `/` or `%` at `pos`.
pub open spec fn product_opcode(s: Seq<char>, pos: int) -> Parsed<Opcode> {
    if char_at(s, pos, '*') {
        Some((Opcode::Mul, pos + 1))
    } else if char_at(s, pos, '/') {
        Some((Opcode::Div, pos + 1))
    } else if char_at(s, pos, '%') {
        Some((Opcode::Mod, pos + 1))
    } else {
        None
    }
}

/// A relational operator at `pos`, the longest that fits.
pub open spec fn relational_opcode(s: Seq<char>, pos: int) -> Parsed<Opcode> {
    if pair_at(s, pos, '<', '=') {
        Some((Opcode::LessThanOrEqual, pos + 2))
    } else if pair_at(s, pos, '>', '=') {
        Some((Opcode::GreaterThanOrEqual, pos + 2))
    } else if pair_at(s, pos, '=', '=') {
        Some((Opcode::Equal, pos + 2))
    } else if pair_at(s, pos, '!', '=') {
        Some((Opcode::NotEqual, pos + 2))
    } else if char_at(s, pos, '<') {
        Some((Opcode::LessThan, pos + 1))
    } else if char_at(s, pos, '>') {
        Some((Opcode::GreaterThan, pos + 1))
    } else {
        None
    }
}

/// `&&`, `||` or `^` at `pos`.
pub open spec fn logical_opcode(s: Seq<char>, pos: int) -> Parsed<Opcode> {
    if pair_at(s, pos, '&', '&') {
        Some((Opcode::LogicalAnd, pos + 2))
    } else if pair_at(s, pos, '|', '|') {
        Some((Opcode::LogicalOr, pos + 2))
    } else if char_at(s, pos, '^') {
        Some((Opcode::LogicalXor, pos + 1))
    } else {
        None
    }
}

/// `!` at `pos`.
pub open spec fn unary_opcode(s: Seq<char>, pos: int) -> Parsed<Opcode> {
    if char_at(s, pos, '!') {
        Some((Opcode::Not, pos + 1))
    } else {
        None
    }
}

/// The binary operator of a level at `pos`. Level 0 holds the sums, 1 the
/// products, 2 the relations and 3 the logical operators.
pub open spec fn opcode_at(s: Seq<char>, pos: int, level: nat) -> Parsed<Opcode> {
    if level == 0 {
        sum_opcode(s, pos)
    } else if level == 1 {
        product_opcode(s, pos)
    } else if level == 2 {
        relational_opcode(s, pos)
    } else {
        logical_opcode(s, pos)
    }
}

/// An expression.
pub open spec fn expr(s: Seq<char>, pos: int) -> Parsed<ExprView>
    decreases left(s, pos), 20nat,
{
    binary(s, pos, 0)
}

/// A chain of operands of one level, joined by operators of that level
/// from left to right. An operand of level 3 is a term, one of a lower
/// level is a chain of the next level.
pub open spec fn binary(s: Seq<char>, pos: int, level: nat) -> Parsed<ExprView>
    decreases left(s, pos), (19 - level) as nat,
{
    if level > 3 {
        None
    } else {
        match forward(
            pos,
            if level == 3 {
                term(s, pos)
            } else {
                binary(s, pos, level + 1)
            },
        ) {
            Some((l, p)) => binary_rest(s, p, level, l),
            None => None,
        }
    }
}

/// What follows the first operand of a chain: an operator must be
/// followed by an operand.
pub open spec fn binary_rest(s: Seq<char>, pos: int, level: nat, lhs: ExprView) -> Parsed<ExprView>
    decreases left(s, pos), 0nat,
{
    let q = skip(s, pos);
    match opcode_at(s, q, level) {
        Some((op, p)) => if level > 3 {
            None
        } else {
            match forward(
                p,
                if level == 3 {
                    term(s, p)
                } else {
                    binary(s, p, level + 1)
                },
            ) {
                Some((r, q2)) => binary_rest(
                    s,
                    q2,
                    level,
                    ExprView::BinOp(Box::new(lhs), op, Box::new(r)),
                ),
                None => None,
            }
        },
        None => Some((lhs, pos)),
    }
}

/// A chain of sums.
pub open spec fn sum_expr(s: Seq<char>, pos: int) -> Parsed<ExprView> {
    binary(s, pos, 0)
}

/// A chain of products.
pub open spec fn product_expr(s: Seq<char>, pos: int) -> Parsed<ExprView> {
    binary(s, pos, 1)
}

/// A chain of relations.
pub open spec fn relational_expr(s: Seq<char>, pos: int) -> Parsed<ExprView> {
    binary(s, pos, 2)
}

/// A chain of logical operations.
pub open spec fn logical_expr(s: Seq<char>, pos: int) -> Parsed<ExprView> {
    binary(s, pos, 3)
}

/// An expression in parentheses, or a value expression.
pub open spec fn term(s: Seq<char>, pos: int) -> Parsed<ExprView>
    decreases left(s, pos), 15nat,
{
    match symbol(s, pos, '(') {
        Some(p) => match forward(p, expr(s, p)) {
            Some((e, q1)) => match symbol(s, q1, ')') {
                Some(q2) => Some((e, q2)),
                None => value_expr(s, pos),
            },
            None => value_expr(s, pos),
        },
        None => value_expr(s, pos),
    }
}

/// A literal, a call, an indexed access, a negation or a name, after
/// optional whitespace.
pub open spec fn value_expr(s: Seq<char>, pos: int) -> Parsed<ExprView>
    decreases left(s, pos), 14nat,
{
    let p = skip(s, pos);
    if let Some((x, e)) = float_literal(s, p) {
        Some((ExprView::Real(x), e))
    } else if let Some((i, e)) = int_literal(s, p) {
        Some((ExprView::Int(i), e))
    } else if let Some((b, e)) = bool_literal(s, p) {
        Some((ExprView::Bool(b), e))
    } else if let Some((t, e)) = str_literal(s, p) {
        Some((ExprView::Str(t), e))
    } else if let Some(e) = keyword(s, p, "null"@) {
        Some((ExprView::Null, e))
    } else if let Some(r) = func_call(s, p) {
        Some(r)
    } else if let Some(r) = dict_literal(s, p) {
        Some(r)
    } else if let Some(r) = list_literal(s, p) {
        Some(r)
    } else if let Some(r) = list_element(s, p) {
        Some(r)
    } else if let Some(r) = unary_op(s, p) {
        Some(r)
    } else if let Some((n, e)) = ident(s, p) {
        Some((ExprView::Id(n), e))
    } else {
        None
    }
}

/// A negation: `!` and the term that it negates.
pub open spec fn unary_op(s: Seq<char>, pos: int) -> Parsed<ExprView>
    decreases left(s, pos), 13nat,
{
    match unary_opcode(s, pos) {
        Some((op, p)) => match term(s, p) {
            Some((e, q1)) => Some((ExprView::UnaryOp(op, Box::new(e)), q1)),
            None => None,
        },
        None => None,
    }
}

/// A call: a name and its arguments in parentheses.
pub open spec fn func_call(s: Seq<char>, pos: int) -> Parsed<ExprView>
    decreases left(s, pos), 13nat,
{
    match ident(s, pos) {
        Some((n, p)) => match symbol(s, p, '(') {
            Some(q1) => match expr_list(s, q1) {
                Some((args, q2)) => match symbol(s, q2, ')') {
                    Some(q3) => Some((ExprView::FuncCall(n, args), q3)),
                    None => None,
                },
                None => None,
            },
            None => None,
        },
        None => None,
    }
}

/// An indexed access: a name and an index in square brackets.
pub open spec fn list_element(s: Seq<char>, pos: int) -> Parsed<ExprView>
    decreases left(s, pos), 13nat,
{
    match ident(s, pos) {
        Some((n, p)) => match symbol(s, p, '[') {
            Some(q1) => match expr(s, q1) {
                Some((e, q2)) => match symbol(s, q2, ']') {
                    Some(q3) => Some((ExprView::ListElement(n, Box::new(e)), q3)),
                    None => None,
                },
                None => None,
            },
            None => None,
        },
        None => None,
    }
}

/// A list literal: expressions in square brackets.
pub open spec fn list_literal(s: Seq<char>, pos: int) -> Parsed<ExprView>
    decreases left(s, pos), 13nat,
{
    match symbol(s, pos, '[') {
        Some(q1) => match expr_list(s, q1) {
            Some((items, q2)) => match symbol(s, q2, ']') {
                Some(q3) => Some((ExprView::List(items), q3)),
                None => None,
            },
            None => None,
        },
        None => None,
    }
}

/// Expressions separated by commas, or none at all.
pub open spec fn expr_list(s: Seq<char>, pos: int) -> Parsed<Seq<ExprView>>
    decreases left(s, pos), 21nat,
{
    match forward(pos, expr(s, pos)) {
        Some((e, p)) => expr_list_rest(s, p, seq![e]),
        None => Some((Seq::empty(), pos)),
    }
}

/// What follows an expression of a list: a comma must be followed by an
/// expression.
pub open spec fn expr_list_rest(s: Seq<char>, pos: int, items: Seq<ExprView>) -> Parsed<
    Seq<ExprView>,
>
    decreases left(s, pos), 0nat,
{
    match symbol(s, pos, ',') {
        Some(p) => match forward(p, expr(s, p)) {
            Some((e, q1)) => expr_list_rest(s, q1, items.push(e)),
            None => None,
        },
        None => Some((items, pos)),
    }
}

/// A dict literal: one or more entries in braces.
pub open spec fn dict_literal(s: Seq<char>, pos: int) -> Parsed<ExprView>
    decreases left(s, pos), 13nat,
{
    match symbol(s, pos, '{') {
        Some(q1) => match forward(q1, key_val_pair(s, skip(s, q1))) {
            Some((e, q2)) => match dict_rest(s, q2, seq![e]) {
                Some((items, q3)) => match symbol(s, q3, '}') {
                    Some(q4) => Some((ExprView::Dict(items), q4)),
                    None => None,
                },
                None => None,
            },
            None => None,
        },
        None => None,
    }
}

/// What follows an entry of a dict literal: a comma must be followed by an
/// entry.
pub open spec fn dict_rest(s: Seq<char>, pos: int, items: Seq<(Seq<char>, ExprView)>) -> Parsed<
    Seq<(Seq<char>, ExprView)>,
>
    decreases left(s, pos), 0nat,
{
    match symbol(s, pos, ',') {
        Some(p) => match forward(p, key_val_pair(s, skip(s, p))) {
            Some((e, q1)) => dict_rest(s, q1, items.push(e)),
            None => None,
        },
        None => Some((items, pos)),
    }
}

/// An entry of a dict literal: a string literal for the key, a colon and
/// an expression for the value.
pub open spec fn key_val_pair(s: Seq<char>, pos: int) -> Parsed<(Seq<char>, ExprView)>
    decreases left(s, pos), 12nat,
{
    match str_literal(s, pos) {
        Some((k, p)) => match symbol(s, p, ':') {
            Some(q1) => match expr(s, q1) {
                Some((e, q2)) => Some(((k, e), q2)),
                None => None,
            },
            None => None,
        },
        None => None,
    }
}

/// Names separated by commas, or none at all.
pub open spec fn ident_list(s: Seq<char>, pos: int) -> Parsed<Seq<Seq<char>>> {
    match name(s, pos) {
        Some((n, p)) => ident_list_rest(s, p, seq![n]),
        None => Some((Seq::empty(), pos)),
    }
}

/// What follows a name of a list: a comma must be followed by a name.
pub open spec fn ident_list_rest(s: Seq<char>, pos: int, names: Seq<Seq<char>>) -> Parsed<
    Seq<Seq<char>>,
>
    decreases left(s, pos),
{
    match symbol(s, pos, ',') {
        Some(p) => match name(s, p) {
            Some((n, q1)) => ident_list_rest(s, q1, names.push(n)),
            None => None,
        },
        None => Some((names, pos)),
    }
}

/// `break`, with the whitespace around it.
pub open spec fn break_statement(s: Seq<char>, pos: int) -> Parsed<StmtView> {
    match keyword(s, pos, "break"@) {
        Some(p) => Some((StmtView::Break, skip(s, p))),
        None => None,
    }
}

/// An expression that stands as a statement.
pub open spec fn expr_statement(s: Seq<char>, pos: int) -> Parsed<StmtView>
    decreases left(s, pos), 28nat,
{
    match expr(s, pos) {
        Some((e, p)) => Some((StmtView::Expr(e), p)),
        None => None,
    }
}

/// `fn`, a name, the parameters in parentheses and the body.
pub open spec fn fndef_statement(s: Seq<char>, pos: int) -> Parsed<StmtView>
    decreases left(s, pos), 28nat,
{
    match keyword(s, pos, "fn"@) {
        Some(p) => match name(s, p) {
            Some((n, q1)) => match symbol(s, q1, '(') {
                Some(q2) => match forward(q2, ident_list(s, q2)) {
                    Some((params, q3)) => match symbol(s, q3, ')') {
                        Some(q4) => match statement_block(s, q4) {
                            Some((body, q5)) => Some((StmtView::FnDef(n, params, body), q5)),
                            None => None,
                        },
                        None => None,
                    },
                    None => None,
                },
                None => None,
            },
            None => None,
        },
        None => None,
    }
}

/// `if`, a condition and a block: what both conditionals start with.
pub open spec fn if_head(s: Seq<char>, pos: int) -> Parsed<(ExprView, Seq<StmtView>)>
    decreases left(s, pos), 27nat,
{
    match keyword(s, pos, "if"@) {
        Some(p) => match forward(p, expr(s, p)) {
            Some((c, q1)) => match statement_block(s, q1) {
                Some((body, q2)) => Some(((c, body), q2)),
                None => None,
            },
            None => None,
        },
        None => None,
    }
}

/// A conditional without `else`.
pub open spec fn if_statement(s: Seq<char>, pos: int) -> Parsed<StmtView>
    decreases left(s, pos), 28nat,
{
    match if_head(s, pos) {
        Some(((c, body), p)) => Some((StmtView::If(c, body), p)),
        None => None,
    }
}

/// A conditional with `else` and a second block.
pub open spec fn if_else_statement(s: Seq<char>, pos: int) -> Parsed<StmtView>
    decreases left(s, pos), 28nat,
{
    match forward(pos, if_head(s, pos)) {
        Some(((c, yes), p)) => match keyword(s, p, "else"@) {
            Some(q1) => match statement_block(s, q1) {
                Some((no, q2)) => Some((StmtView::IfElse(c, yes, no), q2)),
                None => None,
            },
            None => None,
        },
        None => None,
    }
}

/// `let`, a name, `=` and an expression.
pub open spec fn let_statement(s: Seq<char>, pos: int) -> Parsed<StmtView>
    decreases left(s, pos), 28nat,
{
    match keyword(s, pos, "let"@) {
        Some(p) => match name(s, p) {
            Some((n, q1)) => match symbol(s, q1, '=') {
                Some(q2) => match expr(s, q2) {
                    Some((e, q3)) => Some((StmtView::Let(n, e), q3)),
                    None => None,
                },
                None => None,
            },
            None => None,
        },
        None => None,
    }
}

/// An assignment to a place of a collection: a name, an index in square
/// brackets, `=` and an expression.
pub open spec fn list_assignment_statement(s: Seq<char>, pos: int) -> Parsed<StmtView>
    decreases left(s, pos), 28nat,
{
    match name(s, pos) {
        Some((n, p)) => match symbol(s, p, '[') {
            Some(q1) => match forward(q1, expr(s, q1)) {
                Some((i, q2)) => match symbol(s, q2, ']') {
                    Some(q3) => match symbol(s, q3, '=') {
                        Some(q4) => match expr(s, q4) {
                            Some((e, q5)) => Some((StmtView::ListItemAssignment(n, i, e), q5)),
                            None => None,
                        },
                        None => None,
                    },
                    None => None,
                },
                None => None,
            },
            None => None,
        },
        None => None,
    }
}

/// `loop` and a block.
pub open spec fn loop_statement(s: Seq<char>, pos: int) -> Parsed<StmtView>
    decreases left(s, pos), 28nat,
{
    match keyword(s, pos, "loop"@) {
        Some(p) => match statement_block(s, p) {
            Some((body, q1)) => Some((StmtView::Loop(body), q1)),
            None => None,
        },
        None => None,
    }
}

/// `return` and an expression.
pub open spec fn return_statement(s: Seq<char>, pos: int) -> Parsed<StmtView>
    decreases left(s, pos), 28nat,
{
    match keyword(s, pos, "return"@) {
        Some(p) => match expr(s, p) {
            Some((e, q1)) => Some((StmtView::Return(e), q1)),
            None => None,
        },
        None => None,
    }
}

/// A statement of any kind.
pub open spec fn statement(s: Seq<char>, pos: int) -> Parsed<StmtView>
    decreases left(s, pos), 29nat,
{
    if let Some(r) = break_statement(s, pos) {
        Some(r)
    } else if let Some(r) = fndef_statement(s, pos) {
        Some(r)
    } else if let Some(r) = if_else_statement(s, pos) {
        Some(r)
    } else if let Some(r) = if_statement(s, pos) {
        Some(r)
    } else if let Some(r) = let_statement(s, pos) {
        Some(r)
    } else if let Some(r) = list_assignment_statement(s, pos) {
        Some(r)
    } else if let Some(r) = loop_statement(s, pos) {
        Some(r)
    } else if let Some(r) = return_statement(s, pos) {
        Some(r)
    } else {
        expr_statement(s, pos)
    }
}

/// One or more statements separated by `;`, with an optional `;` behind
/// the last.
pub open spec fn statements(s: Seq<char>, pos: int) -> Parsed<Seq<StmtView>>
    decreases left(s, pos), 30nat,
{
    match forward(pos, statement(s, pos)) {
        Some((st, p)) => statements_rest(s, p, seq![st]),
        None => None,
    }
}

/// What follows a statement of a sequence: a `;` followed by a statement
/// goes on, and a `;` followed by none ends the sequence.
pub open spec fn statements_rest(s: Seq<char>, pos: int, done: Seq<StmtView>) -> Parsed<
    Seq<StmtView>,
>
    decreases left(s, pos), 0nat,
{
    match symbol(s, pos, ';') {
        Some(p) => match forward(p, statement(s, p)) {
            Some((st, q1)) => statements_rest(s, q1, done.push(st)),
            None => Some((done, p)),
        },
        None => Some((done, pos)),
    }
}

/// Statements in braces.
pub open spec fn statement_block(s: Seq<char>, pos: int) -> Parsed<Seq<StmtView>>
    decreases left(s, pos), 10nat,
{
    match symbol(s, pos, '{') {
        Some(p) => match statements(s, p) {
            Some((b, q1)) => match symbol(s, q1, '}') {
                Some(q2) => Some((b, q2)),
                None => None,
            },
            None => None,
        },
        None => None,
    }
}

/// A whole program: statements and nothing but whitespace behind them.
pub open spec fn program(s: Seq<char>) -> Option<Seq<StmtView>> {
    match statements(s, 0) {
        Some((b, p)) => if skip(s, p) == s.len() {
            Some(b)
        } else {
            None
        },
        None => None,
    }
}

/// A whole text that is one expression, with nothing but whitespace
/// behind it.
pub open spec fn whole_expr(s: Seq<char>) -> Option<ExprView> {
    match expr(s, 0) {
        Some((e, p)) => if skip(s, p) == s.len() {
            Some(e)
        } else {
            None
        },
        None => None,
    }
}

} // verus!
