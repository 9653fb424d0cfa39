//! The parser: from source text to a block of statements.
//!
//! Each function reads what the function of the same name in `grammar`
//! describes, from a position in the characters of the source, and hands
//! back what it read and the position behind it.

use crate::ast::{
    block_view, exprs_view, items_view, names_view, Expr, ExprView, Opcode, Stmt, StmtBlock,
    StmtView,
};
use crate::grammar;
use crate::grammar::{CharClass, Parsed};
use crate::ieee::{is_digit, text_bits};
use crate::text::{from_chars, to_chars};
use vstd::prelude::*;

verus! {

/// What every failure of the parser is reported as.
pub open spec fn parse_error() -> Seq<char> {
    "Unable to parse program source"@
}

/// A result with its position as a mathematical integer.
pub open spec fn at<T>(r: Option<(T, usize)>) -> Parsed<T> {
    match r {
        Some((v, p)) => Some((v, p as int)),
        None => None,
    }
}

/// A position as a mathematical integer.
pub open spec fn place(r: Option<usize>) -> Option<int> {
    match r {
        Some(p) => Some(p as int),
        None => None,
    }
}

/// A result that holds a text, by its characters.
pub open spec fn text_at(r: Option<(String, usize)>) -> Parsed<Seq<char>> {
    match r {
        Some((v, p)) => Some((v@, p as int)),
        None => None,
    }
}

/// A result that holds an expression, by its view.
pub open spec fn expr_at(r: Option<(Expr, usize)>) -> Parsed<ExprView> {
    match r {
        Some((v, p)) => Some((v@, p as int)),
        None => None,
    }
}

/// A result that holds a statement, by its view.
pub open spec fn stmt_at(r: Option<(Stmt, usize)>) -> Parsed<StmtView> {
    match r {
        Some((v, p)) => Some((v@, p as int)),
        None => None,
    }
}

/// A result that holds statements, by their views.
pub open spec fn block_at(r: Option<(StmtBlock, usize)>) -> Parsed<Seq<StmtView>> {
    match r {
        Some((v, p)) => Some((block_view(v@), p as int)),
        None => None,
    }
}

/// A result that holds expressions, by their views.
pub open spec fn exprs_at(r: Option<(Vec<Box<Expr>>, usize)>) -> Parsed<Seq<ExprView>> {
    match r {
        Some((v, p)) => Some((exprs_view(v@), p as int)),
        None => None,
    }
}

/// Where a result stops lies between `pos` and the end of the source.
pub open spec fn within<T>(r: Option<(T, usize)>, pos: usize, len: nat) -> bool {
    match r {
        Some((_, p)) => pos <= p <= len,
        None => true,
    }
}

/// Where a result stops lies behind `pos` and within the source.
pub open spec fn beyond<T>(r: Option<(T, usize)>, pos: usize, len: nat) -> bool {
    match r {
        Some((_, p)) => pos < p <= len,
        None => true,
    }
}

/// A run ends where the first character outside the class stands.
pub proof fn lemma_run_is(s: Seq<char>, pos: int, k: CharClass, end: int)
    requires
        0 <= pos <= end <= s.len(),
        forall|i: int| pos <= i < end ==> grammar::in_class(k, #[trigger] s[i]),
        end < s.len() ==> !grammar::in_class(k, s[end]),
    ensures
        pos + grammar::run(s, pos, k) == end,
    decreases end - pos,
{
    if pos < end {
        lemma_run_is(s, pos + 1, k, end);
    }
}

/// Whether a character is whitespace.
pub fn is_space(c: char) -> (b: bool)
    ensures
        b == grammar::is_space(c),
{
    c == ' ' || c == '\t' || c == '\r' || c == '\n'
}

/// Whether a character is a decimal digit.
pub fn is_digit_char(c: char) -> (b: bool)
    ensures
        b == is_digit(c),
{
    '0' <= c && c <= '9'
}

/// Whether a character can start a name.
pub fn is_ident_start(c: char) -> (b: bool)
    ensures
        b == grammar::is_ident_start(c),
{
    ('a' <= c && c <= 'z') || ('A' <= c && c <= 'Z') || c == '_'
}

/// Whether a character can stand in a name behind its first character.
pub fn is_ident_char(c: char) -> (b: bool)
    ensures
        b == grammar::is_ident_part(c),
{
    is_ident_start(c) || is_digit_char(c)
}

/// Whether a character belongs to a class.
pub fn in_class(k: CharClass, c: char) -> (b: bool)
    ensures
        b == grammar::in_class(k, c),
{
    match k {
        CharClass::Space => is_space(c),
        CharClass::Digit => is_digit_char(c),
        CharClass::IdentPart => is_ident_char(c),
        CharClass::Text => c != '"',
    }
}

/// The position behind the run of characters of a class at `pos`.
pub fn scan(src: &Vec<char>, pos: usize, k: CharClass) -> (end: usize)
    requires
        pos <= src.len(),
    ensures
        end == pos + grammar::run(src@, pos as int, k),
        pos <= end <= src.len(),
        forall|i: int| pos <= i < end ==> grammar::in_class(k, #[trigger] src@[i]),
        end < src.len() ==> !grammar::in_class(k, src@[end as int]),
{
    let mut i: usize = pos;
    while i < src.len() && in_class(k, src[i])
        invariant
            pos <= i <= src.len(),
            forall|j: int| pos <= j < i ==> grammar::in_class(k, #[trigger] src@[j]),
        decreases src.len() - i,
    {
        i += 1;
    }
    proof {
        lemma_run_is(src@, pos as int, k, i as int);
    }
    i
}

/// The position behind the whitespace at `pos`.
pub fn skip(src: &Vec<char>, pos: usize) -> (end: usize)
    requires
        pos <= src.len(),
    ensures
        end == grammar::skip(src@, pos as int),
        pos <= end <= src.len(),
{
    scan(src, pos, CharClass::Space)
}

/// Reads the character `c` after optional whitespace.
pub fn symbol(src: &Vec<char>, pos: usize, c: char) -> (r: Option<usize>)
    requires
        pos <= src.len(),
    ensures
        place(r) == grammar::symbol(src@, pos as int, c),
        r matches Some(p) ==> pos < p <= src.len(),
{
    let p = skip(src, pos);
    if p < src.len() && src[p] == c {
        Some(p + 1)
    } else {
        None
    }
}

/// Reads a word at `pos` and hands back where it ends.
pub fn word(src: &Vec<char>, pos: usize) -> (r: Option<usize>)
    requires
        pos <= src.len(),
    ensures
        place(r) == grammar::word(src@, pos as int),
        r matches Some(p) ==> pos < p <= src.len(),
{
    if pos < src.len() && is_ident_start(src[pos]) {
        Some(scan(src, pos + 1, CharClass::IdentPart))
    } else {
        None
    }
}

/// Whether the characters from `from` to `to` spell `text`.
pub fn spells(src: &Vec<char>, from: usize, to: usize, text: &str) -> (b: bool)
    requires
        from <= to <= src.len(),
    ensures
        b == (src@.subrange(from as int, to as int) == text@),
{
    let t = to_chars(text);
    if t.len() != to - from {
        return false;
    }
    let mut i: usize = 0;
    while i < t.len()
        invariant
            from <= to <= src.len(),
            t@ == text@,
            t.len() == to - from,
            i <= t.len(),
            forall|j: int| 0 <= j < i ==> src@[from + j] == #[trigger] t@[j],
        decreases t.len() - i,
    {
        if src[from + i] != t[i] {
            assert(src@.subrange(from as int, to as int)[i as int] != t@[i as int]);
            return false;
        }
        i += 1;
    }
    assert(src@.subrange(from as int, to as int) =~= t@);
    true
}

/// Whether the characters from `from` to `to` spell a reserved word.
pub fn is_keyword(src: &Vec<char>, from: usize, to: usize) -> (b: bool)
    requires
        from <= to <= src.len(),
    ensures
        b == grammar::is_keyword(src@.subrange(from as int, to as int)),
{
    spells(src, from, to, "let")
        || spells(src, from, to, "fn")
        || spells(src, from, to, "return")
        || spells(src, from, to, "if")
        || spells(src, from, to, "else")
        || spells(src, from, to, "loop")
        || spells(src, from, to, "break")
        || spells(src, from, to, "true")
        || spells(src, from, to, "false")
        || spells(src, from, to, "null")
}

/// Reads the reserved word `kw` after optional whitespace.
pub fn keyword(src: &Vec<char>, pos: usize, kw: &str) -> (r: Option<usize>)
    requires
        pos <= src.len(),
    ensures
        place(r) == grammar::keyword(src@, pos as int, kw@),
        r matches Some(p) ==> pos < p <= src.len(),
{
    let p = skip(src, pos);
    match word(src, p) {
        Some(end) => {
            if spells(src, p, end, kw) {
                Some(end)
            } else {
                None
            }
        },
        None => None,
    }
}

/// Reads a name at `pos`.
pub fn ident(src: &Vec<char>, pos: usize) -> (r: Option<(String, usize)>)
    requires
        pos <= src.len(),
    ensures
        text_at(r) == grammar::ident(src@, pos as int),
        beyond(r, pos, src@.len()),
{
    match word(src, pos) {
        Some(end) => {
            if is_keyword(src, pos, end) {
                None
            } else {
                Some((from_chars(src, pos, end), end))
            }
        },
        None => None,
    }
}

/// Reads a name after optional whitespace.
pub fn name(src: &Vec<char>, pos: usize) -> (r: Option<(String, usize)>)
    requires
        pos <= src.len(),
    ensures
        text_at(r) == grammar::name(src@, pos as int),
        beyond(r, pos, src@.len()),
{
    let p = skip(src, pos);
    ident(src, p)
}

/// Reads a sign at `pos`.
pub fn number_sign(src: &Vec<char>, pos: usize) -> (r: Option<(char, usize)>)
    requires
        pos <= src.len(),
    ensures
        at(r) == grammar::number_sign(src@, pos as int),
        beyond(r, pos, src@.len()),
{
    if pos < src.len() && (src[pos] == '+' || src[pos] == '-') {
        Some((src[pos], pos + 1))
    } else {
        None
    }
}

/// The number with the sign applied: negated under a minus sign.
pub fn signed_number(sign: Option<char>, num: i64) -> (r: i64)
    requires
        num > i64::MIN,
    ensures
        r == (if sign == Some('-') {
            -num
        } else {
            num as int
        }),
{
    match sign {
        Some(c) => if c == '-' {
            -num
        } else {
            num
        },
        None => num,
    }
}

/// The number that a decimal digit denotes.
pub fn digit_value(c: char) -> (d: u8)
    ensures
        d == grammar::digit_value(c),
        d <= 9,
{
    if c == '1' {
        1
    } else if c == '2' {
        2
    } else if c == '3' {
        3
    } else if c == '4' {
        4
    } else if c == '5' {
        5
    } else if c == '6' {
        6
    } else if c == '7' {
        7
    } else if c == '8' {
        8
    } else if c == '9' {
        9
    } else {
        0
    }
}

/// The number that the digits from `from` to `to` denote, where it is at
/// most the greatest integer.
pub fn decimal(src: &Vec<char>, from: usize, to: usize) -> (r: Option<i64>)
    requires
        from <= to <= src.len(),
    ensures
        match r {
            Some(n) => n == grammar::decimal(src@.subrange(from as int, to as int)),
            None => grammar::decimal(src@.subrange(from as int, to as int)) > i64::MAX,
        },
{
    let mut acc: i64 = 0;
    let mut over: bool = false;
    let mut i: usize = from;
    assert(src@.subrange(from as int, from as int) =~= Seq::<char>::empty());
    while i < to
        invariant
            from <= i <= to <= src.len(),
            acc >= 0,
            !over ==> acc == grammar::decimal(src@.subrange(from as int, i as int)),
            over ==> grammar::decimal(src@.subrange(from as int, i as int)) > i64::MAX,
        decreases to - i,
    {
        let d = digit_value(src[i]);
        proof {
            let next = src@.subrange(from as int, i + 1);
            assert(next.drop_last() =~= src@.subrange(from as int, i as int));
            assert(next.last() == src@[i as int]);
        }
        if !over {
            let wide: i128 = (acc as i128) * 10 + (d as i128);
            if wide > i64::MAX as i128 {
                over = true;
            } else {
                acc = wide as i64;
            }
        }
        i += 1;
    }
    if over {
        None
    } else {
        Some(acc)
    }
}

/// Reads an integer literal at `pos`.
pub fn int_literal(src: &Vec<char>, pos: usize) -> (r: Option<(i64, usize)>)
    requires
        pos <= src.len(),
    ensures
        at(r) == grammar::int_literal(src@, pos as int),
        beyond(r, pos, src@.len()),
{
    let sign = number_sign(src, pos);
    let start: usize = match sign {
        Some((_, p)) => p,
        None => pos,
    };
    let end = scan(src, start, CharClass::Digit);
    if end > start {
        match decimal(src, start, end) {
            Some(n) => {
                let negative = match sign {
                    Some((c, _)) => c == '-',
                    None => false,
                };
                Some((
                    if negative {
                        -n
                    } else {
                        n
                    },
                    end,
                ))
            },
            None => None,
        }
    } else {
        None
    }
}

/// Reads a real literal at `pos`, as the bit pattern of a double.
pub fn float_literal(src: &Vec<char>, pos: usize) -> (r: Option<(u64, usize)>)
    requires
        pos <= src.len(),
    ensures
        at(r) == grammar::float_literal(src@, pos as int),
        beyond(r, pos, src@.len()),
{
    let sign = number_sign(src, pos);
    let start: usize = match sign {
        Some((_, p)) => p,
        None => pos,
    };
    let point = scan(src, start, CharClass::Digit);
    if point < src.len() && src[point] == '.' {
        let end = scan(src, point + 1, CharClass::Digit);
        if end > point + 1 {
            let text = from_chars(src, start, end);
            proof {
                let t = src@.subrange(start as int, end as int);
                assert(t[point - start] == '.');
                assert(is_digit(t[end - 1 - start]));
                assert forall|i: int| 0 <= i < t.len() implies is_digit(#[trigger] t[i]) || t[i]
                    == '.' by {
                    assert(t[i] == src@[start + i]);
                }
                assert forall|i: int, j: int| 0 <= i < j < t.len() implies !(t[i] == '.' && t[j]
                    == '.') by {
                    assert(t[i] == src@[start + i]);
                    assert(t[j] == src@[start + j]);
                }
            }
            match text_bits(text.as_str()) {
                Some(bits) => {
                    let negative = match sign {
                        Some((c, _)) => c == '-',
                        None => false,
                    };
                    Some((
                        if negative {
                            crate::ieee::neg(bits)
                        } else {
                            bits
                        },
                        end,
                    ))
                },
                None => None,
            }
        } else {
            None
        }
    } else {
        None
    }
}

/// Reads a string literal at `pos`.
pub fn str_literal(src: &Vec<char>, pos: usize) -> (r: Option<(String, usize)>)
    requires
        pos <= src.len(),
    ensures
        text_at(r) == grammar::str_literal(src@, pos as int),
        beyond(r, pos, src@.len()),
{
    if pos < src.len() && src[pos] == '"' {
        let end = scan(src, pos + 1, CharClass::Text);
        if end < src.len() {
            Some((from_chars(src, pos + 1, end), end + 1))
        } else {
            None
        }
    } else {
        None
    }
}

/// Reads a truth value at `pos`.
pub fn bool_literal(src: &Vec<char>, pos: usize) -> (r: Option<(bool, usize)>)
    requires
        pos <= src.len(),
    ensures
        at(r) == grammar::bool_literal(src@, pos as int),
        beyond(r, pos, src@.len()),
{
    match word(src, pos) {
        Some(end) => {
            if spells(src, pos, end, "true") {
                Some((true, end))
            } else if spells(src, pos, end, "false") {
                Some((false, end))
            } else {
                None
            }
        },
        None => None,
    }
}

/// Whether the character `a` stands at `pos`.
pub fn char_at(src: &Vec<char>, pos: usize, a: char) -> (b: bool)
    ensures
        b == grammar::char_at(src@, pos as int, a),
        b ==> pos < src.len(),
{
    pos < src.len() && src[pos] == a
}

/// Whether the characters `a` and `b` stand at `pos`.
pub fn pair_at(src: &Vec<char>, pos: usize, a: char, b: char) -> (r: bool)
    ensures
        r == grammar::pair_at(src@, pos as int, a, b),
        r ==> pos + 1 < src.len(),
{
    pos < src.len() && src.len() - pos > 1 && src[pos] == a && src[pos + 1] == b
}

/// Reads `+` or `-` at `pos`.
pub fn sum_opcode(src: &Vec<char>, pos: usize) -> (r: Option<(Opcode, usize)>)
    ensures
        at(r) == grammar::sum_opcode(src@, pos as int),
        beyond(r, pos, src@.len()),
{
    if char_at(src, pos, '+') {
        Some((Opcode::Add, pos + 1))
    } else if char_at(src, pos, '-') {
        Some((Opcode::Sub, pos + 1))
    } else {
        None
    }
}

/// Reads `*`, `/` or `%` at `pos`.
pub fn product_opcode(src: &Vec<char>, pos: usize) -> (r: Option<(Opcode, usize)>)
    ensures
        at(r) == grammar::product_opcode(src@, pos as int),
        beyond(r, pos, src@.len()),
{
    if char_at(src, pos, '*') {
        Some((Opcode::Mul, pos + 1))
    } else if char_at(src, pos, '/') {
        Some((Opcode::Div, pos + 1))
    } else if char_at(src, pos, '%') {
        Some((Opcode::Mod, pos + 1))
    } else {
        None
    }
}

/// Reads a relational operator at `pos`.
pub fn relational_opcode(src: &Vec<char>, pos: usize) -> (r: Option<(Opcode, usize)>)
    ensures
        at(r) == grammar::relational_opcode(src@, pos as int),
        beyond(r, pos, src@.len()),
{
    if pair_at(src, pos, '<', '=') {
        Some((Opcode::LessThanOrEqual, pos + 2))
    } else if pair_at(src, pos, '>', '=') {
        Some((Opcode::GreaterThanOrEqual, pos + 2))
    } else if pair_at(src, pos, '=', '=') {
        Some((Opcode::Equal, pos + 2))
    } else if pair_at(src, pos, '!', '=') {
        Some((Opcode::NotEqual, pos + 2))
    } else if char_at(src, pos, '<') {
        Some((Opcode::LessThan, pos + 1))
    } else if char_at(src, pos, '>') {
        Some((Opcode::GreaterThan, pos + 1))
    } else {
        None
    }
}

/// Reads `&&`, `||` or `^` at `pos`.
pub fn logical_opcode(src: &Vec<char>, pos: usize) -> (r: Option<(Opcode, usize)>)
    ensures
        at(r) == grammar::logical_opcode(src@, pos as int),
        beyond(r, pos, src@.len()),
{
    if pair_at(src, pos, '&', '&') {
        Some((Opcode::LogicalAnd, pos + 2))
    } else if pair_at(src, pos, '|', '|') {
        Some((Opcode::LogicalOr, pos + 2))
    } else if char_at(src, pos, '^') {
        Some((Opcode::LogicalXor, pos + 1))
    } else {
        None
    }
}

/// Reads `!` at `pos`.
pub fn unary_opcode(src: &Vec<char>, pos: usize) -> (r: Option<(Opcode, usize)>)
    ensures
        at(r) == grammar::unary_opcode(src@, pos as int),
        beyond(r, pos, src@.len()),
{
    if char_at(src, pos, '!') {
        Some((Opcode::Not, pos + 1))
    } else {
        None
    }
}

/// Reads the binary operator of a level at `pos`.
pub fn opcode_at(src: &Vec<char>, pos: usize, level: u8) -> (r: Option<(Opcode, usize)>)
    ensures
        at(r) == grammar::opcode_at(src@, pos as int, level as nat),
        beyond(r, pos, src@.len()),
{
    if level == 0 {
        sum_opcode(src, pos)
    } else if level == 1 {
        product_opcode(src, pos)
    } else if level == 2 {
        relational_opcode(src, pos)
    } else {
        logical_opcode(src, pos)
    }
}

/// A result that holds an entry of a dict literal, by its views.
pub open spec fn pair_result(r: Option<((String, Expr), usize)>) -> Parsed<(Seq<char>, ExprView)> {
    match r {
        Some(((k, e), p)) => Some(((k@, e@), p as int)),
        None => None,
    }
}

/// Reads an expression.
pub fn expr(src: &Vec<char>, pos: usize) -> (r: Option<(Expr, usize)>)
    requires
        pos <= src.len(),
    ensures
        expr_at(r) == grammar::expr(src@, pos as int),
        within(r, pos, src@.len()),
    decreases grammar::left(src@, pos as int), 20nat,
{
    binary(src, pos, 0)
}

/// Reads a chain of operands joined by the operators of one level.
pub fn binary(src: &Vec<char>, pos: usize, level: u8) -> (r: Option<(Expr, usize)>)
    requires
        pos <= src.len(),
    ensures
        expr_at(r) == grammar::binary(src@, pos as int, level as nat),
        within(r, pos, src@.len()),
    decreases grammar::left(src@, pos as int), (19 - level) as nat,
{
    if level > 3 {
        return None;
    }
    let first = if level == 3 {
        term(src, pos)
    } else {
        binary(src, pos, level + 1)
    };
    match first {
        Some((l, p)) => binary_rest(src, p, level, l),
        None => None,
    }
}

/// Reads what follows the first operand of a chain.
#[verifier::loop_isolation(false)]
pub fn binary_rest(src: &Vec<char>, pos: usize, level: u8, lhs: Expr) -> (r: Option<(Expr, usize)>)
    requires
        pos <= src.len(),
    ensures
        expr_at(r) == grammar::binary_rest(src@, pos as int, level as nat, lhs@),
        within(r, pos, src@.len()),
    decreases grammar::left(src@, pos as int), 0nat,
{
    let ghost want = grammar::binary_rest(src@, pos as int, level as nat, lhs@);
    let mut cur = lhs;
    let mut p: usize = pos;
    loop
        invariant
            pos <= p <= src.len(),
            grammar::binary_rest(src@, p as int, level as nat, cur@) == want,
        decreases src.len() - p,
    {
        let q = skip(src, p);
        match opcode_at(src, q, level) {
            Some((op, q1)) => {
                if level > 3 {
                    return None;
                }
                let operand = if level == 3 {
                    term(src, q1)
                } else {
                    binary(src, q1, level + 1)
                };
                match operand {
                    Some((r, q2)) => {
                        cur = Expr::BinOp(Box::new(cur), op, Box::new(r));
                        p = q2;
                    },
                    None => {
                        return None;
                    },
                }
            },
            None => {
                return Some((cur, p));
            },
        }
    }
}

/// Reads a chain of sums.
pub fn sum_expr(src: &Vec<char>, pos: usize) -> (r: Option<(Expr, usize)>)
    requires
        pos <= src.len(),
    ensures
        expr_at(r) == grammar::sum_expr(src@, pos as int),
        within(r, pos, src@.len()),
{
    binary(src, pos, 0)
}

/// Reads a chain of products.
pub fn product_expr(src: &Vec<char>, pos: usize) -> (r: Option<(Expr, usize)>)
    requires
        pos <= src.len(),
    ensures
        expr_at(r) == grammar::product_expr(src@, pos as int),
        within(r, pos, src@.len()),
{
    binary(src, pos, 1)
}

/// Reads a chain of relations.
pub fn relational_expr(src: &Vec<char>, pos: usize) -> (r: Option<(Expr, usize)>)
    requires
        pos <= src.len(),
    ensures
        expr_at(r) == grammar::relational_expr(src@, pos as int),
        within(r, pos, src@.len()),
{
    binary(src, pos, 2)
}

/// Reads a chain of logical operations.
pub fn logical_expr(src: &Vec<char>, pos: usize) -> (r: Option<(Expr, usize)>)
    requires
        pos <= src.len(),
    ensures
        expr_at(r) == grammar::logical_expr(src@, pos as int),
        within(r, pos, src@.len()),
{
    binary(src, pos, 3)
}

/// Reads an expression in parentheses, or a value expression.
pub fn term(src: &Vec<char>, pos: usize) -> (r: Option<(Expr, usize)>)
    requires
        pos <= src.len(),
    ensures
        expr_at(r) == grammar::term(src@, pos as int),
        within(r, pos, src@.len()),
    decreases grammar::left(src@, pos as int), 15nat,
{
    match symbol(src, pos, '(') {
        Some(p) => match expr(src, p) {
            Some((e, q1)) => match symbol(src, q1, ')') {
                Some(q2) => {
                    return Some((e, q2));
                },
                None => {},
            },
            None => {},
        },
        None => {},
    }
    value_expr(src, pos)
}

/// Reads a literal, a call, an indexed access, a negation or a name.
pub fn value_expr(src: &Vec<char>, pos: usize) -> (r: Option<(Expr, usize)>)
    requires
        pos <= src.len(),
    ensures
        expr_at(r) == grammar::value_expr(src@, pos as int),
        within(r, pos, src@.len()),
    decreases grammar::left(src@, pos as int), 14nat,
{
    let p = skip(src, pos);
    if let Some((x, e)) = float_literal(src, p) {
        return Some((Expr::Real(x), e));
    }
    if let Some((i, e)) = int_literal(src, p) {
        return Some((Expr::Int(i), e));
    }
    if let Some((b, e)) = bool_literal(src, p) {
        return Some((Expr::Bool(b), e));
    }
    if let Some((t, e)) = str_literal(src, p) {
        return Some((Expr::Str(t), e));
    }
    if let Some(e) = keyword(src, p, "null") {
        return Some((Expr::Null, e));
    }
    if let Some(r) = func_call(src, p) {
        return Some(r);
    }
    if let Some(r) = dict_literal(src, p) {
        return Some(r);
    }
    if let Some(r) = list_literal(src, p) {
        return Some(r);
    }
    if let Some(r) = list_element(src, p) {
        return Some(r);
    }
    if let Some(r) = unary_op(src, p) {
        return Some(r);
    }
    if let Some((n, e)) = ident(src, p) {
        return Some((Expr::Id(n), e));
    }
    None
}

/// Reads a negation.
pub fn unary_op(src: &Vec<char>, pos: usize) -> (r: Option<(Expr, usize)>)
    requires
        pos <= src.len(),
    ensures
        expr_at(r) == grammar::unary_op(src@, pos as int),
        beyond(r, pos, src@.len()),
    decreases grammar::left(src@, pos as int), 13nat,
{
    match unary_opcode(src, pos) {
        Some((op, p)) => match term(src, p) {
            Some((e, q1)) => Some((Expr::UnaryOp(op, Box::new(e)), q1)),
            None => None,
        },
        None => None,
    }
}

/// Reads a call.
pub fn func_call(src: &Vec<char>, pos: usize) -> (r: Option<(Expr, usize)>)
    requires
        pos <= src.len(),
    ensures
        expr_at(r) == grammar::func_call(src@, pos as int),
        beyond(r, pos, src@.len()),
    decreases grammar::left(src@, pos as int), 13nat,
{
    match ident(src, pos) {
        Some((n, p)) => match symbol(src, p, '(') {
            Some(q1) => match expr_list(src, q1) {
                Some((args, q2)) => match symbol(src, q2, ')') {
                    Some(q3) => Some((Expr::FuncCall(n, args), q3)),
                    None => None,
                },
                None => None,
            },
            None => None,
        },
        None => None,
    }
}

/// Reads an indexed access.
pub fn list_element(src: &Vec<char>, pos: usize) -> (r: Option<(Expr, usize)>)
    requires
        pos <= src.len(),
    ensures
        expr_at(r) == grammar::list_element(src@, pos as int),
        beyond(r, pos, src@.len()),
    decreases grammar::left(src@, pos as int), 13nat,
{
    match ident(src, pos) {
        Some((n, p)) => match symbol(src, p, '[') {
            Some(q1) => match expr(src, q1) {
                Some((e, q2)) => match symbol(src, q2, ']') {
                    Some(q3) => Some((Expr::ListElement(n, Box::new(e)), q3)),
                    None => None,
                },
                None => None,
            },
            None => None,
        },
        None => None,
    }
}

/// Reads a list literal.
pub fn list_literal(src: &Vec<char>, pos: usize) -> (r: Option<(Expr, usize)>)
    requires
        pos <= src.len(),
    ensures
        expr_at(r) == grammar::list_literal(src@, pos as int),
        beyond(r, pos, src@.len()),
    decreases grammar::left(src@, pos as int), 13nat,
{
    match symbol(src, pos, '[') {
        Some(q1) => match expr_list(src, q1) {
            Some((items, q2)) => match symbol(src, q2, ']') {
                Some(q3) => Some((Expr::List(items), q3)),
                None => None,
            },
            None => None,
        },
        None => None,
    }
}

/// Reads expressions separated by commas, or none at all.
#[verifier::loop_isolation(false)]
pub fn expr_list(src: &Vec<char>, pos: usize) -> (r: Option<(Vec<Box<Expr>>, usize)>)
    requires
        pos <= src.len(),
    ensures
        exprs_at(r) == grammar::expr_list(src@, pos as int),
        within(r, pos, src@.len()),
    decreases grammar::left(src@, pos as int), 21nat,
{
    let mut items: Vec<Box<Expr>> = Vec::new();
    let mut p: usize = pos;
    match expr(src, pos) {
        Some((e, q1)) => {
            items.push(Box::new(e));
            p = q1;
            assert(exprs_view(items@) =~= seq![e@]);
        },
        None => {
            assert(exprs_view(items@) =~= Seq::<ExprView>::empty());
            return Some((items, pos));
        },
    }
    let ghost want = grammar::expr_list(src@, pos as int);
    loop
        invariant
            pos <= p <= src.len(),
            grammar::expr_list_rest(src@, p as int, exprs_view(items@)) == want,
        decreases src.len() - p,
    {
        match symbol(src, p, ',') {
            Some(q1) => match expr(src, q1) {
                Some((e, q2)) => {
                    let ghost before = exprs_view(items@);
                    items.push(Box::new(e));
                    p = q2;
                    assert(exprs_view(items@) =~= before.push(e@));
                },
                None => {
                    return None;
                },
            },
            None => {
                return Some((items, p));
            },
        }
    }
}

/// Reads an entry of a dict literal.
pub fn key_val_pair(src: &Vec<char>, pos: usize) -> (r: Option<((String, Expr), usize)>)
    requires
        pos <= src.len(),
    ensures
        pair_result(r) == grammar::key_val_pair(src@, pos as int),
        beyond(r, pos, src@.len()),
    decreases grammar::left(src@, pos as int), 12nat,
{
    match str_literal(src, pos) {
        Some((k, p)) => match symbol(src, p, ':') {
            Some(q1) => match expr(src, q1) {
                Some((e, q2)) => Some(((k, e), q2)),
                None => None,
            },
            None => None,
        },
        None => None,
    }
}

/// Reads a dict literal.
#[verifier::loop_isolation(false)]
pub fn dict_literal(src: &Vec<char>, pos: usize) -> (r: Option<(Expr, usize)>)
    requires
        pos <= src.len(),
    ensures
        expr_at(r) == grammar::dict_literal(src@, pos as int),
        beyond(r, pos, src@.len()),
    decreases grammar::left(src@, pos as int), 13nat,
{
    let mut items: Vec<(String, Box<Expr>)> = Vec::new();
    let mut p: usize = pos;
    match symbol(src, pos, '{') {
        Some(q1) => {
            let q = skip(src, q1);
            match key_val_pair(src, q) {
                Some(((k, e), q2)) => {
                    items.push((k, Box::new(e)));
                    p = q2;
                    assert(items_view(items@) =~= seq![(k@, e@)]);
                },
                None => {
                    return None;
                },
            }
        },
        None => {
            return None;
        },
    }
    let ghost want = grammar::dict_literal(src@, pos as int);
    loop
        invariant
            pos < p <= src.len(),
            want == (match grammar::dict_rest(src@, p as int, items_view(items@)) {
                Some((all, q3)) => match grammar::symbol(src@, q3, '}') {
                    Some(q4) => Some((ExprView::Dict(all), q4)),
                    None => None,
                },
                None => None,
            }),
        decreases src.len() - p,
    {
        match symbol(src, p, ',') {
            Some(q1) => {
                let q = skip(src, q1);
                match key_val_pair(src, q) {
                    Some(((k, e), q2)) => {
                        let ghost before = items_view(items@);
                        items.push((k, Box::new(e)));
                        p = q2;
                        assert(items_view(items@) =~= before.push((k@, e@)));
                    },
                    None => {
                        return None;
                    },
                }
            },
            None => {
                return match symbol(src, p, '}') {
                    Some(q4) => Some((Expr::Dict(items), q4)),
                    None => None,
                };
            },
        }
    }
}

/// A result that holds names, by their views.
pub open spec fn names_at(r: Option<(Vec<String>, usize)>) -> Parsed<Seq<Seq<char>>> {
    match r {
        Some((v, p)) => Some((names_view(v@), p as int)),
        None => None,
    }
}

/// A result that holds a condition and a block, by their views.
pub open spec fn head_at(r: Option<((Expr, StmtBlock), usize)>) -> Parsed<(ExprView, Seq<StmtView>)> {
    match r {
        Some(((c, b), p)) => Some(((c@, block_view(b@)), p as int)),
        None => None,
    }
}

/// Reads names separated by commas, or none at all.
#[verifier::loop_isolation(false)]
pub fn ident_list(src: &Vec<char>, pos: usize) -> (r: Option<(Vec<String>, usize)>)
    requires
        pos <= src.len(),
    ensures
        names_at(r) == grammar::ident_list(src@, pos as int),
        within(r, pos, src@.len()),
{
    let mut names: Vec<String> = Vec::new();
    let mut p: usize = pos;
    match name(src, pos) {
        Some((n, q1)) => {
            names.push(n);
            p = q1;
            assert(names_view(names@) =~= seq![n@]);
        },
        None => {
            assert(names_view(names@) =~= Seq::<Seq<char>>::empty());
            return Some((names, pos));
        },
    }
    let ghost want = grammar::ident_list(src@, pos as int);
    loop
        invariant
            pos <= p <= src.len(),
            grammar::ident_list_rest(src@, p as int, names_view(names@)) == want,
        decreases src.len() - p,
    {
        match symbol(src, p, ',') {
            Some(q1) => match name(src, q1) {
                Some((n, q2)) => {
                    let ghost before = names_view(names@);
                    names.push(n);
                    p = q2;
                    assert(names_view(names@) =~= before.push(n@));
                },
                None => {
                    return None;
                },
            },
            None => {
                return Some((names, p));
            },
        }
    }
}

/// Reads `break`, with the whitespace around it.
pub fn break_statement(src: &Vec<char>, pos: usize) -> (r: Option<(Stmt, usize)>)
    requires
        pos <= src.len(),
    ensures
        stmt_at(r) == grammar::break_statement(src@, pos as int),
        beyond(r, pos, src@.len()),
{
    match keyword(src, pos, "break") {
        Some(p) => Some((Stmt::Break, skip(src, p))),
        None => None,
    }
}

/// Reads an expression that stands as a statement.
pub fn expr_statement(src: &Vec<char>, pos: usize) -> (r: Option<(Stmt, usize)>)
    requires
        pos <= src.len(),
    ensures
        stmt_at(r) == grammar::expr_statement(src@, pos as int),
        within(r, pos, src@.len()),
    decreases grammar::left(src@, pos as int), 28nat,
{
    match expr(src, pos) {
        Some((e, p)) => Some((Stmt::Expr(e), p)),
        None => None,
    }
}

/// Reads the definition of a function.
pub fn fndef_statement(src: &Vec<char>, pos: usize) -> (r: Option<(Stmt, usize)>)
    requires
        pos <= src.len(),
    ensures
        stmt_at(r) == grammar::fndef_statement(src@, pos as int),
        beyond(r, pos, src@.len()),
    decreases grammar::left(src@, pos as int), 28nat,
{
    match keyword(src, pos, "fn") {
        Some(p) => match name(src, p) {
            Some((n, q1)) => match symbol(src, q1, '(') {
                Some(q2) => match ident_list(src, q2) {
                    Some((params, q3)) => match symbol(src, q3, ')') {
                        Some(q4) => match statement_block(src, q4) {
                            Some((body, q5)) => Some((Stmt::FnDef(n, params, body), q5)),
                            None => None,
                        },
                        None => None,
                    },
                    None => None,
                },
                None => None,
            },
            None => None,
        },
        None => None,
    }
}

/// Reads `if`, a condition and a block.
pub fn if_head(src: &Vec<char>, pos: usize) -> (r: Option<((Expr, StmtBlock), usize)>)
    requires
        pos <= src.len(),
    ensures
        head_at(r) == grammar::if_head(src@, pos as int),
        beyond(r, pos, src@.len()),
    decreases grammar::left(src@, pos as int), 27nat,
{
    match keyword(src, pos, "if") {
        Some(p) => match expr(src, p) {
            Some((c, q1)) => match statement_block(src, q1) {
                Some((body, q2)) => Some(((c, body), q2)),
                None => None,
            },
            None => None,
        },
        None => None,
    }
}

/// Reads a conditional without `else`.
pub fn if_statement(src: &Vec<char>, pos: usize) -> (r: Option<(Stmt, usize)>)
    requires
        pos <= src.len(),
    ensures
        stmt_at(r) == grammar::if_statement(src@, pos as int),
        beyond(r, pos, src@.len()),
    decreases grammar::left(src@, pos as int), 28nat,
{
    match if_head(src, pos) {
        Some(((c, body), p)) => Some((Stmt::If(c, body), p)),
        None => None,
    }
}

/// Reads a conditional with `else`.
pub fn if_else_statement(src: &Vec<char>, pos: usize) -> (r: Option<(Stmt, usize)>)
    requires
        pos <= src.len(),
    ensures
        stmt_at(r) == grammar::if_else_statement(src@, pos as int),
        beyond(r, pos, src@.len()),
    decreases grammar::left(src@, pos as int), 28nat,
{
    match if_head(src, pos) {
        Some(((c, yes), p)) => match keyword(src, p, "else") {
            Some(q1) => match statement_block(src, q1) {
                Some((no, q2)) => Some((Stmt::IfElse(c, yes, no), q2)),
                None => None,
            },
            None => None,
        },
        None => None,
    }
}

/// Reads a conditional of either kind, reading its condition and first
/// block once.
pub fn conditional(src: &Vec<char>, pos: usize) -> (r: Option<(Stmt, usize)>)
    requires
        pos <= src.len(),
    ensures
        stmt_at(r) == (match grammar::if_else_statement(src@, pos as int) {
            Some(x) => Some(x),
            None => grammar::if_statement(src@, pos as int),
        }),
        beyond(r, pos, src@.len()),
    decreases grammar::left(src@, pos as int), 28nat,
{
    match if_head(src, pos) {
        Some(((c, yes), p)) => {
            match keyword(src, p, "else") {
                Some(q1) => match statement_block(src, q1) {
                    Some((no, q2)) => {
                        return Some((Stmt::IfElse(c, yes, no), q2));
                    },
                    None => {},
                },
                None => {},
            }
            Some((Stmt::If(c, yes), p))
        },
        None => None,
    }
}

/// Reads a `let` statement.
pub fn let_statement(src: &Vec<char>, pos: usize) -> (r: Option<(Stmt, usize)>)
    requires
        pos <= src.len(),
    ensures
        stmt_at(r) == grammar::let_statement(src@, pos as int),
        beyond(r, pos, src@.len()),
    decreases grammar::left(src@, pos as int), 28nat,
{
    match keyword(src, pos, "let") {
        Some(p) => match name(src, p) {
            Some((n, q1)) => match symbol(src, q1, '=') {
                Some(q2) => match expr(src, q2) {
                    Some((e, q3)) => Some((Stmt::Let(n, e), q3)),
                    None => None,
                },
                None => None,
            },
            None => None,
        },
        None => None,
    }
}

/// Reads an assignment to a place of a collection.
pub fn list_assignment_statement(src: &Vec<char>, pos: usize) -> (r: Option<(Stmt, usize)>)
    requires
        pos <= src.len(),
    ensures
        stmt_at(r) == grammar::list_assignment_statement(src@, pos as int),
        beyond(r, pos, src@.len()),
    decreases grammar::left(src@, pos as int), 28nat,
{
    match name(src, pos) {
        Some((n, p)) => match symbol(src, p, '[') {
            Some(q1) => match expr(src, q1) {
                Some((i, q2)) => match symbol(src, q2, ']') {
                    Some(q3) => match symbol(src, q3, '=') {
                        Some(q4) => match expr(src, q4) {
                            Some((e, q5)) => Some((Stmt::ListItemAssignment(n, i, e), q5)),
                            None => None,
                        },
                        None => None,
                    },
                    None => None,
                },
                None => None,
            },
            None => None,
        },
        None => None,
    }
}

/// Reads a loop.
pub fn loop_statement(src: &Vec<char>, pos: usize) -> (r: Option<(Stmt, usize)>)
    requires
        pos <= src.len(),
    ensures
        stmt_at(r) == grammar::loop_statement(src@, pos as int),
        beyond(r, pos, src@.len()),
    decreases grammar::left(src@, pos as int), 28nat,
{
    match keyword(src, pos, "loop") {
        Some(p) => match statement_block(src, p) {
            Some((body, q1)) => Some((Stmt::Loop(body), q1)),
            None => None,
        },
        None => None,
    }
}

/// Reads a `return` statement.
pub fn return_statement(src: &Vec<char>, pos: usize) -> (r: Option<(Stmt, usize)>)
    requires
        pos <= src.len(),
    ensures
        stmt_at(r) == grammar::return_statement(src@, pos as int),
        beyond(r, pos, src@.len()),
    decreases grammar::left(src@, pos as int), 28nat,
{
    match keyword(src, pos, "return") {
        Some(p) => match expr(src, p) {
            Some((e, q1)) => Some((Stmt::Return(e), q1)),
            None => None,
        },
        None => None,
    }
}

/// Reads a statement of any kind.
pub fn statement(src: &Vec<char>, pos: usize) -> (r: Option<(Stmt, usize)>)
    requires
        pos <= src.len(),
    ensures
        stmt_at(r) == grammar::statement(src@, pos as int),
        within(r, pos, src@.len()),
    decreases grammar::left(src@, pos as int), 29nat,
{
    if let Some(r) = break_statement(src, pos) {
        return Some(r);
    }
    if let Some(r) = fndef_statement(src, pos) {
        return Some(r);
    }
    if let Some(r) = conditional(src, pos) {
        return Some(r);
    }
    if let Some(r) = let_statement(src, pos) {
        return Some(r);
    }
    if let Some(r) = list_assignment_statement(src, pos) {
        return Some(r);
    }
    if let Some(r) = loop_statement(src, pos) {
        return Some(r);
    }
    if let Some(r) = return_statement(src, pos) {
        return Some(r);
    }
    expr_statement(src, pos)
}

/// Reads one or more statements separated by `;`.
#[verifier::loop_isolation(false)]
pub fn statements(src: &Vec<char>, pos: usize) -> (r: Option<(StmtBlock, usize)>)
    requires
        pos <= src.len(),
    ensures
        block_at(r) == grammar::statements(src@, pos as int),
        within(r, pos, src@.len()),
    decreases grammar::left(src@, pos as int), 30nat,
{
    let mut done: Vec<Stmt> = Vec::new();
    let mut p: usize = pos;
    match statement(src, pos) {
        Some((st, q1)) => {
            done.push(st);
            p = q1;
            assert(block_view(done@) =~= seq![st@]);
        },
        None => {
            return None;
        },
    }
    let ghost want = grammar::statements(src@, pos as int);
    loop
        invariant
            pos <= p <= src.len(),
            grammar::statements_rest(src@, p as int, block_view(done@)) == want,
        decreases src.len() - p,
    {
        match symbol(src, p, ';') {
            Some(q1) => match statement(src, q1) {
                Some((st, q2)) => {
                    let ghost before = block_view(done@);
                    done.push(st);
                    p = q2;
                    assert(block_view(done@) =~= before.push(st@));
                },
                None => {
                    return Some((done, q1));
                },
            },
            None => {
                return Some((done, p));
            },
        }
    }
}

/// Reads statements in braces.
pub fn statement_block(src: &Vec<char>, pos: usize) -> (r: Option<(StmtBlock, usize)>)
    requires
        pos <= src.len(),
    ensures
        block_at(r) == grammar::statement_block(src@, pos as int),
        beyond(r, pos, src@.len()),
    decreases grammar::left(src@, pos as int), 10nat,
{
    match symbol(src, pos, '{') {
        Some(p) => match statements(src, p) {
            Some((b, q1)) => match symbol(src, q1, '}') {
                Some(q2) => Some((b, q2)),
                None => None,
            },
            None => None,
        },
        None => None,
    }
}

/// Reads the statements of a program from `pos` on.
pub fn program_parser(src: &Vec<char>, pos: usize) -> (r: Option<(StmtBlock, usize)>)
    requires
        pos <= src.len(),
    ensures
        block_at(r) == grammar::statements(src@, pos as int),
        within(r, pos, src@.len()),
{
    statements(src, pos)
}

/// Parses a whole program. A source that is no program is refused with
/// one message, whatever is wrong with it.
pub fn parse(source: &str) -> (r: Result<StmtBlock, &'static str>)
    ensures
        match r {
            Ok(b) => grammar::program(source@) == Some(block_view(b@)),
            Err(m) => grammar::program(source@) is None && m@ == parse_error(),
        },
{
    let src = to_chars(source);
    match statements(&src, 0) {
        Some((b, p)) => {
            if skip(&src, p) == src.len() {
                Ok(b)
            } else {
                Err("Unable to parse program source")
            }
        },
        None => Err("Unable to parse program source"),
    }
}

/// A parser for texts that hold one expression.
pub struct ExprParser {}

impl ExprParser {
    /// A new parser.
    pub fn new() -> (r: ExprParser) {
        ExprParser {  }
    }

    /// Parses a text that holds one expression and nothing else.
    pub fn parse(&self, source: &str) -> (r: Result<Expr, &'static str>)
        ensures
            match r {
                Ok(e) => grammar::whole_expr(source@) == Some(e@),
                Err(m) => grammar::whole_expr(source@) is None && m@ == parse_error(),
            },
    {
        let src = to_chars(source);
        match expr(&src, 0) {
            Some((e, p)) => {
                if skip(&src, p) == src.len() {
                    Ok(e)
                } else {
                    Err("Unable to parse program source")
                }
            },
            None => Err("Unable to parse program source"),
        }
    }
}

/// A parser for whole programs.
pub struct ProgramParser {}

impl ProgramParser {
    /// A new parser.
    pub fn new() -> (r: ProgramParser) {
        ProgramParser {  }
    }

    /// Parses a whole program.
    pub fn parse(&self, source: &str) -> (r: Result<StmtBlock, &'static str>)
        ensures
            match r {
                Ok(b) => grammar::program(source@) == Some(block_view(b@)),
                Err(m) => grammar::program(source@) is None && m@ == parse_error(),
            },
    {
        parse(source)
    }
}

} // verus!
