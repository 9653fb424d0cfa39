//! What the printing functions of a host write for a value.
//!
//! An integer is written in decimal and a text as it is. How a real is
//! written, and how the debug form of any other value looks, is the
//! host's business: it formats doubles, which this library only holds as
//! bit patterns.

use crate::ast::{Value, ValueView};
use crate::grammar::{decimal, digit_value, int_literal, CharClass};
use crate::ieee::is_digit;
use crate::parser::lemma_run_is;
use vstd::prelude::*;

verus! {

/// The character of a decimal digit.
pub open spec fn digit_char(d: nat) -> char {
    if d == 1 {
        '1'
    } else if d == 2 {
        '2'
    } else if d == 3 {
        '3'
    } else if d == 4 {
        '4'
    } else if d == 5 {
        '5'
    } else if d == 6 {
        '6'
    } else if d == 7 {
        '7'
    } else if d == 8 {
        '8'
    } else if d == 9 {
        '9'
    } else {
        '0'
    }
}

/// A natural number in decimal, without leading zeros.
pub open spec fn decimal_text(n: nat) -> Seq<char>
    decreases n,
{
    if n < 10 {
        seq![digit_char(n)]
    } else {
        decimal_text(n / 10).push(digit_char(n % 10))
    }
}

/// An integer in decimal, with a minus sign where it is negative.
pub open spec fn int_text(i: int) -> Seq<char> {
    if i < 0 {
        seq!['-'] + decimal_text((-i) as nat)
    } else {
        decimal_text(i as nat)
    }
}

/// What is written for a value that is written plainly: the decimal form
/// of an integer, the characters of a text. No other value is.
pub open spec fn plain_text(v: ValueView) -> Option<Seq<char>> {
    match v {
        ValueView::Int(i) => Some(int_text(i as int)),
        ValueView::Str(s) => Some(s),
        _ => None,
    }
}

/// Reading the decimal form of a number gives the number back, and the
/// form holds digits only.
pub proof fn law_decimal_round_trip(n: nat)
    ensures
        decimal(decimal_text(n)) == n,
        decimal_text(n).len() > 0,
        forall|i: int| 0 <= i < decimal_text(n).len() ==> is_digit(#[trigger] decimal_text(n)[i]),
    decreases n,
{
    if n < 10 {
        let t = decimal_text(n);
        assert(t.drop_last() =~= Seq::<char>::empty());
        assert(decimal(t.drop_last()) == 0);
        assert(digit_value(digit_char(n)) == n);
    } else {
        law_decimal_round_trip(n / 10);
        let t = decimal_text(n);
        assert(t.drop_last() =~= decimal_text(n / 10));
        assert(t.last() == digit_char(n % 10));
        assert(digit_value(digit_char(n % 10)) == n % 10);
    }
}

/// What is written for an integer is read back as that integer: the
/// decimal form of an integer, other than the least one, is an integer
/// literal with the integer for its value.
pub proof fn law_int_text_reads_back(i: i64)
    requires
        i > i64::MIN,
    ensures
        int_literal(int_text(i as int), 0) == Some((i, int_text(i as int).len() as int)),
{
    let t = int_text(i as int);
    if i < 0 {
        let digits = decimal_text((-i) as nat);
        law_decimal_round_trip((-i) as nat);
        assert(t[0] == '-');
        assert forall|k: int| 1 <= k < t.len() implies crate::grammar::in_class(
            CharClass::Digit,
            #[trigger] t[k],
        ) by {
            assert(t[k] == digits[k - 1]);
        }
        lemma_run_is(t, 1, CharClass::Digit, t.len() as int);
        assert(t.subrange(1, t.len() as int) =~= digits);
    } else {
        law_decimal_round_trip(i as nat);
        assert(is_digit(t[0]));
        assert forall|k: int| 0 <= k < t.len() implies crate::grammar::in_class(
            CharClass::Digit,
            #[trigger] t[k],
        ) by {
            assert(is_digit(t[k]));
        }
        lemma_run_is(t, 0, CharClass::Digit, t.len() as int);
        assert(t.subrange(0, t.len() as int) =~= t);
    }
}

/// The character of a decimal digit.
pub fn digit_of(d: u64) -> (c: char)
    requires
        d < 10,
    ensures
        c == digit_char(d as nat),
{
    if d == 1 {
        '1'
    } else if d == 2 {
        '2'
    } else if d == 3 {
        '3'
    } else if d == 4 {
        '4'
    } else if d == 5 {
        '5'
    } else if d == 6 {
        '6'
    } else if d == 7 {
        '7'
    } else if d == 8 {
        '8'
    } else if d == 9 {
        '9'
    } else {
        '0'
    }
}

/// An integer in decimal.
pub fn int_to_text(i: i64) -> (s: String)
    ensures
        s@ == int_text(i as int),
{
    let mut text = String::new();
    let magnitude: u64 = if i < 0 {
        text.push('-');
        (-(i as i128)) as u64
    } else {
        i as u64
    };
    // The digits behind the first, last digit first.
    let mut low: Vec<char> = Vec::new();
    let mut cur: u64 = magnitude;
    while cur >= 10
        invariant
            decimal_text(magnitude as nat) == decimal_text(cur as nat) + low@.reverse(),
        decreases cur,
    {
        let ghost before = low@;
        low.push(digit_of(cur % 10));
        proof {
            let d = digit_char((cur % 10) as nat);
            assert(low@.reverse() =~= seq![d] + before.reverse());
            assert(decimal_text(cur as nat) == decimal_text((cur / 10) as nat).push(d));
            assert(decimal_text((cur / 10) as nat).push(d) + before.reverse() =~= decimal_text(
                (cur / 10) as nat,
            ) + (seq![d] + before.reverse()));
        }
        cur = cur / 10;
    }
    let ghost head = text@;
    text.push(digit_of(cur));
    let mut k: usize = low.len();
    while k > 0
        invariant
            k <= low.len(),
            text@ == head + decimal_text(cur as nat) + low@.reverse().take(low.len() - k),
        decreases k,
    {
        k -= 1;
        text.push(low[k]);
        proof {
            let r = low@.reverse();
            assert(r.take(low.len() - k) =~= r.take(low.len() - k - 1).push(low@[k as int]));
        }
    }
    proof {
        assert(low@.reverse().take(low.len() as int) =~= low@.reverse());
        if i < 0 {
            assert(head =~= seq!['-']);
            assert(text@ =~= seq!['-'] + decimal_text(magnitude as nat));
        } else {
            assert(head =~= Seq::<char>::empty());
            assert(text@ =~= decimal_text(magnitude as nat));
        }
    }
    text
}

/// What is written for a value that is written plainly, if it is one.
pub fn plain(v: &Value) -> (r: Option<String>)
    ensures
        match r {
            Some(s) => plain_text(v@) == Some(s@),
            None => plain_text(v@) is None,
        },
{
    match v {
        Value::Int(i) => Some(int_to_text(*i)),
        Value::Str(s) => Some(s.clone()),
        _ => None,
    }
}

} // verus!
