//! The order of remarks: the remarks that a parser returns stand in the text
//! it has read, one after another, in the order in which it returns them.

use super::basis::{digits_end, is_space, lemma_digits_end, lemma_word_end};
use super::expression::{
    binary, char_at, lex_identifier, spec_expression, spec_factor, spec_primary,
    spec_simple_expression, spec_simple_factor, spec_term,
};
use super::literal::{
    encoded_string_body, lex_logical, lex_real, lex_string, simple_string_body,
    spec_integer_literal, spec_literal, spec_logical_literal, spec_real_literal,
    spec_string_literal, Lexeme,
};
use super::operator::{
    lex_add_like_op, lex_multiplication_like_op, lex_power_op, lex_rel_op_extended, lex_unary_op,
    spec_add_like_op, spec_multiplication_like_op, spec_power_op, spec_rel_op_extended,
    spec_unary_op, token,
};
use super::outcome::{delivers, Failure, Outcome, Parse, ParseResult, Production};
use super::remark::{
    embedded_close, lemma_embedded_close, lemma_line_end, line_end, opens_embedded, opens_tail,
    spec_trivia, views, RemarkView,
};
use vstd::prelude::*;

verus! {

/// True when `text` stands in `s` at `at`.
pub open spec fn stands_at(s: Seq<char>, at: int, text: Seq<char>) -> bool {
    0 <= at && at + text.len() <= s.len() && s.subrange(at, at + text.len()) == text
}

/// True when the texts of `remarks` stand in `s` between `from` and `to`, one
/// after another in the order of the list, none reaching into the next.
pub open spec fn in_source_order(s: Seq<char>, from: int, to: int, remarks: Seq<RemarkView>) -> bool
    decreases remarks.len(),
{
    if remarks.len() == 0 {
        from <= to
    } else {
        exists|at: int|
            from <= at && at + remarks[0].text().len() <= to && #[trigger] stands_at(
                s,
                at,
                remarks[0].text(),
            ) && in_source_order(s, at + remarks[0].text().len(), to, remarks.drop_first())
    }
}

/// True when a parse that began at `pos` ended at or after `pos` and within
/// the text, and its remarks stand in what it read, in their order.
pub open spec fn orderly<V>(s: Seq<char>, pos: int, o: Outcome<V>) -> bool {
    o matches Ok(p) ==> pos <= p.end <= s.len() && in_source_order(s, pos, p.end, p.remarks)
}

/// Remarks that stand in their order between two places stand so between
/// any two places around them.
pub proof fn lemma_order_widen(
    s: Seq<char>,
    from: int,
    to: int,
    lo: int,
    hi: int,
    remarks: Seq<RemarkView>,
)
    requires
        in_source_order(s, from, to, remarks),
        lo <= from,
        to <= hi,
    ensures
        in_source_order(s, lo, hi, remarks),
        lo <= hi,
    decreases remarks.len(),
{
    if remarks.len() > 0 {
        let text = remarks[0].text();
        let at = choose|at: int|
            from <= at && at + text.len() <= to && #[trigger] stands_at(s, at, text)
                && in_source_order(s, at + text.len(), to, remarks.drop_first());
        lemma_order_widen(s, at + text.len(), to, at + text.len(), hi, remarks.drop_first());
        assert(lo <= at && at + text.len() <= hi && stands_at(s, at, text) && in_source_order(
            s,
            at + text.len(),
            hi,
            remarks.drop_first(),
        ));
    }
}

/// A remark that stands before remarks in their order stands in order with
/// them.
pub proof fn lemma_order_first(
    s: Seq<char>,
    from: int,
    to: int,
    at: int,
    first: RemarkView,
    rest: Seq<RemarkView>,
)
    requires
        from <= at,
        stands_at(s, at, first.text()),
        in_source_order(s, at + first.text().len(), to, rest),
    ensures
        in_source_order(s, from, to, seq![first] + rest),
{
    let all = seq![first] + rest;
    assert(all[0] == first);
    assert(all.drop_first() == rest);
    lemma_order_widen(s, at + first.text().len(), to, at + first.text().len(), to, rest);
    assert(from <= at && at + all[0].text().len() <= to && stands_at(s, at, all[0].text())
        && in_source_order(s, at + all[0].text().len(), to, all.drop_first()));
}

/// Remarks in their order up to a place, followed by remarks in their order
/// from that place on, are in their order.
pub proof fn lemma_order_concat(
    s: Seq<char>,
    from: int,
    mid: int,
    to: int,
    front: Seq<RemarkView>,
    back: Seq<RemarkView>,
)
    requires
        in_source_order(s, from, mid, front),
        in_source_order(s, mid, to, back),
    ensures
        in_source_order(s, from, to, front + back),
    decreases front.len(),
{
    if front.len() == 0 {
        assert(front + back == back);
        lemma_order_widen(s, mid, to, from, to, back);
    } else {
        let text = front[0].text();
        let at = choose|at: int|
            from <= at && at + text.len() <= mid && #[trigger] stands_at(s, at, text)
                && in_source_order(s, at + text.len(), mid, front.drop_first());
        lemma_order_concat(s, at + text.len(), mid, to, front.drop_first(), back);
        assert(front + back == seq![front[0]] + (front.drop_first() + back));
        lemma_order_first(s, from, to, at, front[0], front.drop_first() + back);
    }
}

/// The remarks that are skipped stand in what is skipped, in their order.
pub proof fn lemma_trivia_orderly(s: Seq<char>, pos: int)
    requires
        0 <= pos <= s.len(),
    ensures
        pos <= spec_trivia(s, pos).end <= s.len(),
        in_source_order(s, pos, spec_trivia(s, pos).end, spec_trivia(s, pos).remarks),
    decreases s.len() - pos,
{
    if pos >= s.len() {
    } else if is_space(s[pos]) {
        lemma_trivia_orderly(s, pos + 1);
        let t = spec_trivia(s, pos + 1);
        lemma_order_widen(s, pos + 1, t.end, pos, t.end, t.remarks);
    } else if opens_embedded(s, pos) {
        lemma_embedded_close(s, pos + 2);
        if let Some(close) = embedded_close(s, pos + 2) {
            lemma_trivia_orderly(s, close + 2);
            let rest = spec_trivia(s, close + 2);
            let first = RemarkView::Embedded(s.subrange(pos + 2, close));
            lemma_order_widen(s, close + 2, rest.end, close, rest.end, rest.remarks);
            lemma_order_first(s, pos, rest.end, pos + 2, first, rest.remarks);
        }
    } else if opens_tail(s, pos) {
        lemma_line_end(s, pos + 2);
        let stop = line_end(s, pos + 2);
        lemma_trivia_orderly(s, stop);
        let rest = spec_trivia(s, stop);
        let first = RemarkView::Tail(s.subrange(pos + 2, stop));
        lemma_order_first(s, pos, rest.end, pos + 2, first, rest.remarks);
    }
}

/// True when a lexeme that was read at `pos` ends at or after `pos` and
/// within the text.
pub open spec fn lexeme_within<V>(s: Seq<char>, pos: int, l: Option<Lexeme<V>>) -> bool {
    l matches Some(x) ==> pos <= x.end <= s.len()
}

/// A token read after blank space and remarks has the remarks before it, in
/// their order.
pub proof fn lemma_token_orderly<V>(
    s: Seq<char>,
    pos: int,
    l: Option<Lexeme<V>>,
    production: Production,
)
    requires
        0 <= pos <= s.len(),
        lexeme_within(s, spec_trivia(s, pos).end, l),
    ensures
        orderly(s, pos, token(spec_trivia(s, pos), l, production)),
{
    lemma_trivia_orderly(s, pos);
    if let Some(x) = l {
        let t = spec_trivia(s, pos);
        lemma_order_widen(s, pos, t.end, pos, x.end, t.remarks);
    }
}

/// A logical keyword that was read lies within the text.
pub proof fn lemma_lex_logical_within(s: Seq<char>, pos: int)
    requires
        0 <= pos <= s.len(),
    ensures
        lexeme_within(s, pos, lex_logical(s, pos)),
{
    reveal_strlit("TRUE");
    reveal_strlit("FALSE");
    reveal_strlit("UNKNOWN");
}

/// A real literal that was read lies within the text.
pub proof fn lemma_lex_real_within(s: Seq<char>, pos: int)
    requires
        0 <= pos <= s.len(),
    ensures
        lexeme_within(s, pos, lex_real(s, pos)),
{
    lemma_digits_end(s, pos);
    let point = digits_end(s, pos);
    if pos < point {
        if point < s.len() {
            lemma_digits_end(s, point + 1);
        }
        let mantissa_end = if point < s.len() && s[point] == '.' {
            digits_end(s, point + 1)
        } else {
            point
        };
        if mantissa_end < s.len() {
            lemma_digits_end(s, mantissa_end + 1);
            if mantissa_end + 1 < s.len() {
                lemma_digits_end(s, mantissa_end + 2);
            }
        }
    }
}

/// The text of a simple string literal that was read lies within the text.
pub proof fn lemma_simple_string_body_within(s: Seq<char>, pos: int)
    requires
        0 <= pos <= s.len(),
    ensures
        lexeme_within(s, pos, simple_string_body(s, pos)),
    decreases s.len() - pos,
{
    if pos < s.len() {
        if s[pos] == '\'' {
            if pos + 1 < s.len() && s[pos + 1] == '\'' {
                lemma_simple_string_body_within(s, pos + 2);
            }
        } else {
            lemma_simple_string_body_within(s, pos + 1);
        }
    }
}

/// The text of an encoded string literal that was read lies within the text.
pub proof fn lemma_encoded_string_body_within(s: Seq<char>, pos: int)
    requires
        0 <= pos <= s.len(),
    ensures
        lexeme_within(s, pos, encoded_string_body(s, pos)),
    decreases s.len() - pos,
{
    if pos < s.len() && s[pos] != '"' && pos + 8 <= s.len() {
        lemma_encoded_string_body_within(s, pos + 8);
    }
}

/// A string literal that was read lies within the text.
pub proof fn lemma_lex_string_within(s: Seq<char>, pos: int)
    requires
        0 <= pos <= s.len(),
    ensures
        lexeme_within(s, pos, lex_string(s, pos)),
{
    if pos < s.len() {
        lemma_simple_string_body_within(s, pos + 1);
        lemma_encoded_string_body_within(s, pos + 1);
    }
}

/// An identifier that was read lies within the text.
pub proof fn lemma_lex_identifier_within(s: Seq<char>, pos: int)
    requires
        0 <= pos <= s.len(),
    ensures
        lexeme_within(s, pos, lex_identifier(s, pos)),
{
    lemma_word_end(s, pos);
}

/// An operator that was read lies within the text.
pub proof fn lemma_lex_operators_within(s: Seq<char>, pos: int)
    requires
        0 <= pos <= s.len(),
    ensures
        lexeme_within(s, pos, lex_unary_op(s, pos)),
        lexeme_within(s, pos, lex_power_op(s, pos)),
        lexeme_within(s, pos, lex_multiplication_like_op(s, pos)),
        lexeme_within(s, pos, lex_add_like_op(s, pos)),
        lexeme_within(s, pos, lex_rel_op_extended(s, pos)),
{
    reveal_strlit("+");
    reveal_strlit("-");
    reveal_strlit("NOT");
    reveal_strlit("**");
    reveal_strlit("*");
    reveal_strlit("/");
    reveal_strlit("DIV");
    reveal_strlit("MOD");
    reveal_strlit("AND");
    reveal_strlit("||");
    reveal_strlit("OR");
    reveal_strlit("XOR");
    reveal_strlit(":=:");
    reveal_strlit(":<>:");
    reveal_strlit("<=");
    reveal_strlit("<>");
    reveal_strlit("<");
    reveal_strlit(">=");
    reveal_strlit(">");
    reveal_strlit("=");
    reveal_strlit("IN");
    reveal_strlit("LIKE");
}

/// The remarks of an operator stand before it, in their order.
pub proof fn lemma_operators_orderly(s: Seq<char>, pos: int)
    requires
        0 <= pos <= s.len(),
    ensures
        orderly(s, pos, spec_unary_op(s, pos)),
        orderly(s, pos, spec_power_op(s, pos)),
        orderly(s, pos, spec_multiplication_like_op(s, pos)),
        orderly(s, pos, spec_add_like_op(s, pos)),
        orderly(s, pos, spec_rel_op_extended(s, pos)),
{
    let t = spec_trivia(s, pos);
    lemma_trivia_orderly(s, pos);
    lemma_lex_operators_within(s, t.end);
    lemma_token_orderly(s, pos, lex_unary_op(s, t.end), Production::UnaryOp);
    lemma_token_orderly(s, pos, lex_power_op(s, t.end), Production::PowerOp);
    lemma_token_orderly(
        s,
        pos,
        lex_multiplication_like_op(s, t.end),
        Production::MultiplicationLikeOp,
    );
    lemma_token_orderly(s, pos, lex_add_like_op(s, t.end), Production::AddLikeOp);
    lemma_token_orderly(s, pos, lex_rel_op_extended(s, t.end), Production::RelOpExtended);
}

/// The remarks of a literal stand before it, in their order.
pub proof fn lemma_literals_orderly(s: Seq<char>, pos: int)
    requires
        0 <= pos <= s.len(),
    ensures
        orderly(s, pos, spec_logical_literal(s, pos)),
        orderly(s, pos, spec_integer_literal(s, pos)),
        orderly(s, pos, spec_real_literal(s, pos)),
        orderly(s, pos, spec_string_literal(s, pos)),
        orderly(s, pos, spec_literal(s, pos)),
{
    let t = spec_trivia(s, pos);
    lemma_trivia_orderly(s, pos);
    lemma_lex_logical_within(s, t.end);
    lemma_lex_real_within(s, t.end);
    lemma_lex_string_within(s, t.end);
    lemma_digits_end(s, t.end);
    lemma_token_orderly(s, pos, lex_logical(s, t.end), Production::Literal);
    lemma_token_orderly(s, pos, lex_real(s, t.end), Production::Literal);
    lemma_token_orderly(s, pos, lex_string(s, t.end), Production::Literal);
    if let Ok(p) = spec_integer_literal(s, pos) {
        lemma_order_widen(s, pos, t.end, pos, p.end, t.remarks);
    }
}

/// The remarks of a primary stand before it, in their order.
pub proof fn lemma_primary_orderly(s: Seq<char>, pos: int)
    requires
        0 <= pos <= s.len(),
    ensures
        orderly(s, pos, spec_primary(s, pos)),
{
    let t = spec_trivia(s, pos);
    lemma_trivia_orderly(s, pos);
    lemma_literals_orderly(s, pos);
    lemma_lex_identifier_within(s, t.end);
    lemma_token_orderly(s, pos, lex_identifier(s, t.end), Production::Primary);
}

/// The remarks of a binary application are those of the first operand, of
/// the operator and of the second operand, in this order.
pub proof fn lemma_binary_orderly<B, O>(
    s: Seq<char>,
    pos: int,
    a: Parse<B>,
    op: Parse<O>,
    b: Outcome<B>,
)
    requires
        orderly(s, pos, Ok::<Parse<B>, Failure>(a)),
        orderly(s, a.end, Ok::<Parse<O>, Failure>(op)),
        orderly(s, op.end, b),
    ensures
        orderly(s, pos, binary(a, op, b)),
{
    if let Ok(second) = b {
        lemma_order_concat(s, pos, a.end, op.end, a.remarks, op.remarks);
        lemma_order_concat(s, pos, op.end, second.end, a.remarks + op.remarks, second.remarks);
    }
}

/// The remarks of a simple factor stand in what was read of it, in their
/// order.
pub proof fn lemma_simple_factor_orderly(s: Seq<char>, pos: int)
    requires
        0 <= pos <= s.len(),
    ensures
        orderly(s, pos, spec_simple_factor(s, pos)),
    decreases s.len() - pos, 0int,
{
    lemma_operators_orderly(s, pos);
    let u = spec_unary_op(s, pos);
    let before = match u {
        Ok(p) => p.remarks,
        Err(_) => Seq::empty(),
    };
    let at = match u {
        Ok(p) => p.end,
        Err(_) => pos,
    };
    assert(in_source_order(s, pos, at, before));
    let t = spec_trivia(s, at);
    lemma_trivia_orderly(s, at);
    if let Ok(p) = spec_simple_factor(s, pos) {
        if char_at(s, t.end, '(') && pos <= t.end {
            lemma_expression_orderly(s, t.end + 1);
            let e = spec_expression(s, t.end + 1)->Ok_0;
            let close = spec_trivia(s, e.end);
            lemma_trivia_orderly(s, e.end);
            lemma_order_concat(s, pos, at, t.end, before, t.remarks);
            lemma_order_widen(s, t.end + 1, e.end, t.end, e.end, e.remarks);
            lemma_order_concat(s, pos, t.end, e.end, before + t.remarks, e.remarks);
            lemma_order_concat(
                s,
                pos,
                e.end,
                close.end,
                before + t.remarks + e.remarks,
                close.remarks,
            );
            lemma_order_widen(s, pos, close.end, pos, close.end + 1, p.remarks);
        } else {
            lemma_primary_orderly(s, at);
            let inner = spec_primary(s, at)->Ok_0;
            lemma_order_concat(s, pos, at, inner.end, before, inner.remarks);
        }
    }
}

/// The remarks of a factor stand in what was read of it, in their order.
pub proof fn lemma_factor_orderly(s: Seq<char>, pos: int)
    requires
        0 <= pos <= s.len(),
    ensures
        orderly(s, pos, spec_factor(s, pos)),
    decreases s.len() - pos, 1int,
{
    lemma_simple_factor_orderly(s, pos);
    if let Ok(a) = spec_simple_factor(s, pos) {
        lemma_operators_orderly(s, a.end);
        match spec_power_op(s, a.end) {
            Ok(op) if pos <= op.end <= s.len() => {
                lemma_simple_factor_orderly(s, op.end);
                lemma_binary_orderly(s, pos, a, op, spec_simple_factor(s, op.end));
            },
            _ => {},
        }
    }
}

/// The remarks of a term stand in what was read of it, in their order.
pub proof fn lemma_term_orderly(s: Seq<char>, pos: int)
    requires
        0 <= pos <= s.len(),
    ensures
        orderly(s, pos, spec_term(s, pos)),
    decreases s.len() - pos, 2int,
{
    lemma_factor_orderly(s, pos);
    if let Ok(a) = spec_factor(s, pos) {
        lemma_operators_orderly(s, a.end);
        match spec_multiplication_like_op(s, a.end) {
            Ok(op) if pos <= op.end <= s.len() => {
                lemma_factor_orderly(s, op.end);
                lemma_binary_orderly(s, pos, a, op, spec_factor(s, op.end));
            },
            _ => {},
        }
    }
}

/// The remarks of a simple expression stand in what was read of it, in their
/// order.
pub proof fn lemma_simple_expression_orderly(s: Seq<char>, pos: int)
    requires
        0 <= pos <= s.len(),
    ensures
        orderly(s, pos, spec_simple_expression(s, pos)),
    decreases s.len() - pos, 3int,
{
    lemma_term_orderly(s, pos);
    if let Ok(a) = spec_term(s, pos) {
        lemma_operators_orderly(s, a.end);
        match spec_add_like_op(s, a.end) {
            Ok(op) if pos <= op.end <= s.len() => {
                lemma_term_orderly(s, op.end);
                lemma_binary_orderly(s, pos, a, op, spec_term(s, op.end));
            },
            _ => {},
        }
    }
}

/// The remarks of an expression stand in what was read of it, in their
/// order.
pub proof fn lemma_expression_orderly(s: Seq<char>, pos: int)
    requires
        0 <= pos <= s.len(),
    ensures
        orderly(s, pos, spec_expression(s, pos)),
    decreases s.len() - pos, 4int,
{
    lemma_simple_expression_orderly(s, pos);
    if let Ok(a) = spec_simple_expression(s, pos) {
        lemma_operators_orderly(s, a.end);
        match spec_rel_op_extended(s, a.end) {
            Ok(op) if pos <= op.end <= s.len() => {
                lemma_simple_expression_orderly(s, op.end);
                lemma_binary_orderly(s, pos, a, op, spec_simple_expression(s, op.end));
            },
            _ => {},
        }
    }
}

/// Two parses of one text by one parser return the same: the same value,
/// the same remarks in the same order and the same residual text, or the
/// same error.
pub proof fn lemma_parse_is_repeatable<T: View>(
    input: Seq<char>,
    first: ParseResult<T>,
    second: ParseResult<T>,
    o: Outcome<T::V>,
)
    requires
        delivers(input, first, o),
        delivers(input, second, o),
    ensures
        match (first, second) {
            (Ok((rest1, (value1, remarks1))), Ok((rest2, (value2, remarks2)))) => {
                &&& value1@ == value2@
                &&& views(remarks1@) == views(remarks2@)
                &&& rest1@ == rest2@
            },
            (Err(e1), Err(e2)) => e1 == e2,
            _ => false,
        },
{
}

} // verus!
