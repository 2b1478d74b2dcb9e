//! Literals: logical, integer, real and string.
//!
//! Every literal may be preceded by blank space and remarks; the remarks are
//! returned with the value.

use super::basis::{
    all_digits, chars_of, digits_end, digits_to_u64, digits_value, has_keyword, is_digit,
    is_space, is_word_char, keyword_at, lemma_digits_end, scan_digits, starts_with,
};
use super::outcome::{
    bounded, deliver, delivers, syntax_error, unsupported, yields, Construct, Outcome, Parse,
    ParseError, ParseResult, Parsed, Production,
};
use super::remark::{lemma_trivia, push_char, skip_trivia, spec_trivia, text_of};
use crate::ast::literal::{Exponent, ExponentView, Literal, LiteralView, Logical, Real, RealView};
use vstd::prelude::*;

verus! {

/// A lexeme: the value read at a position and the position after it.
pub struct Lexeme<V> {
    pub value: V,
    pub end: int,
}

/// One of the keywords `TRUE`, `FALSE` and `UNKNOWN`, as a whole word.
pub open spec fn lex_logical(s: Seq<char>, pos: int) -> Option<Lexeme<Logical>> {
    if keyword_at(s, pos, "TRUE"@) {
        Some(Lexeme { value: Logical::True, end: pos + 4 })
    } else if keyword_at(s, pos, "FALSE"@) {
        Some(Lexeme { value: Logical::False, end: pos + 5 })
    } else if keyword_at(s, pos, "UNKNOWN"@) {
        Some(Lexeme { value: Logical::Unknown, end: pos + 7 })
    } else {
        None
    }
}

/// An exponent: `e` or `E`, an optional sign, and at least one digit.
pub open spec fn lex_exponent(s: Seq<char>, pos: int) -> Option<Lexeme<ExponentView>> {
    if 0 <= pos < s.len() && (s[pos] == 'e' || s[pos] == 'E') {
        let signed = pos + 1 < s.len() && (s[pos + 1] == '+' || s[pos + 1] == '-');
        let first = if signed {
            pos + 2
        } else {
            pos + 1
        };
        let end = digits_end(s, first);
        if first < end {
            Some(
                Lexeme {
                    value: ExponentView {
                        negative: signed && s[pos + 1] == '-',
                        digits: s.subrange(first, end),
                    },
                    end,
                },
            )
        } else {
            None
        }
    } else {
        None
    }
}

/// A real literal: at least one digit, then optionally a point with any
/// number of digits, then optionally an exponent. An `e` that no complete
/// exponent follows is left unread.
pub open spec fn lex_real(s: Seq<char>, pos: int) -> Option<Lexeme<RealView>> {
    let point = digits_end(s, pos);
    if 0 <= pos < point {
        let has_point = point < s.len() && s[point] == '.';
        let mantissa_end = if has_point {
            digits_end(s, point + 1)
        } else {
            point
        };
        let fraction = if has_point {
            s.subrange(point + 1, mantissa_end)
        } else {
            Seq::empty()
        };
        let integral = s.subrange(pos, point);
        match lex_exponent(s, mantissa_end) {
            Some(e) => Some(
                Lexeme {
                    value: RealView { integral, fraction, exponent: Some(e.value) },
                    end: e.end,
                },
            ),
            None => Some(
                Lexeme { value: RealView { integral, fraction, exponent: None }, end: mantissa_end },
            ),
        }
    } else {
        None
    }
}

/// `text` with `c` in front of it, where there is a text.
pub open spec fn preceded(c: char, rest: Option<Lexeme<Seq<char>>>) -> Option<Lexeme<Seq<char>>> {
    match rest {
        Some(l) => Some(Lexeme { value: seq![c] + l.value, end: l.end }),
        None => None,
    }
}

/// The text of a simple string literal from `pos` on, up to the quote that
/// closes it. Two quotes in a row stand for one quote of the text.
pub open spec fn simple_string_body(s: Seq<char>, pos: int) -> Option<Lexeme<Seq<char>>>
    decreases s.len() - pos,
{
    if pos < 0 || pos >= s.len() {
        None
    } else if s[pos] == '\'' {
        if pos + 1 < s.len() && s[pos + 1] == '\'' {
            preceded('\'', simple_string_body(s, pos + 2))
        } else {
            Some(Lexeme { value: Seq::empty(), end: pos + 1 })
        }
    } else {
        preceded(s[pos], simple_string_body(s, pos + 1))
    }
}

/// The sixteen hexadecimal digits, in either case.
pub open spec fn is_hex_digit(c: char) -> bool {
    ('0' <= c <= '9') || ('a' <= c <= 'f') || ('A' <= c <= 'F')
}

/// The value of a hexadecimal digit.
pub open spec fn hex_digit_value(c: char) -> nat {
    if '0' <= c <= '9' {
        (c as nat - '0' as nat) as nat
    } else if 'a' <= c <= 'f' {
        (c as nat - 'a' as nat + 10) as nat
    } else {
        (c as nat - 'A' as nat + 10) as nat
    }
}

/// The number that the `n` hexadecimal digits at `pos` denote.
pub open spec fn hex_value(s: Seq<char>, pos: int, n: nat) -> nat
    decreases n,
{
    if n == 0 {
        0
    } else {
        hex_value(s, pos, (n - 1) as nat) * 16 + hex_digit_value(s[pos + n - 1])
    }
}

/// True when the `n` characters at `pos` are hexadecimal digits.
pub open spec fn hex_digits_at(s: Seq<char>, pos: int, n: nat) -> bool {
    &&& 0 <= pos
    &&& pos + n <= s.len()
    &&& forall|i: int| pos <= i < pos + n ==> is_hex_digit(#[trigger] s[i])
}

/// The code points that are characters: all up to `10FFFF` but the
/// surrogates.
pub open spec fn is_scalar_value(v: nat) -> bool {
    v < 0xD800 || (0xE000 <= v <= 0x10FFFF)
}

/// The text of an encoded string literal from `pos` on, up to the double
/// quote that closes it: each group of eight hexadecimal digits is the code
/// point of one character.
pub open spec fn encoded_string_body(s: Seq<char>, pos: int) -> Option<Lexeme<Seq<char>>>
    decreases s.len() - pos,
{
    if pos < 0 || pos >= s.len() {
        None
    } else if s[pos] == '"' {
        Some(Lexeme { value: Seq::empty(), end: pos + 1 })
    } else if hex_digits_at(s, pos, 8) && is_scalar_value(hex_value(s, pos, 8)) {
        preceded(hex_value(s, pos, 8) as u32 as char, encoded_string_body(s, pos + 8))
    } else {
        None
    }
}

/// A string literal: the simple form between quotes, or the encoded form
/// between double quotes, which holds at least one character.
pub open spec fn lex_string(s: Seq<char>, pos: int) -> Option<Lexeme<Seq<char>>> {
    if 0 <= pos < s.len() && s[pos] == '\'' {
        simple_string_body(s, pos + 1)
    } else if 0 <= pos < s.len() && s[pos] == '"' {
        match encoded_string_body(s, pos + 1) {
            Some(l) if l.value.len() > 0 => Some(l),
            _ => None,
        }
    } else {
        None
    }
}

/// `logical_literal = TRUE | FALSE | UNKNOWN`, after blank space and
/// remarks.
pub open spec fn spec_logical_literal(s: Seq<char>, pos: int) -> Outcome<Logical> {
    let t = spec_trivia(s, pos);
    match lex_logical(s, t.end) {
        Some(l) => Ok(Parse { value: l.value, remarks: t.remarks, end: l.end }),
        None => syntax_error(t.end, Production::LogicalLiteral),
    }
}

/// `integer_literal = digits`, after blank space and remarks. A number that
/// does not fit in 64 bits is no integer literal.
pub open spec fn spec_integer_literal(s: Seq<char>, pos: int) -> Outcome<u64> {
    let t = spec_trivia(s, pos);
    let end = digits_end(s, t.end);
    if 0 <= t.end < end && digits_value(s.subrange(t.end, end)) <= u64::MAX {
        Ok(
            Parse {
                value: digits_value(s.subrange(t.end, end)) as u64,
                remarks: t.remarks,
                end,
            },
        )
    } else {
        syntax_error(t.end, Production::IntegerLiteral)
    }
}

/// `real_literal = digits [ '.' [ digits ] ] [ e [ sign ] digits ]`, after
/// blank space and remarks.
pub open spec fn spec_real_literal(s: Seq<char>, pos: int) -> Outcome<RealView> {
    let t = spec_trivia(s, pos);
    match lex_real(s, t.end) {
        Some(l) => Ok(Parse { value: l.value, remarks: t.remarks, end: l.end }),
        None => syntax_error(t.end, Production::RealLiteral),
    }
}

/// `string_literal = simple_string_literal | encoded_string_literal`, after
/// blank space and remarks.
pub open spec fn spec_string_literal(s: Seq<char>, pos: int) -> Outcome<Seq<char>> {
    let t = spec_trivia(s, pos);
    match lex_string(s, t.end) {
        Some(l) => Ok(Parse { value: l.value, remarks: t.remarks, end: l.end }),
        None => syntax_error(t.end, Production::StringLiteral),
    }
}

/// True when a binary literal begins at `pos`.
pub open spec fn opens_binary_literal(s: Seq<char>, pos: int) -> bool {
    0 <= pos < s.len() && s[pos] == '%'
}

/// `literal = binary_literal | logical_literal | real_literal |
/// string_literal`, after blank space and remarks. A binary literal is
/// recognised by its `%` and reported as unsupported.
pub open spec fn spec_literal(s: Seq<char>, pos: int) -> Outcome<LiteralView> {
    let t = spec_trivia(s, pos);
    if opens_binary_literal(s, t.end) {
        unsupported(t.end, Construct::BinaryLiteral)
    } else if let Some(l) = lex_logical(s, t.end) {
        Ok(Parse { value: LiteralView::Logical(l.value), remarks: t.remarks, end: l.end })
    } else if let Some(l) = lex_real(s, t.end) {
        Ok(Parse { value: LiteralView::Real(l.value), remarks: t.remarks, end: l.end })
    } else if let Some(l) = lex_string(s, t.end) {
        Ok(Parse { value: LiteralView::String(l.value), remarks: t.remarks, end: l.end })
    } else {
        syntax_error(t.end, Production::Literal)
    }
}

/// Where every character from `pos` on is a digit, the run of digits that
/// starts at `pos` ends with the text.
pub proof fn lemma_digits_to_the_end(s: Seq<char>, pos: int)
    requires
        0 <= pos <= s.len(),
        all_digits(s),
    ensures
        digits_end(s, pos) == s.len(),
    decreases s.len() - pos,
{
    if pos < s.len() {
        lemma_digits_to_the_end(s, pos + 1);
    }
}

/// A text of digits only is read whole as a real literal, which then denotes
/// the number that the digits denote, with no fraction and no exponent. As an
/// integer literal it is read whole, with that number for its value, exactly
/// when the number fits in 64 bits.
pub proof fn lemma_real_literal_of_digits(s: Seq<char>)
    requires
        s.len() > 0,
        all_digits(s),
    ensures
        spec_real_literal(s, 0) matches Ok(r) && r.end == s.len() && r.remarks.len() == 0
            && r.value.wf() && r.value.is_integer(digits_value(s)),
        digits_value(s) <= u64::MAX ==> (spec_integer_literal(s, 0) matches Ok(i) && i.end
            == s.len() && i.remarks.len() == 0 && i.value == digits_value(s)),
        digits_value(s) > u64::MAX ==> spec_integer_literal(s, 0) is Err,
{
    lemma_digits_to_the_end(s, 0);
    assert(is_digit(s[0]));
    assert(spec_trivia(s, 0).end == 0);
    assert(spec_trivia(s, 0).remarks.len() == 0);
    assert(s.subrange(0, s.len() as int) == s);
    assert(s + Seq::<char>::empty() == s);
    assert(lex_exponent(s, s.len() as int) is None);
}

/// What is read as a logical literal is one of the three keywords with the
/// value that belongs to it, and no letter, digit or underscore follows it.
pub proof fn lemma_logical_literal_is_keyword(s: Seq<char>, pos: int)
    requires
        0 <= pos <= s.len(),
    ensures
        spec_logical_literal(s, pos) matches Ok(p) ==> {
            let word = s.subrange(spec_trivia(s, pos).end, p.end);
            &&& pos <= spec_trivia(s, pos).end < p.end <= s.len()
            &&& (word == "TRUE"@ && p.value == Logical::True) || (word == "FALSE"@ && p.value
                == Logical::False) || (word == "UNKNOWN"@ && p.value == Logical::Unknown)
            &&& p.end < s.len() ==> !is_word_char(s[p.end])
        },
{
    reveal_strlit("TRUE");
    reveal_strlit("FALSE");
    reveal_strlit("UNKNOWN");
    lemma_trivia(s, pos);
}

/// A text is read whole as a logical literal, with nothing before the
/// keyword, exactly when it is one of the three keywords.
pub proof fn lemma_logical_literal_exact(s: Seq<char>)
    ensures
        (spec_logical_literal(s, 0) matches Ok(p) && p.end == s.len() && spec_trivia(s, 0).end
            == 0) <==> (s == "TRUE"@ || s == "FALSE"@ || s == "UNKNOWN"@),
        s == "TRUE"@ ==> (spec_logical_literal(s, 0) matches Ok(p) && p.value == Logical::True),
        s == "FALSE"@ ==> (spec_logical_literal(s, 0) matches Ok(p) && p.value == Logical::False),
        s == "UNKNOWN"@ ==> (spec_logical_literal(s, 0) matches Ok(p) && p.value
            == Logical::Unknown),
{
    reveal_strlit("TRUE");
    reveal_strlit("FALSE");
    reveal_strlit("UNKNOWN");
    lemma_logical_literal_is_keyword(s, 0);
    if s == "TRUE"@ || s == "FALSE"@ || s == "UNKNOWN"@ {
        assert(s.subrange(0, s.len() as int) == s);
        assert(!is_space(s[0]));
        assert(spec_trivia(s, 0).end == 0);
    }
    if spec_logical_literal(s, 0) matches Ok(p) && p.end == s.len() && spec_trivia(s, 0).end == 0 {
        assert(s.subrange(0, s.len() as int) == s);
    }
}

/// A keyword that a letter, a digit or an underscore follows is not read as
/// a logical literal, whatever comes after.
pub proof fn lemma_logical_literal_rejects_longer_word(keyword: Seq<char>, rest: Seq<char>)
    requires
        keyword == "TRUE"@ || keyword == "FALSE"@ || keyword == "UNKNOWN"@,
        rest.len() > 0,
        is_word_char(rest[0]),
    ensures
        spec_logical_literal(keyword + rest, 0) == syntax_error::<Logical>(
            0,
            Production::LogicalLiteral,
        ),
{
    reveal_strlit("TRUE");
    reveal_strlit("FALSE");
    reveal_strlit("UNKNOWN");
    let s = keyword + rest;
    assert(s[0] == keyword[0]);
    assert(!is_space(s[0]));
    assert(spec_trivia(s, 0).end == 0);
    assert(s[keyword.len() as int] == rest[0]);
    assert(s[1] == keyword[1]);
    assert(starts_with(s, 0, "TRUE"@) ==> s.subrange(0, 4)[1] == 'R');
    assert(starts_with(s, 0, "FALSE"@) ==> s.subrange(0, 5)[1] == 'A');
    assert(starts_with(s, 0, "UNKNOWN"@) ==> s.subrange(0, 7)[1] == 'N');
}

/// True when the executable lexeme `r` is what the grammar gave as `l`.
pub open spec fn reads<T: View>(r: Option<(T, usize)>, l: Option<Lexeme<T::V>>) -> bool {
    match (r, l) {
        (Some((value, end)), Some(l)) => value@ == l.value && end == l.end,
        (None, None) => true,
        _ => false,
    }
}

/// Reads a logical keyword at `pos`.
pub fn read_logical(text: &[char], pos: usize) -> (r: Option<(Logical, usize)>)
    requires
        pos <= text.len(),
    ensures
        reads(r, lex_logical(text@, pos as int)),
        r matches Some((_, end)) ==> pos < end <= text.len(),
{
    proof {
        reveal_strlit("TRUE");
        reveal_strlit("FALSE");
        reveal_strlit("UNKNOWN");
    }
    if has_keyword(text, pos, "TRUE") {
        Some((Logical::True, pos + 4))
    } else if has_keyword(text, pos, "FALSE") {
        Some((Logical::False, pos + 5))
    } else if has_keyword(text, pos, "UNKNOWN") {
        Some((Logical::Unknown, pos + 7))
    } else {
        None
    }
}

/// Reads an exponent at `pos`.
pub fn read_exponent(text: &[char], pos: usize) -> (r: Option<(Exponent, usize)>)
    requires
        pos <= text.len(),
    ensures
        reads(r, lex_exponent(text@, pos as int)),
        r matches Some((e, end)) ==> pos < end <= text.len() && e@.wf(),
{
    if pos < text.len() && (text[pos] == 'e' || text[pos] == 'E') {
        let signed = pos + 1 < text.len() && (text[pos + 1] == '+' || text[pos + 1] == '-');
        let first = if signed {
            pos + 2
        } else {
            pos + 1
        };
        let end = scan_digits(text, first);
        if first < end {
            proof {
                lemma_digits_end(text@, first as int);
            }
            let negative = signed && text[pos + 1] == '-';
            Some((Exponent { negative, digits: text_of(text, first, end) }, end))
        } else {
            None
        }
    } else {
        None
    }
}

/// Reads a real literal at `pos`.
pub fn read_real(text: &[char], pos: usize) -> (r: Option<(Real, usize)>)
    requires
        pos <= text.len(),
    ensures
        reads(r, lex_real(text@, pos as int)),
        r matches Some((x, end)) ==> pos < end <= text.len() && x@.wf(),
{
    let point = scan_digits(text, pos);
    if pos < point {
        proof {
            lemma_digits_end(text@, pos as int);
        }
        let integral = text_of(text, pos, point);
        let has_point = point < text.len() && text[point] == '.';
        let mantissa_end = if has_point {
            scan_digits(text, point + 1)
        } else {
            point
        };
        let fraction = if has_point {
            proof {
                lemma_digits_end(text@, point + 1);
            }
            text_of(text, point + 1, mantissa_end)
        } else {
            String::new()
        };
        match read_exponent(text, mantissa_end) {
            Some((e, end)) => Some((Real { integral, fraction, exponent: Some(e) }, end)),
            None => Some((Real { integral, fraction, exponent: None }, mantissa_end)),
        }
    } else {
        None
    }
}

/// `front` followed by the text of `rest`, where there is one.
pub open spec fn continued(front: Seq<char>, rest: Option<Lexeme<Seq<char>>>) -> Option<
    Lexeme<Seq<char>>,
> {
    match rest {
        Some(l) => Some(Lexeme { value: front + l.value, end: l.end }),
        None => None,
    }
}

/// Reads the text of a simple string literal from `pos` on.
pub fn read_simple_string_body(text: &[char], pos: usize) -> (r: Option<(String, usize)>)
    requires
        pos <= text.len(),
    ensures
        reads(r, simple_string_body(text@, pos as int)),
        r matches Some((_, end)) ==> pos < end <= text.len(),
{
    let mut value = String::new();
    let mut i: usize = pos;
    loop
        invariant
            pos <= i <= text.len(),
            simple_string_body(text@, pos as int) == continued(
                value@,
                simple_string_body(text@, i as int),
            ),
        decreases text.len() - i,
    {
        if i >= text.len() {
            return None;
        }
        let c = text[i];
        let ghost before = value@;
        if c == '\'' {
            if i + 1 < text.len() && text[i + 1] == '\'' {
                push_char(&mut value, '\'');
                proof {
                    let rest = simple_string_body(text@, i + 2);
                    if let Some(l) = rest {
                        assert(before + (seq!['\''] + l.value) =~= before.push('\'') + l.value);
                    }
                }
                i += 2;
            } else {
                assert(value@ + Seq::<char>::empty() =~= value@);
                return Some((value, i + 1));
            }
        } else {
            push_char(&mut value, c);
            proof {
                let rest = simple_string_body(text@, i + 1);
                if let Some(l) = rest {
                    assert(before + (seq![c] + l.value) =~= before.push(c) + l.value);
                }
            }
            i += 1;
        }
    }
}

/// `char::from_u32`: the character with code point `v`, which there is for
/// every code point up to `10FFFF` but the surrogates.
#[verifier::external_body]
pub(crate) fn char_from_u32(v: u32) -> (r: Option<char>)
    ensures
        r is Some <==> is_scalar_value(v as nat),
        r matches Some(c) ==> c as u32 == v,
{
    char::from_u32(v)
}

/// The value of the hexadecimal digit `c`, if it is one.
pub fn hex_digit(c: char) -> (r: Option<u32>)
    ensures
        r is Some <==> is_hex_digit(c),
        r matches Some(v) ==> v == hex_digit_value(c) && v < 16,
{
    if '0' <= c && c <= '9' {
        Some(c as u32 - '0' as u32)
    } else if 'a' <= c && c <= 'f' {
        Some(c as u32 - 'a' as u32 + 10)
    } else if 'A' <= c && c <= 'F' {
        Some(c as u32 - 'A' as u32 + 10)
    } else {
        None
    }
}

/// Reads eight hexadecimal digits at `pos`.
pub fn read_code_point(text: &[char], pos: usize) -> (r: Option<u32>)
    requires
        pos <= text.len(),
    ensures
        r is Some <==> hex_digits_at(text@, pos as int, 8),
        r matches Some(v) ==> v == hex_value(text@, pos as int, 8),
{
    if text.len() - pos < 8 {
        return None;
    }
    let mut v: u64 = 0;
    let mut n: usize = 0;
    while n < 8
        invariant
            0 <= n <= 8,
            pos + 8 <= text.len(),
            hex_digits_at(text@, pos as int, n as nat),
            v == hex_value(text@, pos as int, n as nat),
            v < pow16(n as nat),
        decreases 8 - n,
    {
        match hex_digit(text[pos + n]) {
            Some(d) => {
                proof {
                    lemma_pow16(n as nat);
                }
                v = v * 16 + d as u64;
                n += 1;
            },
            None => {
                return None;
            },
        }
    }
    proof {
        lemma_pow16_8();
    }
    Some(v as u32)
}

/// Sixteen to the power of `n`.
pub open spec fn pow16(n: nat) -> nat
    decreases n,
{
    if n == 0 {
        1
    } else {
        16 * pow16((n - 1) as nat)
    }
}

proof fn lemma_pow16(n: nat)
    ensures
        pow16(n + 1) == 16 * pow16(n),
        n <= 8 ==> pow16(n) <= 0x1_0000_0000,
    decreases n,
{
    reveal_with_fuel(pow16, 10);
}

proof fn lemma_pow16_8()
    ensures
        pow16(8) == 0x1_0000_0000,
{
    reveal_with_fuel(pow16, 10);
}

/// Reads the text of an encoded string literal from `pos` on.
pub fn read_encoded_string_body(text: &[char], pos: usize) -> (r: Option<(String, usize)>)
    requires
        pos <= text.len(),
    ensures
        reads(r, encoded_string_body(text@, pos as int)),
        r matches Some((_, end)) ==> pos < end <= text.len(),
{
    let mut value = String::new();
    let mut i: usize = pos;
    loop
        invariant
            pos <= i <= text.len(),
            encoded_string_body(text@, pos as int) == continued(
                value@,
                encoded_string_body(text@, i as int),
            ),
        decreases text.len() - i,
    {
        if i >= text.len() {
            return None;
        }
        if text[i] == '"' {
            assert(value@ + Seq::<char>::empty() =~= value@);
            return Some((value, i + 1));
        }
        let c = match read_code_point(text, i) {
            Some(v) => match char_from_u32(v) {
                Some(c) => c,
                None => {
                    return None;
                },
            },
            None => {
                return None;
            },
        };
        let ghost before = value@;
        push_char(&mut value, c);
        proof {
            vstd::utf8::char_u32_cast(c, hex_value(text@, i as int, 8) as u32);
            let rest = encoded_string_body(text@, i + 8);
            if let Some(l) = rest {
                assert(before + (seq![c] + l.value) =~= before.push(c) + l.value);
            }
        }
        i += 8;
    }
}

/// Reads a string literal at `pos`.
pub fn read_string(text: &[char], pos: usize) -> (r: Option<(String, usize)>)
    requires
        pos <= text.len(),
    ensures
        reads(r, lex_string(text@, pos as int)),
        r matches Some((_, end)) ==> pos < end <= text.len(),
{
    if pos < text.len() && text[pos] == '\'' {
        read_simple_string_body(text, pos + 1)
    } else if pos < text.len() && text[pos] == '"' {
        match read_encoded_string_body(text, pos + 1) {
            Some((value, end)) => {
                if value.as_str().unicode_len() > 0 {
                    Some((value, end))
                } else {
                    None
                }
            },
            None => None,
        }
    } else {
        None
    }
}

/// Parses a logical literal at `pos`.
pub fn logical_literal_at(text: &[char], pos: usize) -> (r: Result<Parsed<Logical>, ParseError>)
    requires
        pos <= text.len(),
    ensures
        yields(r, spec_logical_literal(text@, pos as int)),
        bounded(r, pos, text.len()),
{
    let (remarks, start) = skip_trivia(text, pos);
    match read_logical(text, start) {
        Some((value, end)) => Ok(Parsed { value, remarks, end }),
        None => Err(
            ParseError::SyntaxError { offset: start, production: Production::LogicalLiteral },
        ),
    }
}

/// Parses an integer literal at `pos`.
pub fn integer_literal_at(text: &[char], pos: usize) -> (r: Result<Parsed<u64>, ParseError>)
    requires
        pos <= text.len(),
    ensures
        yields(r, spec_integer_literal(text@, pos as int)),
        bounded(r, pos, text.len()),
{
    let (remarks, start) = skip_trivia(text, pos);
    let end = scan_digits(text, start);
    if start < end {
        proof {
            lemma_digits_end(text@, start as int);
        }
        match digits_to_u64(text, start, end) {
            Some(value) => {
                return Ok(Parsed { value, remarks, end });
            },
            None => {},
        }
    }
    Err(ParseError::SyntaxError { offset: start, production: Production::IntegerLiteral })
}

/// Parses a real literal at `pos`.
pub fn real_literal_at(text: &[char], pos: usize) -> (r: Result<Parsed<Real>, ParseError>)
    requires
        pos <= text.len(),
    ensures
        yields(r, spec_real_literal(text@, pos as int)),
        bounded(r, pos, text.len()),
        r matches Ok(p) ==> p.value@.wf(),
{
    let (remarks, start) = skip_trivia(text, pos);
    match read_real(text, start) {
        Some((value, end)) => Ok(Parsed { value, remarks, end }),
        None => Err(ParseError::SyntaxError { offset: start, production: Production::RealLiteral }),
    }
}

/// Parses a string literal at `pos`.
pub fn string_literal_at(text: &[char], pos: usize) -> (r: Result<Parsed<String>, ParseError>)
    requires
        pos <= text.len(),
    ensures
        yields(r, spec_string_literal(text@, pos as int)),
        bounded(r, pos, text.len()),
{
    let (remarks, start) = skip_trivia(text, pos);
    match read_string(text, start) {
        Some((value, end)) => Ok(Parsed { value, remarks, end }),
        None => Err(
            ParseError::SyntaxError { offset: start, production: Production::StringLiteral },
        ),
    }
}

/// Parses a literal at `pos`.
pub fn literal_at(text: &[char], pos: usize) -> (r: Result<Parsed<Literal>, ParseError>)
    requires
        pos <= text.len(),
    ensures
        yields(r, spec_literal(text@, pos as int)),
        bounded(r, pos, text.len()),
{
    let (remarks, start) = skip_trivia(text, pos);
    if start < text.len() && text[start] == '%' {
        return Err(
            ParseError::UnsupportedConstruct { offset: start, construct: Construct::BinaryLiteral },
        );
    }
    if let Some((value, end)) = read_logical(text, start) {
        return Ok(Parsed { value: Literal::Logical(value), remarks, end });
    }
    if let Some((value, end)) = read_real(text, start) {
        return Ok(Parsed { value: Literal::Real(value), remarks, end });
    }
    if let Some((value, end)) = read_string(text, start) {
        return Ok(Parsed { value: Literal::String(value), remarks, end });
    }
    Err(ParseError::SyntaxError { offset: start, production: Production::Literal })
}

/// Parses a literal at the beginning of `input`. A number written with
/// digits only is read as a real literal.
pub fn literal(input: &str) -> (r: ParseResult<'_, Literal>)
    ensures
        delivers(input@, r, spec_literal(input@, 0)),
{
    let text = chars_of(input);
    deliver(input, literal_at(text.as_slice(), 0))
}

/// Parses a logical literal at the beginning of `input`.
pub fn logical_literal(input: &str) -> (r: ParseResult<'_, Logical>)
    ensures
        delivers(input@, r, spec_logical_literal(input@, 0)),
{
    let text = chars_of(input);
    deliver(input, logical_literal_at(text.as_slice(), 0))
}

/// Parses an integer literal at the beginning of `input`. A sign is no part
/// of it.
pub fn integer_literal(input: &str) -> (r: ParseResult<'_, u64>)
    ensures
        delivers(input@, r, spec_integer_literal(input@, 0)),
{
    let text = chars_of(input);
    deliver(input, integer_literal_at(text.as_slice(), 0))
}

/// Parses a real literal at the beginning of `input`.
pub fn real_literal(input: &str) -> (r: ParseResult<'_, Real>)
    ensures
        delivers(input@, r, spec_real_literal(input@, 0)),
        r matches Ok((_, (value, _))) ==> value@.wf(),
{
    let text = chars_of(input);
    deliver(input, real_literal_at(text.as_slice(), 0))
}

/// Parses a string literal at the beginning of `input`.
pub fn string_literal(input: &str) -> (r: ParseResult<'_, String>)
    ensures
        delivers(input@, r, spec_string_literal(input@, 0)),
{
    let text = chars_of(input);
    deliver(input, string_literal_at(text.as_slice(), 0))
}

} // verus!
