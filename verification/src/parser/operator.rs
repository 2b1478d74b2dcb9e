//! The operators of the expression grammar.

use super::basis::{has_keyword, has_prefix, keyword_at, starts_with};
use super::literal::{reads, Lexeme};
use super::outcome::{
    bounded, syntax_error, yields, Outcome, Parse, ParseError, Parsed, Production,
};
use super::remark::{skip_trivia, spec_trivia, Remark, Trivia};
use vstd::prelude::*;

verus! {

/// `unary_op = '+' | '-' | NOT`
#[derive(Debug, Clone, Copy, PartialEq, Eq, Structural)]
pub enum UnaryOp {
    Plus,
    Minus,
    Not,
}

/// `**`
#[derive(Debug, Clone, Copy, PartialEq, Eq, Structural)]
pub enum PowerOp {
    Power,
}

/// `multiplication_like_op = '*' | '/' | DIV | MOD | AND | '||'`
#[derive(Debug, Clone, Copy, PartialEq, Eq, Structural)]
pub enum MultiplicationLikeOp {
    Mul,
    RealDiv,
    IntegerDiv,
    Mod,
    And,
    ComplexEntityInstanceConstruction,
}

/// `add_like_op = '+' | '-' | OR | XOR`
#[derive(Debug, Clone, Copy, PartialEq, Eq, Structural)]
pub enum AddLikeOp {
    Plus,
    Minus,
    Or,
    Xor,
}

/// `rel_op = '<' | '>' | '<=' | '>=' | '<>' | '=' | ':<>:' | ':=:'`
#[derive(Debug, Clone, Copy, PartialEq, Eq, Structural)]
pub enum RelOp {
    Equal,
    NotEqual,
    LessThan,
    GreaterThan,
    LessThanEqual,
    GreaterThanEqual,
    InstanceEqual,
    InstanceNotEqual,
}

/// `rel_op_extended = rel_op | IN | LIKE`
#[derive(Debug, Clone, Copy, PartialEq, Eq, Structural)]
pub enum RelOpExtended {
    RelOp(RelOp),
    In,
    Like,
}

impl View for UnaryOp {
    type V = UnaryOp;

    open spec fn view(&self) -> UnaryOp {
        *self
    }
}

impl View for PowerOp {
    type V = PowerOp;

    open spec fn view(&self) -> PowerOp {
        *self
    }
}

impl View for MultiplicationLikeOp {
    type V = MultiplicationLikeOp;

    open spec fn view(&self) -> MultiplicationLikeOp {
        *self
    }
}

impl View for AddLikeOp {
    type V = AddLikeOp;

    open spec fn view(&self) -> AddLikeOp {
        *self
    }
}

impl View for RelOpExtended {
    type V = RelOpExtended;

    open spec fn view(&self) -> RelOpExtended {
        *self
    }
}

/// A value and the position that lies `len` characters after `pos`.
pub open spec fn lexeme<V>(value: V, pos: int, len: int) -> Option<Lexeme<V>> {
    Some(Lexeme { value, end: pos + len })
}

/// `+`, `-` or the keyword `NOT`.
pub open spec fn lex_unary_op(s: Seq<char>, pos: int) -> Option<Lexeme<UnaryOp>> {
    if starts_with(s, pos, "+"@) {
        lexeme(UnaryOp::Plus, pos, 1)
    } else if starts_with(s, pos, "-"@) {
        lexeme(UnaryOp::Minus, pos, 1)
    } else if keyword_at(s, pos, "NOT"@) {
        lexeme(UnaryOp::Not, pos, 3)
    } else {
        None
    }
}

/// `**`
pub open spec fn lex_power_op(s: Seq<char>, pos: int) -> Option<Lexeme<PowerOp>> {
    if starts_with(s, pos, "**"@) {
        lexeme(PowerOp::Power, pos, 2)
    } else {
        None
    }
}

/// `*`, `/`, one of the keywords `DIV`, `MOD` and `AND`, or `||`.
pub open spec fn lex_multiplication_like_op(s: Seq<char>, pos: int) -> Option<
    Lexeme<MultiplicationLikeOp>,
> {
    if starts_with(s, pos, "*"@) {
        lexeme(MultiplicationLikeOp::Mul, pos, 1)
    } else if starts_with(s, pos, "/"@) {
        lexeme(MultiplicationLikeOp::RealDiv, pos, 1)
    } else if keyword_at(s, pos, "DIV"@) {
        lexeme(MultiplicationLikeOp::IntegerDiv, pos, 3)
    } else if keyword_at(s, pos, "MOD"@) {
        lexeme(MultiplicationLikeOp::Mod, pos, 3)
    } else if keyword_at(s, pos, "AND"@) {
        lexeme(MultiplicationLikeOp::And, pos, 3)
    } else if starts_with(s, pos, "||"@) {
        lexeme(MultiplicationLikeOp::ComplexEntityInstanceConstruction, pos, 2)
    } else {
        None
    }
}

/// `+`, `-`, or one of the keywords `OR` and `XOR`.
pub open spec fn lex_add_like_op(s: Seq<char>, pos: int) -> Option<Lexeme<AddLikeOp>> {
    if starts_with(s, pos, "+"@) {
        lexeme(AddLikeOp::Plus, pos, 1)
    } else if starts_with(s, pos, "-"@) {
        lexeme(AddLikeOp::Minus, pos, 1)
    } else if keyword_at(s, pos, "OR"@) {
        lexeme(AddLikeOp::Or, pos, 2)
    } else if keyword_at(s, pos, "XOR"@) {
        lexeme(AddLikeOp::Xor, pos, 3)
    } else {
        None
    }
}

/// The longer of two operators that begin alike is the one that is read:
/// `<=` and `<>` before `<`, `>=` before `>`.
pub open spec fn lex_rel_op_extended(s: Seq<char>, pos: int) -> Option<Lexeme<RelOpExtended>> {
    if starts_with(s, pos, ":=:"@) {
        lexeme(RelOpExtended::RelOp(RelOp::InstanceEqual), pos, 3)
    } else if starts_with(s, pos, ":<>:"@) {
        lexeme(RelOpExtended::RelOp(RelOp::InstanceNotEqual), pos, 4)
    } else if starts_with(s, pos, "<="@) {
        lexeme(RelOpExtended::RelOp(RelOp::LessThanEqual), pos, 2)
    } else if starts_with(s, pos, "<>"@) {
        lexeme(RelOpExtended::RelOp(RelOp::NotEqual), pos, 2)
    } else if starts_with(s, pos, "<"@) {
        lexeme(RelOpExtended::RelOp(RelOp::LessThan), pos, 1)
    } else if starts_with(s, pos, ">="@) {
        lexeme(RelOpExtended::RelOp(RelOp::GreaterThanEqual), pos, 2)
    } else if starts_with(s, pos, ">"@) {
        lexeme(RelOpExtended::RelOp(RelOp::GreaterThan), pos, 1)
    } else if starts_with(s, pos, "="@) {
        lexeme(RelOpExtended::RelOp(RelOp::Equal), pos, 1)
    } else if keyword_at(s, pos, "IN"@) {
        lexeme(RelOpExtended::In, pos, 2)
    } else if keyword_at(s, pos, "LIKE"@) {
        lexeme(RelOpExtended::Like, pos, 4)
    } else {
        None
    }
}

/// A lexeme after blank space and remarks: the lexeme's value with the
/// remarks that stand before it, or a syntax error of `production` at the
/// place where the lexeme was looked for.
pub open spec fn token<V>(t: Trivia, l: Option<Lexeme<V>>, production: Production) -> Outcome<V> {
    match l {
        Some(l) => Ok(Parse { value: l.value, remarks: t.remarks, end: l.end }),
        None => syntax_error(t.end, production),
    }
}

/// A unary operator, after blank space and remarks.
pub open spec fn spec_unary_op(s: Seq<char>, pos: int) -> Outcome<UnaryOp> {
    let t = spec_trivia(s, pos);
    token(t, lex_unary_op(s, t.end), Production::UnaryOp)
}

/// The power operator, after blank space and remarks.
pub open spec fn spec_power_op(s: Seq<char>, pos: int) -> Outcome<PowerOp> {
    let t = spec_trivia(s, pos);
    token(t, lex_power_op(s, t.end), Production::PowerOp)
}

/// An operator of the tier of multiplication, after blank space and remarks.
pub open spec fn spec_multiplication_like_op(s: Seq<char>, pos: int) -> Outcome<
    MultiplicationLikeOp,
> {
    let t = spec_trivia(s, pos);
    token(t, lex_multiplication_like_op(s, t.end), Production::MultiplicationLikeOp)
}

/// An operator of the tier of addition, after blank space and remarks.
pub open spec fn spec_add_like_op(s: Seq<char>, pos: int) -> Outcome<AddLikeOp> {
    let t = spec_trivia(s, pos);
    token(t, lex_add_like_op(s, t.end), Production::AddLikeOp)
}

/// An operator of the tier of relations, after blank space and remarks.
pub open spec fn spec_rel_op_extended(s: Seq<char>, pos: int) -> Outcome<RelOpExtended> {
    let t = spec_trivia(s, pos);
    token(t, lex_rel_op_extended(s, t.end), Production::RelOpExtended)
}

/// Reads a unary operator at `pos`.
pub fn read_unary_op(text: &[char], pos: usize) -> (r: Option<(UnaryOp, usize)>)
    requires
        pos <= text.len(),
    ensures
        reads(r, lex_unary_op(text@, pos as int)),
        r matches Some((_, end)) ==> pos < end <= text.len(),
{
    proof {
        reveal_strlit("+");
        reveal_strlit("-");
        reveal_strlit("NOT");
    }
    if has_prefix(text, pos, "+") {
        Some((UnaryOp::Plus, pos + 1))
    } else if has_prefix(text, pos, "-") {
        Some((UnaryOp::Minus, pos + 1))
    } else if has_keyword(text, pos, "NOT") {
        Some((UnaryOp::Not, pos + 3))
    } else {
        None
    }
}

/// Reads the power operator at `pos`.
pub fn read_power_op(text: &[char], pos: usize) -> (r: Option<(PowerOp, usize)>)
    requires
        pos <= text.len(),
    ensures
        reads(r, lex_power_op(text@, pos as int)),
        r matches Some((_, end)) ==> pos < end <= text.len(),
{
    proof {
        reveal_strlit("**");
    }
    if has_prefix(text, pos, "**") {
        Some((PowerOp::Power, pos + 2))
    } else {
        None
    }
}

/// Reads an operator of the tier of multiplication at `pos`.
pub fn read_multiplication_like_op(text: &[char], pos: usize) -> (r: Option<
    (MultiplicationLikeOp, usize),
>)
    requires
        pos <= text.len(),
    ensures
        reads(r, lex_multiplication_like_op(text@, pos as int)),
        r matches Some((_, end)) ==> pos < end <= text.len(),
{
    proof {
        reveal_strlit("*");
        reveal_strlit("/");
        reveal_strlit("DIV");
        reveal_strlit("MOD");
        reveal_strlit("AND");
        reveal_strlit("||");
    }
    if has_prefix(text, pos, "*") {
        Some((MultiplicationLikeOp::Mul, pos + 1))
    } else if has_prefix(text, pos, "/") {
        Some((MultiplicationLikeOp::RealDiv, pos + 1))
    } else if has_keyword(text, pos, "DIV") {
        Some((MultiplicationLikeOp::IntegerDiv, pos + 3))
    } else if has_keyword(text, pos, "MOD") {
        Some((MultiplicationLikeOp::Mod, pos + 3))
    } else if has_keyword(text, pos, "AND") {
        Some((MultiplicationLikeOp::And, pos + 3))
    } else if has_prefix(text, pos, "||") {
        Some((MultiplicationLikeOp::ComplexEntityInstanceConstruction, pos + 2))
    } else {
        None
    }
}

/// Reads an operator of the tier of addition at `pos`.
pub fn read_add_like_op(text: &[char], pos: usize) -> (r: Option<(AddLikeOp, usize)>)
    requires
        pos <= text.len(),
    ensures
        reads(r, lex_add_like_op(text@, pos as int)),
        r matches Some((_, end)) ==> pos < end <= text.len(),
{
    proof {
        reveal_strlit("+");
        reveal_strlit("-");
        reveal_strlit("OR");
        reveal_strlit("XOR");
    }
    if has_prefix(text, pos, "+") {
        Some((AddLikeOp::Plus, pos + 1))
    } else if has_prefix(text, pos, "-") {
        Some((AddLikeOp::Minus, pos + 1))
    } else if has_keyword(text, pos, "OR") {
        Some((AddLikeOp::Or, pos + 2))
    } else if has_keyword(text, pos, "XOR") {
        Some((AddLikeOp::Xor, pos + 3))
    } else {
        None
    }
}

/// Reads an operator of the tier of relations at `pos`.
pub fn read_rel_op_extended(text: &[char], pos: usize) -> (r: Option<(RelOpExtended, usize)>)
    requires
        pos <= text.len(),
    ensures
        reads(r, lex_rel_op_extended(text@, pos as int)),
        r matches Some((_, end)) ==> pos < end <= text.len(),
{
    proof {
        reveal_strlit(":=:");
        reveal_strlit(":<>:");
        reveal_strlit("<=");
        reveal_strlit("<>");
        reveal_strlit("<");
        reveal_strlit(">=");
        reveal_strlit(">");
        reveal_strlit("=");
        reveal_strlit("IN");
        reveal_strlit("LIKE");
    }
    if has_prefix(text, pos, ":=:") {
        Some((RelOpExtended::RelOp(RelOp::InstanceEqual), pos + 3))
    } else if has_prefix(text, pos, ":<>:") {
        Some((RelOpExtended::RelOp(RelOp::InstanceNotEqual), pos + 4))
    } else if has_prefix(text, pos, "<=") {
        Some((RelOpExtended::RelOp(RelOp::LessThanEqual), pos + 2))
    } else if has_prefix(text, pos, "<>") {
        Some((RelOpExtended::RelOp(RelOp::NotEqual), pos + 2))
    } else if has_prefix(text, pos, "<") {
        Some((RelOpExtended::RelOp(RelOp::LessThan), pos + 1))
    } else if has_prefix(text, pos, ">=") {
        Some((RelOpExtended::RelOp(RelOp::GreaterThanEqual), pos + 2))
    } else if has_prefix(text, pos, ">") {
        Some((RelOpExtended::RelOp(RelOp::GreaterThan), pos + 1))
    } else if has_prefix(text, pos, "=") {
        Some((RelOpExtended::RelOp(RelOp::Equal), pos + 1))
    } else if has_keyword(text, pos, "IN") {
        Some((RelOpExtended::In, pos + 2))
    } else if has_keyword(text, pos, "LIKE") {
        Some((RelOpExtended::Like, pos + 4))
    } else {
        None
    }
}

/// Makes a token of the remarks passed, the place where they end, and the
/// lexeme read there.
pub fn make_token<T: View>(
    remarks: Vec<Remark>,
    start: usize,
    l: Option<(T, usize)>,
    production: Production,
) -> (r: Result<Parsed<T>, ParseError>)
    ensures
        match l {
            Some((value, end)) => r matches Ok(p) && p.value == value && p.remarks == remarks
                && p.end == end,
            None => r == Err::<Parsed<T>, ParseError>(
                ParseError::SyntaxError { offset: start, production },
            ),
        },
{
    match l {
        Some((value, end)) => Ok(Parsed { value, remarks, end }),
        None => Err(ParseError::SyntaxError { offset: start, production }),
    }
}

/// Parses a unary operator at `pos`.
pub fn unary_op_at(text: &[char], pos: usize) -> (r: Result<Parsed<UnaryOp>, ParseError>)
    requires
        pos <= text.len(),
    ensures
        yields(r, spec_unary_op(text@, pos as int)),
        bounded(r, pos, text.len()),
{
    let (remarks, start) = skip_trivia(text, pos);
    make_token(remarks, start, read_unary_op(text, start), Production::UnaryOp)
}

/// Parses the power operator at `pos`.
pub fn power_op_at(text: &[char], pos: usize) -> (r: Result<Parsed<PowerOp>, ParseError>)
    requires
        pos <= text.len(),
    ensures
        yields(r, spec_power_op(text@, pos as int)),
        bounded(r, pos, text.len()),
{
    let (remarks, start) = skip_trivia(text, pos);
    make_token(remarks, start, read_power_op(text, start), Production::PowerOp)
}

/// Parses an operator of the tier of multiplication at `pos`.
pub fn multiplication_like_op_at(text: &[char], pos: usize) -> (r: Result<
    Parsed<MultiplicationLikeOp>,
    ParseError,
>)
    requires
        pos <= text.len(),
    ensures
        yields(r, spec_multiplication_like_op(text@, pos as int)),
        bounded(r, pos, text.len()),
{
    let (remarks, start) = skip_trivia(text, pos);
    make_token(
        remarks,
        start,
        read_multiplication_like_op(text, start),
        Production::MultiplicationLikeOp,
    )
}

/// Parses an operator of the tier of addition at `pos`.
pub fn add_like_op_at(text: &[char], pos: usize) -> (r: Result<Parsed<AddLikeOp>, ParseError>)
    requires
        pos <= text.len(),
    ensures
        yields(r, spec_add_like_op(text@, pos as int)),
        bounded(r, pos, text.len()),
{
    let (remarks, start) = skip_trivia(text, pos);
    make_token(remarks, start, read_add_like_op(text, start), Production::AddLikeOp)
}

/// Parses an operator of the tier of relations at `pos`.
pub fn rel_op_extended_at(text: &[char], pos: usize) -> (r: Result<
    Parsed<RelOpExtended>,
    ParseError,
>)
    requires
        pos <= text.len(),
    ensures
        yields(r, spec_rel_op_extended(text@, pos as int)),
        bounded(r, pos, text.len()),
{
    let (remarks, start) = skip_trivia(text, pos);
    make_token(remarks, start, read_rel_op_extended(text, start), Production::RelOpExtended)
}

} // verus!
