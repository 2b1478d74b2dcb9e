//! Expressions: four tiers of binary operators over simple factors.
//!
//! Each tier reads one operand and, where an operator of the tier and a
//! second operand follow, one binary application. A longer chain of operators
//! of one tier is not read: what follows the second operand is left as
//! residual text.

use super::basis::{
    chars_of, has_keyword, is_letter, keyword_at, lemma_word_end, letter, scan_word, word_end,
};
use super::literal::{literal_at, reads, spec_literal, Lexeme};
use super::operator::{
    add_like_op_at, multiplication_like_op_at, power_op_at, rel_op_extended_at, spec_add_like_op,
    spec_multiplication_like_op, spec_power_op, spec_rel_op_extended, spec_unary_op, unary_op_at,
    AddLikeOp, MultiplicationLikeOp, PowerOp, RelOpExtended, UnaryOp,
};
use super::outcome::{
    bounded, deliver, delivers, syntax_error, unsupported, yields, Construct, Outcome, Parse,
    ParseError, ParseResult, Parsed, Production,
};
use super::remark::{skip_trivia, spec_trivia, text_of, views};
use crate::ast::literal::{Literal, LiteralView};
use vstd::prelude::*;

verus! {

/// One operand, or two operands under one operator.
#[derive(Debug, Clone, PartialEq, Eq)]
pub enum Expr<Base, Op> {
    Unary(Base),
    Binary { op: Op, arg1: Base, arg2: Base },
}

/// `factor = simple_factor [ '**' simple_factor ]`
pub type Factor = Expr<SimpleFactor, PowerOp>;

/// `term = factor [ multiplication_like_op factor ]`
pub type Term = Expr<Factor, MultiplicationLikeOp>;

/// `simple_expression = term [ add_like_op term ]`
pub type SimpleExpression = Expr<Term, AddLikeOp>;

/// `expression = simple_expression [ rel_op_extended simple_expression ]`
pub type Expression = Expr<SimpleExpression, RelOpExtended>;

/// `primary = literal | identifier`
#[derive(Debug, PartialEq, Eq)]
pub enum Primary {
    Literal(Literal),
    Identifier(String),
}

/// The operand of a simple factor. An expression in parentheses is boxed.
#[derive(Debug, PartialEq, Eq)]
pub enum PrimaryOrExpression {
    Primary(Primary),
    Expression(Box<Expression>),
}

/// `simple_factor = [ unary_op ] ( primary | '(' expression ')' )`
#[derive(Debug, PartialEq, Eq)]
pub enum SimpleFactor {
    PrimaryOrExpression { unary_op: Option<UnaryOp>, primary_or_expression: PrimaryOrExpression },
}

/// What a [`Primary`] holds, as a mathematical value.
pub enum PrimaryView {
    Literal(LiteralView),
    Identifier(Seq<char>),
}

/// What a [`PrimaryOrExpression`] holds, as a mathematical value.
pub enum PrimaryOrExpressionView {
    Primary(PrimaryView),
    Expression(Box<ExpressionView>),
}

/// What a [`SimpleFactor`] holds, as a mathematical value.
pub enum SimpleFactorView {
    PrimaryOrExpression {
        unary_op: Option<UnaryOp>,
        primary_or_expression: PrimaryOrExpressionView,
    },
}

/// What a [`Factor`] holds, as a mathematical value.
pub type FactorView = Expr<SimpleFactorView, PowerOp>;

/// What a [`Term`] holds, as a mathematical value.
pub type TermView = Expr<FactorView, MultiplicationLikeOp>;

/// What a [`SimpleExpression`] holds, as a mathematical value.
pub type SimpleExpressionView = Expr<TermView, AddLikeOp>;

/// What an [`Expression`] holds, as a mathematical value.
pub type ExpressionView = Expr<SimpleExpressionView, RelOpExtended>;

impl View for Primary {
    type V = PrimaryView;

    open spec fn view(&self) -> PrimaryView {
        match self {
            Primary::Literal(l) => PrimaryView::Literal(l@),
            Primary::Identifier(name) => PrimaryView::Identifier(name@),
        }
    }
}

/// What an operand holds, as a mathematical value.
pub open spec fn view_operand(o: PrimaryOrExpression) -> PrimaryOrExpressionView
    decreases o,
{
    match o {
        PrimaryOrExpression::Primary(p) => PrimaryOrExpressionView::Primary(p@),
        PrimaryOrExpression::Expression(e) => PrimaryOrExpressionView::Expression(
            Box::new(view_expression(*e)),
        ),
    }
}

/// What a simple factor holds, as a mathematical value.
pub open spec fn view_simple_factor(f: SimpleFactor) -> SimpleFactorView
    decreases f,
{
    match f {
        SimpleFactor::PrimaryOrExpression {
            unary_op,
            primary_or_expression,
        } => SimpleFactorView::PrimaryOrExpression {
            unary_op,
            primary_or_expression: view_operand(primary_or_expression),
        },
    }
}

/// What a factor holds, as a mathematical value.
pub open spec fn view_factor(e: Factor) -> FactorView
    decreases e,
{
    match e {
        Expr::Unary(a) => Expr::Unary(view_simple_factor(a)),
        Expr::Binary { op, arg1, arg2 } => Expr::Binary {
            op,
            arg1: view_simple_factor(arg1),
            arg2: view_simple_factor(arg2),
        },
    }
}

/// What a term holds, as a mathematical value.
pub open spec fn view_term(e: Term) -> TermView
    decreases e,
{
    match e {
        Expr::Unary(a) => Expr::Unary(view_factor(a)),
        Expr::Binary { op, arg1, arg2 } => Expr::Binary {
            op,
            arg1: view_factor(arg1),
            arg2: view_factor(arg2),
        },
    }
}

/// What a simple expression holds, as a mathematical value.
pub open spec fn view_simple_expression(e: SimpleExpression) -> SimpleExpressionView
    decreases e,
{
    match e {
        Expr::Unary(a) => Expr::Unary(view_term(a)),
        Expr::Binary { op, arg1, arg2 } => Expr::Binary {
            op,
            arg1: view_term(arg1),
            arg2: view_term(arg2),
        },
    }
}

/// What an expression holds, as a mathematical value.
pub open spec fn view_expression(e: Expression) -> ExpressionView
    decreases e,
{
    match e {
        Expr::Unary(a) => Expr::Unary(view_simple_expression(a)),
        Expr::Binary { op, arg1, arg2 } => Expr::Binary {
            op,
            arg1: view_simple_expression(arg1),
            arg2: view_simple_expression(arg2),
        },
    }
}

impl View for PrimaryOrExpression {
    type V = PrimaryOrExpressionView;

    open spec fn view(&self) -> PrimaryOrExpressionView {
        view_operand(*self)
    }
}

impl View for SimpleFactor {
    type V = SimpleFactorView;

    open spec fn view(&self) -> SimpleFactorView {
        view_simple_factor(*self)
    }
}

impl View for Expr<SimpleFactor, PowerOp> {
    type V = FactorView;

    open spec fn view(&self) -> FactorView {
        view_factor(*self)
    }
}

impl View for Expr<Factor, MultiplicationLikeOp> {
    type V = TermView;

    open spec fn view(&self) -> TermView {
        view_term(*self)
    }
}

impl View for Expr<Term, AddLikeOp> {
    type V = SimpleExpressionView;

    open spec fn view(&self) -> SimpleExpressionView {
        view_simple_expression(*self)
    }
}

impl View for Expr<SimpleExpression, RelOpExtended> {
    type V = ExpressionView;

    open spec fn view(&self) -> ExpressionView {
        view_expression(*self)
    }
}

impl Clone for Primary {
    fn clone(&self) -> (r: Self)
        ensures
            r == *self,
    {
        match self {
            Primary::Literal(l) => Primary::Literal(l.clone()),
            Primary::Identifier(name) => Primary::Identifier(name.clone()),
        }
    }
}

/// A copy of an operand.
pub fn clone_operand(o: &PrimaryOrExpression) -> (r: PrimaryOrExpression)
    ensures
        r == *o,
    decreases *o,
{
    match o {
        PrimaryOrExpression::Primary(p) => PrimaryOrExpression::Primary(p.clone()),
        PrimaryOrExpression::Expression(e) => PrimaryOrExpression::Expression(
            Box::new(clone_expression(&**e)),
        ),
    }
}

/// A copy of a simple factor.
pub fn clone_simple_factor(f: &SimpleFactor) -> (r: SimpleFactor)
    ensures
        r == *f,
    decreases *f,
{
    match f {
        SimpleFactor::PrimaryOrExpression {
            unary_op,
            primary_or_expression,
        } => SimpleFactor::PrimaryOrExpression {
            unary_op: *unary_op,
            primary_or_expression: clone_operand(primary_or_expression),
        },
    }
}

/// A copy of a factor.
pub fn clone_factor(e: &Factor) -> (r: Factor)
    ensures
        r == *e,
    decreases *e,
{
    match e {
        Expr::Unary(a) => Expr::Unary(clone_simple_factor(a)),
        Expr::Binary { op, arg1, arg2 } => Expr::Binary {
            op: *op,
            arg1: clone_simple_factor(arg1),
            arg2: clone_simple_factor(arg2),
        },
    }
}

/// A copy of a term.
pub fn clone_term(e: &Term) -> (r: Term)
    ensures
        r == *e,
    decreases *e,
{
    match e {
        Expr::Unary(a) => Expr::Unary(clone_factor(a)),
        Expr::Binary { op, arg1, arg2 } => Expr::Binary {
            op: *op,
            arg1: clone_factor(arg1),
            arg2: clone_factor(arg2),
        },
    }
}

/// A copy of a simple expression.
pub fn clone_simple_expression(e: &SimpleExpression) -> (r: SimpleExpression)
    ensures
        r == *e,
    decreases *e,
{
    match e {
        Expr::Unary(a) => Expr::Unary(clone_term(a)),
        Expr::Binary { op, arg1, arg2 } => Expr::Binary {
            op: *op,
            arg1: clone_term(arg1),
            arg2: clone_term(arg2),
        },
    }
}

/// A copy of an expression.
pub fn clone_expression(e: &Expression) -> (r: Expression)
    ensures
        r == *e,
    decreases *e,
{
    match e {
        Expr::Unary(a) => Expr::Unary(clone_simple_expression(a)),
        Expr::Binary { op, arg1, arg2 } => Expr::Binary {
            op: *op,
            arg1: clone_simple_expression(arg1),
            arg2: clone_simple_expression(arg2),
        },
    }
}

impl Clone for PrimaryOrExpression {
    fn clone(&self) -> (r: Self)
        ensures
            r == *self,
    {
        clone_operand(self)
    }
}

impl Clone for SimpleFactor {
    fn clone(&self) -> (r: Self)
        ensures
            r == *self,
    {
        clone_simple_factor(self)
    }
}

impl<Base, Op> From<Base> for Expr<Base, Op> {
    fn from(base: Base) -> (r: Self) {
        Expr::Unary(base)
    }
}

impl<Base, Op> vstd::std_specs::convert::FromSpecImpl<Base> for Expr<Base, Op> {
    open spec fn obeys_from_spec() -> bool {
        true
    }

    open spec fn from_spec(base: Base) -> Self {
        Expr::Unary(base)
    }
}

impl From<Literal> for Primary {
    fn from(literal: Literal) -> (r: Self) {
        Primary::Literal(literal)
    }
}

impl vstd::std_specs::convert::FromSpecImpl<Literal> for Primary {
    open spec fn obeys_from_spec() -> bool {
        true
    }

    open spec fn from_spec(literal: Literal) -> Self {
        Primary::Literal(literal)
    }
}

impl From<Primary> for SimpleFactor {
    fn from(primary: Primary) -> (r: Self) {
        SimpleFactor::PrimaryOrExpression {
            unary_op: None,
            primary_or_expression: PrimaryOrExpression::Primary(primary),
        }
    }
}

impl vstd::std_specs::convert::FromSpecImpl<Primary> for SimpleFactor {
    open spec fn obeys_from_spec() -> bool {
        true
    }

    open spec fn from_spec(primary: Primary) -> Self {
        SimpleFactor::PrimaryOrExpression {
            unary_op: None,
            primary_or_expression: PrimaryOrExpression::Primary(primary),
        }
    }
}

impl From<Expression> for SimpleFactor {
    fn from(expression: Expression) -> (r: Self) {
        SimpleFactor::PrimaryOrExpression {
            unary_op: None,
            primary_or_expression: PrimaryOrExpression::Expression(Box::new(expression)),
        }
    }
}

impl vstd::std_specs::convert::FromSpecImpl<Expression> for SimpleFactor {
    open spec fn obeys_from_spec() -> bool {
        true
    }

    open spec fn from_spec(expression: Expression) -> Self {
        SimpleFactor::PrimaryOrExpression {
            unary_op: None,
            primary_or_expression: PrimaryOrExpression::Expression(Box::new(expression)),
        }
    }
}

/// True when the character `c` stands at `pos`.
pub open spec fn char_at(s: Seq<char>, pos: int, c: char) -> bool {
    0 <= pos < s.len() && s[pos] == c
}

/// True when a word of the grammar stands at `pos`: such a word is no
/// identifier.
pub open spec fn reserved_at(s: Seq<char>, pos: int) -> bool {
    ||| keyword_at(s, pos, "TRUE"@)
    ||| keyword_at(s, pos, "FALSE"@)
    ||| keyword_at(s, pos, "UNKNOWN"@)
    ||| keyword_at(s, pos, "NOT"@)
    ||| keyword_at(s, pos, "AND"@)
    ||| keyword_at(s, pos, "OR"@)
    ||| keyword_at(s, pos, "XOR"@)
    ||| keyword_at(s, pos, "DIV"@)
    ||| keyword_at(s, pos, "MOD"@)
    ||| keyword_at(s, pos, "IN"@)
    ||| keyword_at(s, pos, "LIKE"@)
    ||| keyword_at(s, pos, "QUERY"@)
}

/// An identifier: a letter, then letters, digits and underscores, the whole
/// being no word of the grammar.
pub open spec fn lex_identifier(s: Seq<char>, pos: int) -> Option<Lexeme<Seq<char>>> {
    if 0 <= pos < s.len() && is_letter(s[pos]) && !reserved_at(s, pos) {
        Some(Lexeme { value: s.subrange(pos, word_end(s, pos)), end: word_end(s, pos) })
    } else {
        None
    }
}

/// The construct that begins at `pos`, where it is one that is recognised
/// and not built: an aggregate initializer by its `[`, an interval by its
/// `{`, a query expression by its keyword, an entity constructor by an
/// identifier before `(`, an enumeration reference by an identifier before
/// `.`.
pub open spec fn lex_unsupported(s: Seq<char>, pos: int) -> Option<Construct> {
    if char_at(s, pos, '[') {
        Some(Construct::AggregateInitializer)
    } else if char_at(s, pos, '{') {
        Some(Construct::Interval)
    } else if keyword_at(s, pos, "QUERY"@) {
        Some(Construct::QueryExpression)
    } else if let Some(id) = lex_identifier(s, pos) {
        if char_at(s, spec_trivia(s, id.end).end, '(') {
            Some(Construct::EntityConstructor)
        } else if char_at(s, id.end, '.') {
            Some(Construct::EnumerationReference)
        } else {
            None
        }
    } else {
        None
    }
}

/// `primary = literal | identifier`, after blank space and remarks.
pub open spec fn spec_primary(s: Seq<char>, pos: int) -> Outcome<PrimaryView> {
    match spec_literal(s, pos) {
        Ok(l) => Ok(Parse { value: PrimaryView::Literal(l.value), remarks: l.remarks, end: l.end }),
        Err(f) => if f.is_fatal() {
            Err(f)
        } else {
            let t = spec_trivia(s, pos);
            match lex_identifier(s, t.end) {
                Some(id) => Ok(
                    Parse { value: PrimaryView::Identifier(id.value), remarks: t.remarks, end: id.end },
                ),
                None => syntax_error(t.end, Production::Primary),
            }
        },
    }
}

/// The parse of a single operand as an expression of the tier above it.
pub open spec fn unary<B, O>(a: Parse<B>) -> Outcome<Expr<B, O>> {
    Ok(Parse { value: Expr::Unary(a.value), remarks: a.remarks, end: a.end })
}

/// The parse of `a`, the operator `op` and what the second operand gave. A
/// second operand that is no instance of the grammar leaves `a` alone, with
/// the operator unread; one that is an unsupported construct fails the whole.
pub open spec fn binary<B, O>(a: Parse<B>, op: Parse<O>, b: Outcome<B>) -> Outcome<Expr<B, O>> {
    match b {
        Ok(b) => Ok(
            Parse {
                value: Expr::Binary { op: op.value, arg1: a.value, arg2: b.value },
                remarks: a.remarks + op.remarks + b.remarks,
                end: b.end,
            },
        ),
        Err(f) => if f.is_fatal() {
            Err(f)
        } else {
            unary(a)
        },
    }
}

/// `simple_factor = [ unary_op ] ( primary | '(' expression ')' )`, with
/// blank space and remarks before each token. An unsupported construct in
/// the place of the operand is reported as such.
///
/// The parenthesis is never found before `pos`: that it is not is written
/// out only to make the definition well-founded.
pub open spec fn spec_simple_factor(s: Seq<char>, pos: int) -> Outcome<SimpleFactorView>
    decreases s.len() - pos, 0int,
{
    let u = spec_unary_op(s, pos);
    let unary_op = match u {
        Ok(p) => Some(p.value),
        Err(_) => None,
    };
    let before = match u {
        Ok(p) => p.remarks,
        Err(_) => Seq::empty(),
    };
    let at = match u {
        Ok(p) => p.end,
        Err(_) => pos,
    };
    let t = spec_trivia(s, at);
    if let Some(construct) = lex_unsupported(s, t.end) {
        unsupported(t.end, construct)
    } else if char_at(s, t.end, '(') && pos <= t.end {
        match spec_expression(s, t.end + 1) {
            Ok(e) => {
                let close = spec_trivia(s, e.end);
                if char_at(s, close.end, ')') {
                    Ok(
                        Parse {
                            value: SimpleFactorView::PrimaryOrExpression {
                                unary_op,
                                primary_or_expression: PrimaryOrExpressionView::Expression(
                                    Box::new(e.value),
                                ),
                            },
                            remarks: before + t.remarks + e.remarks + close.remarks,
                            end: close.end + 1,
                        },
                    )
                } else {
                    syntax_error(close.end, Production::SimpleFactor)
                }
            },
            Err(f) => Err(f),
        }
    } else {
        match spec_primary(s, at) {
            Ok(p) => Ok(
                Parse {
                    value: SimpleFactorView::PrimaryOrExpression {
                        unary_op,
                        primary_or_expression: PrimaryOrExpressionView::Primary(p.value),
                    },
                    remarks: before + p.remarks,
                    end: p.end,
                },
            ),
            Err(f) => Err(f),
        }
    }
}

/// `factor = simple_factor [ '**' simple_factor ]`
///
/// In this tier and in those above it, an operator never ends before `pos`
/// nor after the text: that it does not is written out only to make the
/// definitions well-founded.
pub open spec fn spec_factor(s: Seq<char>, pos: int) -> Outcome<FactorView>
    decreases s.len() - pos, 1int,
{
    match spec_simple_factor(s, pos) {
        Ok(a) => match spec_power_op(s, a.end) {
            Ok(op) if pos <= op.end <= s.len() => binary(a, op, spec_simple_factor(s, op.end)),
            _ => unary(a),
        },
        Err(f) => Err(f),
    }
}

/// `term = factor [ multiplication_like_op factor ]`
pub open spec fn spec_term(s: Seq<char>, pos: int) -> Outcome<TermView>
    decreases s.len() - pos, 2int,
{
    match spec_factor(s, pos) {
        Ok(a) => match spec_multiplication_like_op(s, a.end) {
            Ok(op) if pos <= op.end <= s.len() => binary(a, op, spec_factor(s, op.end)),
            _ => unary(a),
        },
        Err(f) => Err(f),
    }
}

/// `simple_expression = term [ add_like_op term ]`
pub open spec fn spec_simple_expression(s: Seq<char>, pos: int) -> Outcome<SimpleExpressionView>
    decreases s.len() - pos, 3int,
{
    match spec_term(s, pos) {
        Ok(a) => match spec_add_like_op(s, a.end) {
            Ok(op) if pos <= op.end <= s.len() => binary(a, op, spec_term(s, op.end)),
            _ => unary(a),
        },
        Err(f) => Err(f),
    }
}

/// `expression = simple_expression [ rel_op_extended simple_expression ]`
pub open spec fn spec_expression(s: Seq<char>, pos: int) -> Outcome<ExpressionView>
    decreases s.len() - pos, 4int,
{
    match spec_simple_expression(s, pos) {
        Ok(a) => match spec_rel_op_extended(s, a.end) {
            Ok(op) if pos <= op.end <= s.len() => binary(
                a,
                op,
                spec_simple_expression(s, op.end),
            ),
            _ => unary(a),
        },
        Err(f) => Err(f),
    }
}

/// Tells whether a word of the grammar stands at `pos`.
pub fn reserved(text: &[char], pos: usize) -> (b: bool)
    requires
        pos <= text.len(),
    ensures
        b == reserved_at(text@, pos as int),
{
    has_keyword(text, pos, "TRUE") || has_keyword(text, pos, "FALSE") || has_keyword(
        text,
        pos,
        "UNKNOWN",
    ) || has_keyword(text, pos, "NOT") || has_keyword(text, pos, "AND") || has_keyword(
        text,
        pos,
        "OR",
    ) || has_keyword(text, pos, "XOR") || has_keyword(text, pos, "DIV") || has_keyword(
        text,
        pos,
        "MOD",
    ) || has_keyword(text, pos, "IN") || has_keyword(text, pos, "LIKE") || has_keyword(
        text,
        pos,
        "QUERY",
    )
}

/// Reads an identifier at `pos`.
pub fn read_identifier(text: &[char], pos: usize) -> (r: Option<(String, usize)>)
    requires
        pos <= text.len(),
    ensures
        reads(r, lex_identifier(text@, pos as int)),
        r matches Some((_, end)) ==> pos < end <= text.len(),
{
    if pos < text.len() && letter(text[pos]) && !reserved(text, pos) {
        let end = scan_word(text, pos);
        proof {
            lemma_word_end(text@, pos + 1);
        }
        Some((text_of(text, pos, end), end))
    } else {
        None
    }
}

/// Tells which unsupported construct begins at `pos`, if any.
pub fn read_unsupported(text: &[char], pos: usize) -> (r: Option<Construct>)
    requires
        pos <= text.len(),
    ensures
        r == lex_unsupported(text@, pos as int),
{
    if pos < text.len() && text[pos] == '[' {
        Some(Construct::AggregateInitializer)
    } else if pos < text.len() && text[pos] == '{' {
        Some(Construct::Interval)
    } else if has_keyword(text, pos, "QUERY") {
        Some(Construct::QueryExpression)
    } else if let Some((_, end)) = read_identifier(text, pos) {
        let (_, next) = skip_trivia(text, end);
        if next < text.len() && text[next] == '(' {
            Some(Construct::EntityConstructor)
        } else if end < text.len() && text[end] == '.' {
            Some(Construct::EnumerationReference)
        } else {
            None
        }
    } else {
        None
    }
}

/// Parses a primary at `pos`.
pub fn primary_at(text: &[char], pos: usize) -> (r: Result<Parsed<Primary>, ParseError>)
    requires
        pos <= text.len(),
    ensures
        yields(r, spec_primary(text@, pos as int)),
        bounded(r, pos, text.len()),
{
    match literal_at(text, pos) {
        Ok(l) => Ok(Parsed { value: Primary::Literal(l.value), remarks: l.remarks, end: l.end }),
        Err(e) => {
            if e.is_fatal() {
                return Err(e);
            }
            let (remarks, start) = skip_trivia(text, pos);
            match read_identifier(text, start) {
                Some((name, end)) => Ok(Parsed { value: Primary::Identifier(name), remarks, end }),
                None => Err(
                    ParseError::SyntaxError { offset: start, production: Production::Primary },
                ),
            }
        },
    }
}

/// Builds the expression of one tier from its first operand and, where they
/// were read, the operator and the second operand. The remarks of the parts
/// follow one another in the order of the parts.
pub fn expr<Base, Op>(a: Parsed<Base>, rest: Option<(Parsed<Op>, Parsed<Base>)>) -> (r: Parsed<
    Expr<Base, Op>,
>)
    ensures
        match rest {
            Some((op, b)) => {
                &&& r.value == (Expr::Binary { op: op.value, arg1: a.value, arg2: b.value })
                &&& r.remarks@ == a.remarks@ + op.remarks@ + b.remarks@
                &&& views(r.remarks@) == views(a.remarks@) + views(op.remarks@) + views(
                    b.remarks@,
                )
                &&& r.end == b.end
            },
            None => r.value == Expr::<Base, Op>::Unary(a.value) && r.remarks == a.remarks && r.end
                == a.end,
        },
{
    match rest {
        Some((op, b)) => {
            let Parsed { value: arg1, remarks: mut remarks, end: _ } = a;
            let Parsed { value: op, remarks: mut op_remarks, end: _ } = op;
            let Parsed { value: arg2, remarks: mut b_remarks, end } = b;
            let ghost first = remarks@;
            let ghost second = op_remarks@;
            let ghost third = b_remarks@;
            remarks.append(&mut op_remarks);
            remarks.append(&mut b_remarks);
            assert(views(first + second + third) =~= views(first) + views(second) + views(third));
            Parsed { value: Expr::Binary { op, arg1, arg2 }, remarks, end }
        },
        None => Parsed { value: Expr::Unary(a.value), remarks: a.remarks, end: a.end },
    }
}

/// Parses a simple factor at `pos`.
pub fn simple_factor_at(text: &[char], pos: usize) -> (r: Result<Parsed<SimpleFactor>, ParseError>)
    requires
        pos <= text.len(),
    ensures
        yields(r, spec_simple_factor(text@, pos as int)),
        bounded(r, pos, text.len()),
    decreases text.len() - pos, 0int,
{
    let (unary_op, mut remarks, at) = match unary_op_at(text, pos) {
        Ok(p) => (Some(p.value), p.remarks, p.end),
        Err(_) => (None, Vec::new(), pos),
    };
    let ghost before = views(remarks@);
    let (mut passed, start) = skip_trivia(text, at);
    if let Some(construct) = read_unsupported(text, start) {
        return Err(ParseError::UnsupportedConstruct { offset: start, construct });
    }
    if start < text.len() && text[start] == '(' {
        match expression_at(text, start + 1) {
            Ok(e) => {
                let Parsed { value, remarks: mut inner, end } = e;
                let (mut closing, close) = skip_trivia(text, end);
                if close < text.len() && text[close] == ')' {
                    let ghost a = remarks@;
                    let ghost b = passed@;
                    let ghost c = inner@;
                    let ghost d = closing@;
                    remarks.append(&mut passed);
                    remarks.append(&mut inner);
                    remarks.append(&mut closing);
                    assert(views(a + b + c + d) =~= views(a) + views(b) + views(c) + views(d));
                    Ok(
                        Parsed {
                            value: SimpleFactor::PrimaryOrExpression {
                                unary_op,
                                primary_or_expression: PrimaryOrExpression::Expression(
                                    Box::new(value),
                                ),
                            },
                            remarks,
                            end: close + 1,
                        },
                    )
                } else {
                    Err(
                        ParseError::SyntaxError {
                            offset: close,
                            production: Production::SimpleFactor,
                        },
                    )
                }
            },
            Err(e) => Err(e),
        }
    } else {
        match primary_at(text, at) {
            Ok(p) => {
                let Parsed { value, remarks: mut inner, end } = p;
                let ghost a = remarks@;
                let ghost b = inner@;
                remarks.append(&mut inner);
                assert(views(a + b) =~= views(a) + views(b));
                Ok(
                    Parsed {
                        value: SimpleFactor::PrimaryOrExpression {
                            unary_op,
                            primary_or_expression: PrimaryOrExpression::Primary(value),
                        },
                        remarks,
                        end,
                    },
                )
            },
            Err(e) => Err(e),
        }
    }
}

/// Parses a factor at `pos`.
pub fn factor_at(text: &[char], pos: usize) -> (r: Result<Parsed<Factor>, ParseError>)
    requires
        pos <= text.len(),
    ensures
        yields(r, spec_factor(text@, pos as int)),
        bounded(r, pos, text.len()),
    decreases text.len() - pos, 1int,
{
    match simple_factor_at(text, pos) {
        Ok(a) => match power_op_at(text, a.end) {
            Ok(op) => match simple_factor_at(text, op.end) {
                Ok(b) => Ok(expr(a, Some((op, b)))),
                Err(e) => if e.is_fatal() {
                    Err(e)
                } else {
                    Ok(expr(a, None))
                },
            },
            Err(_) => Ok(expr(a, None)),
        },
        Err(e) => Err(e),
    }
}

/// Parses a term at `pos`.
pub fn term_at(text: &[char], pos: usize) -> (r: Result<Parsed<Term>, ParseError>)
    requires
        pos <= text.len(),
    ensures
        yields(r, spec_term(text@, pos as int)),
        bounded(r, pos, text.len()),
    decreases text.len() - pos, 2int,
{
    match factor_at(text, pos) {
        Ok(a) => match multiplication_like_op_at(text, a.end) {
            Ok(op) => match factor_at(text, op.end) {
                Ok(b) => Ok(expr(a, Some((op, b)))),
                Err(e) => if e.is_fatal() {
                    Err(e)
                } else {
                    Ok(expr(a, None))
                },
            },
            Err(_) => Ok(expr(a, None)),
        },
        Err(e) => Err(e),
    }
}

/// Parses a simple expression at `pos`.
pub fn simple_expression_at(text: &[char], pos: usize) -> (r: Result<
    Parsed<SimpleExpression>,
    ParseError,
>)
    requires
        pos <= text.len(),
    ensures
        yields(r, spec_simple_expression(text@, pos as int)),
        bounded(r, pos, text.len()),
    decreases text.len() - pos, 3int,
{
    match term_at(text, pos) {
        Ok(a) => match add_like_op_at(text, a.end) {
            Ok(op) => match term_at(text, op.end) {
                Ok(b) => Ok(expr(a, Some((op, b)))),
                Err(e) => if e.is_fatal() {
                    Err(e)
                } else {
                    Ok(expr(a, None))
                },
            },
            Err(_) => Ok(expr(a, None)),
        },
        Err(e) => Err(e),
    }
}

/// Parses an expression at `pos`.
pub fn expression_at(text: &[char], pos: usize) -> (r: Result<Parsed<Expression>, ParseError>)
    requires
        pos <= text.len(),
    ensures
        yields(r, spec_expression(text@, pos as int)),
        bounded(r, pos, text.len()),
    decreases text.len() - pos, 4int,
{
    match simple_expression_at(text, pos) {
        Ok(a) => match rel_op_extended_at(text, a.end) {
            Ok(op) => match simple_expression_at(text, op.end) {
                Ok(b) => Ok(expr(a, Some((op, b)))),
                Err(e) => if e.is_fatal() {
                    Err(e)
                } else {
                    Ok(expr(a, None))
                },
            },
            Err(_) => Ok(expr(a, None)),
        },
        Err(e) => Err(e),
    }
}

/// Parses a primary at the beginning of `input`.
pub fn primary(input: &str) -> (r: ParseResult<'_, Primary>)
    ensures
        delivers(input@, r, spec_primary(input@, 0)),
{
    let text = chars_of(input);
    deliver(input, primary_at(text.as_slice(), 0))
}

/// Parses a simple factor at the beginning of `input`.
pub fn simple_factor(input: &str) -> (r: ParseResult<'_, SimpleFactor>)
    ensures
        delivers(input@, r, spec_simple_factor(input@, 0)),
{
    let text = chars_of(input);
    deliver(input, simple_factor_at(text.as_slice(), 0))
}

/// Parses a factor at the beginning of `input`.
pub fn factor(input: &str) -> (r: ParseResult<'_, Factor>)
    ensures
        delivers(input@, r, spec_factor(input@, 0)),
{
    let text = chars_of(input);
    deliver(input, factor_at(text.as_slice(), 0))
}

/// Parses a term at the beginning of `input`.
pub fn term(input: &str) -> (r: ParseResult<'_, Term>)
    ensures
        delivers(input@, r, spec_term(input@, 0)),
{
    let text = chars_of(input);
    deliver(input, term_at(text.as_slice(), 0))
}

/// Parses a simple expression at the beginning of `input`.
pub fn simple_expression(input: &str) -> (r: ParseResult<'_, SimpleExpression>)
    ensures
        delivers(input@, r, spec_simple_expression(input@, 0)),
{
    let text = chars_of(input);
    deliver(input, simple_expression_at(text.as_slice(), 0))
}

/// Parses an expression at the beginning of `input`.
pub fn expression(input: &str) -> (r: ParseResult<'_, Expression>)
    ensures
        delivers(input@, r, spec_expression(input@, 0)),
{
    let text = chars_of(input);
    deliver(input, expression_at(text.as_slice(), 0))
}

} // verus!
