//! What a parser returns: a value with its remarks and the position where it
//! stopped, or the reason why it did not match.

use super::remark::{views, Remark, RemarkView};
use vstd::prelude::*;
use vstd::string::StrSliceExecFns;
use vstd::string::StringSliceAdditionalSpecFns;
use vstd::utf8::encode_utf8;

verus! {

/// The productions of the grammar that can fail to match.
#[derive(Debug, Clone, Copy, PartialEq, Eq)]
pub enum Production {
    LogicalLiteral,
    IntegerLiteral,
    RealLiteral,
    StringLiteral,
    Literal,
    Primary,
    UnaryOp,
    PowerOp,
    MultiplicationLikeOp,
    AddLikeOp,
    RelOpExtended,
    SimpleFactor,
}

/// Constructs of the language that the parser recognises and does not build.
#[derive(Debug, Clone, Copy, PartialEq, Eq)]
pub enum Construct {
    BinaryLiteral,
    AggregateInitializer,
    EntityConstructor,
    EnumerationReference,
    Interval,
    QueryExpression,
}

/// Why a parser did not return a value.
#[derive(Debug, Clone, Copy, PartialEq, Eq)]
pub enum ParseError {
    /// The text at `offset` is no instance of `production`.
    SyntaxError { offset: usize, production: Production },
    /// The text at `offset` begins a construct that is not built.
    UnsupportedConstruct { offset: usize, construct: Construct },
}

/// A [`ParseError`] whose offset is a mathematical integer.
pub enum Failure {
    SyntaxError { offset: int, production: Production },
    UnsupportedConstruct { offset: int, construct: Construct },
}

impl Failure {
    /// Where the failure was found.
    pub open spec fn offset(self) -> int {
        match self {
            Failure::SyntaxError { offset, .. } => offset,
            Failure::UnsupportedConstruct { offset, .. } => offset,
        }
    }

    /// The same failure at another offset.
    pub open spec fn at(self, offset: int) -> Failure {
        match self {
            Failure::SyntaxError { production, .. } => Failure::SyntaxError { offset, production },
            Failure::UnsupportedConstruct { construct, .. } => Failure::UnsupportedConstruct {
                offset,
                construct,
            },
        }
    }

    /// An unsupported construct ends the whole parse: no alternative is tried
    /// after it.
    pub open spec fn is_fatal(self) -> bool {
        self is UnsupportedConstruct
    }
}

impl View for ParseError {
    type V = Failure;

    open spec fn view(&self) -> Failure {
        match self {
            ParseError::SyntaxError { offset, production } => Failure::SyntaxError {
                offset: *offset as int,
                production: *production,
            },
            ParseError::UnsupportedConstruct { offset, construct } => Failure::UnsupportedConstruct {
                offset: *offset as int,
                construct: *construct,
            },
        }
    }
}

impl ParseError {
    /// Tells whether the error is an unsupported construct.
    pub fn is_fatal(&self) -> (b: bool)
        ensures
            b == self@.is_fatal(),
    {
        match self {
            ParseError::SyntaxError { .. } => false,
            ParseError::UnsupportedConstruct { .. } => true,
        }
    }

    /// Where the error was found.
    pub fn offset(&self) -> (offset: usize)
        ensures
            offset == self@.offset(),
    {
        match self {
            ParseError::SyntaxError { offset, .. } => *offset,
            ParseError::UnsupportedConstruct { offset, .. } => *offset,
        }
    }
}

/// A successful parse as a mathematical value: what was read, the remarks
/// that were passed, and the position after the last character read.
pub struct Parse<V> {
    pub value: V,
    pub remarks: Seq<RemarkView>,
    pub end: int,
}

/// The result of a grammar function.
pub type Outcome<V> = Result<Parse<V>, Failure>;

/// A successful parse: what was read, the remarks that were passed, and the
/// position after the last character read.
pub struct Parsed<T> {
    pub value: T,
    pub remarks: Vec<Remark>,
    pub end: usize,
}

/// True when an executable parser's result `r` is what the grammar function
/// gave as `o`.
pub open spec fn yields<T: View>(r: Result<Parsed<T>, ParseError>, o: Outcome<T::V>) -> bool {
    match (r, o) {
        (Ok(p), Ok(q)) => p.value@ == q.value && views(p.remarks@) == q.remarks && p.end == q.end,
        (Err(e), Err(f)) => e@ == f,
        _ => false,
    }
}

/// True when a parse that began at `pos` in a text of `len` characters ended
/// after `pos` and within the text, or failed at or after `pos` and within
/// the text.
pub open spec fn bounded<T>(r: Result<Parsed<T>, ParseError>, pos: usize, len: usize) -> bool {
    match r {
        Ok(p) => pos < p.end <= len,
        Err(e) => pos <= e@.offset() <= len,
    }
}

/// What the parsers of a text return: the residual text with the value and
/// the remarks, or the error with its offset in bytes.
pub type ParseResult<'a, T> = Result<(&'a str, (T, Vec<Remark>)), ParseError>;

/// The number of bytes that the first `n` characters of `s` take in UTF-8.
pub open spec fn byte_offset(s: Seq<char>, n: int) -> int {
    encode_utf8(s.subrange(0, n)).len() as int
}

/// True when `r` is what the grammar gave as `o` for the text `input`: the
/// value and the remarks of `o` with the text after its end, or the failure
/// of `o` with its offset counted in bytes.
pub open spec fn delivers<T: View>(input: Seq<char>, r: ParseResult<T>, o: Outcome<T::V>) -> bool {
    match (r, o) {
        (Ok((rest, (value, remarks))), Ok(p)) => {
            &&& value@ == p.value
            &&& views(remarks@) == p.remarks
            &&& 0 <= p.end <= input.len()
            &&& rest@ == input.subrange(p.end, input.len() as int)
        },
        (Err(e), Err(f)) => e@ == f.at(byte_offset(input, f.offset())),
        _ => false,
    }
}

/// Turns the result of a parse of the characters of `input` into the
/// residual text and the value, or into the error with its offset in bytes.
pub fn deliver<'a, T>(input: &'a str, r: Result<Parsed<T>, ParseError>) -> (out: ParseResult<'a, T>)
    requires
        r matches Ok(p) ==> p.end <= input@.len(),
        r matches Err(e) ==> e@.offset() <= input@.len(),
    ensures
        match r {
            Ok(p) => out matches Ok((rest, (value, remarks))) && value == p.value && remarks
                == p.remarks && rest@ == input@.subrange(p.end as int, input@.len() as int),
            Err(e) => out matches Err(e2) && e2@ == e@.at(byte_offset(input@, e@.offset())),
        },
{
    match r {
        Ok(p) => {
            let n = input.unicode_len();
            let rest = input.substring_char(p.end, n);
            Ok((rest, (p.value, p.remarks)))
        },
        Err(e) => {
            let offset = input.substring_char(0, e.offset()).as_bytes().len();
            Err(
                match e {
                    ParseError::SyntaxError { production, .. } => ParseError::SyntaxError {
                        offset,
                        production,
                    },
                    ParseError::UnsupportedConstruct {
                        construct,
                        ..
                    } => ParseError::UnsupportedConstruct { offset, construct },
                },
            )
        },
    }
}

/// A syntax error of `production` at `offset`.
pub open spec fn syntax_error<V>(offset: int, production: Production) -> Outcome<V> {
    Err(Failure::SyntaxError { offset, production })
}

/// An unsupported construct at `offset`.
pub open spec fn unsupported<V>(offset: int, construct: Construct) -> Outcome<V> {
    Err(Failure::UnsupportedConstruct { offset, construct })
}

} // verus!
