//! Literals.

use crate::parser::basis::{all_digits, chars_of, digits_to_u64, digits_value, only_digits};
use crate::parser::remark::push_char;
use vstd::prelude::*;
use vstd::string::StrSliceExecFns;
use vstd::string::StringExecFns;

verus! {

/// A value of three-valued logic.
#[derive(Debug, Clone, Copy, PartialEq, Eq, Structural)]
pub enum Logical {
    False,
    Unknown,
    True,
}

impl View for Logical {
    type V = Logical;

    open spec fn view(&self) -> Logical {
        *self
    }
}

/// The exponent of a real literal: its sign and its digits.
#[derive(Debug, PartialEq, Eq)]
pub struct Exponent {
    pub negative: bool,
    pub digits: String,
}

/// What an [`Exponent`] holds, as a mathematical value.
pub struct ExponentView {
    pub negative: bool,
    pub digits: Seq<char>,
}

impl View for Exponent {
    type V = ExponentView;

    open spec fn view(&self) -> ExponentView {
        ExponentView { negative: self.negative, digits: self.digits@ }
    }
}

impl Clone for Exponent {
    fn clone(&self) -> (r: Self)
        ensures
            r == *self,
    {
        Exponent { negative: self.negative, digits: self.digits.clone() }
    }
}

impl Exponent {
    /// The power of ten that the exponent denotes, where its digits are
    /// digits and the power fits in 64 bits.
    pub fn value(&self) -> (r: Option<i64>)
        ensures
            r is Some <==> all_digits(self@.digits) && digits_value(self@.digits) <= i64::MAX,
            r matches Some(v) ==> v == self@.value(),
    {
        let digits = chars_of(self.digits.as_str());
        if !only_digits(digits.as_slice()) {
            return None;
        }
        assert(digits@.subrange(0, digits@.len() as int) == digits@);
        match digits_to_u64(digits.as_slice(), 0, digits.len()) {
            Some(v) => {
                if v > 0x7fff_ffff_ffff_ffff {
                    None
                } else if self.negative {
                    Some(-(v as i64))
                } else {
                    Some(v as i64)
                }
            },
            None => None,
        }
    }
}

impl ExponentView {
    /// The digits are decimal digits, and there is at least one.
    pub open spec fn wf(self) -> bool {
        self.digits.len() > 0 && all_digits(self.digits)
    }

    /// The power of ten that the exponent denotes.
    pub open spec fn value(self) -> int {
        if self.negative {
            -(digits_value(self.digits) as int)
        } else {
            digits_value(self.digits) as int
        }
    }
}

/// A real literal, kept digit for digit: the digits before the point, the
/// digits after it and the exponent. The number is
/// `significand() * 10 ^ scale()`.
#[derive(Debug, PartialEq, Eq)]
pub struct Real {
    pub integral: String,
    pub fraction: String,
    pub exponent: Option<Exponent>,
}

/// What a [`Real`] holds, as a mathematical value.
pub struct RealView {
    pub integral: Seq<char>,
    pub fraction: Seq<char>,
    pub exponent: Option<ExponentView>,
}

impl View for Real {
    type V = RealView;

    open spec fn view(&self) -> RealView {
        RealView {
            integral: self.integral@,
            fraction: self.fraction@,
            exponent: match self.exponent {
                Some(e) => Some(e@),
                None => None,
            },
        }
    }
}

impl Clone for Real {
    fn clone(&self) -> (r: Self)
        ensures
            r == *self,
    {
        Real {
            integral: self.integral.clone(),
            fraction: self.fraction.clone(),
            exponent: match &self.exponent {
                Some(e) => Some(e.clone()),
                None => None,
            },
        }
    }
}

impl RealView {
    /// The parts hold decimal digits only, and there is a digit before the
    /// point.
    pub open spec fn wf(self) -> bool {
        &&& self.integral.len() > 0
        &&& all_digits(self.integral)
        &&& all_digits(self.fraction)
        &&& (self.exponent matches Some(e) ==> e.wf())
    }

    /// The digits of the literal read as one natural number.
    pub open spec fn significand(self) -> nat {
        digits_value(self.integral + self.fraction)
    }

    /// The power of ten by which the significand is scaled.
    pub open spec fn scale(self) -> int {
        (match self.exponent {
            Some(e) => e.value(),
            None => 0,
        }) - self.fraction.len()
    }

    /// True when the literal denotes the natural number `n`, written without
    /// a point or an exponent.
    pub open spec fn is_integer(self, n: nat) -> bool {
        self.significand() == n && self.scale() == 0 && self.fraction.len() == 0
            && self.exponent is None
    }

    /// The literal written out: the digits, a point, the fraction, and the
    /// exponent if there is one.
    pub open spec fn lexeme(self) -> Seq<char> {
        self.integral + seq!['.'] + self.fraction + (match self.exponent {
            Some(e) => seq!['e', if e.negative { '-' } else { '+' }] + e.digits,
            None => Seq::empty(),
        })
    }
}

impl Real {
    /// The digits of the literal read as one natural number, where its parts
    /// hold digits only and the number fits in 64 bits.
    pub fn significand(&self) -> (r: Option<u64>)
        ensures
            r is Some <==> all_digits(self@.integral + self@.fraction) && self@.significand()
                <= u64::MAX,
            r matches Some(v) ==> v == self@.significand(),
    {
        let mut digits = chars_of(self.integral.as_str());
        let mut fraction = chars_of(self.fraction.as_str());
        digits.append(&mut fraction);
        if !only_digits(digits.as_slice()) {
            return None;
        }
        assert(digits@.subrange(0, digits@.len() as int) == digits@);
        digits_to_u64(digits.as_slice(), 0, digits.len())
    }

    /// The power of ten by which the significand is scaled, where the
    /// exponent, if there is one, has a value in 64 bits, and the scale fits
    /// in 64 bits.
    pub fn scale(&self) -> (r: Option<i64>)
        ensures
            r is Some <==> (self@.exponent matches Some(e) ==> all_digits(e.digits)
                && digits_value(e.digits) <= i64::MAX) && i64::MIN <= self@.scale(),
            r matches Some(v) ==> v == self@.scale(),
    {
        let exponent: i64 = match &self.exponent {
            Some(e) => match e.value() {
                Some(v) => v,
                None => {
                    return None;
                },
            },
            None => 0,
        };
        let places = self.fraction.as_str().unicode_len();
        let scale: i128 = exponent as i128 - places as i128;
        if scale < -0x8000_0000_0000_0000 {
            None
        } else {
            Some(scale as i64)
        }
    }

    /// The literal as text that a decimal floating-point reader accepts.
    pub fn lexeme(&self) -> (text: String)
        ensures
            text@ == self@.lexeme(),
    {
        let mut text = String::new();
        text.append(self.integral.as_str());
        push_char(&mut text, '.');
        text.append(self.fraction.as_str());
        match &self.exponent {
            Some(e) => {
                push_char(&mut text, 'e');
                push_char(&mut text, if e.negative { '-' } else { '+' });
                text.append(e.digits.as_str());
                assert(text@ =~= self@.lexeme());
            },
            None => {
                assert(text@ =~= self@.lexeme());
            },
        }
        text
    }
}

/// A literal.
#[derive(Debug, PartialEq, Eq)]
pub enum Literal {
    Logical(Logical),
    Real(Real),
    String(String),
}

/// What a [`Literal`] holds, as a mathematical value.
pub enum LiteralView {
    Logical(Logical),
    Real(RealView),
    String(Seq<char>),
}

impl View for Literal {
    type V = LiteralView;

    open spec fn view(&self) -> LiteralView {
        match self {
            Literal::Logical(v) => LiteralView::Logical(*v),
            Literal::Real(v) => LiteralView::Real(v@),
            Literal::String(v) => LiteralView::String(v@),
        }
    }
}

impl Clone for Literal {
    fn clone(&self) -> (r: Self)
        ensures
            r == *self,
    {
        match self {
            Literal::Logical(v) => Literal::Logical(*v),
            Literal::Real(v) => Literal::Real(v.clone()),
            Literal::String(v) => Literal::String(v.clone()),
        }
    }
}

} // verus!
