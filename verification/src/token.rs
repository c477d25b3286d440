//! The tokens of the expression language, and how tightly each one binds.

use std::cmp::Ordering;
use vstd::prelude::*;

verus! {

/// Whether `c` is one of the ten decimal digits.
pub open spec fn is_digit(c: char) -> bool {
    '0' <= c <= '9'
}

/// How many decimal points `s` holds.
pub open spec fn count_points(s: Seq<char>) -> nat
    decreases s.len(),
{
    if s.len() == 0 {
        0
    } else {
        count_points(s.drop_last()) + if s.last() == '.' {
            1nat
        } else {
            0nat
        }
    }
}

/// Whether `s` is the text of a numeric literal: it opens with a digit, holds
/// digits and decimal points only, and of the latter at most one.
pub open spec fn is_numeral(s: Seq<char>) -> bool {
    &&& s.len() > 0
    &&& is_digit(s[0])
    &&& forall|k: int| 0 <= k < s.len() ==> is_digit(#[trigger] s[k]) || s[k] == '.'
    &&& count_points(s) <= 1
}

/// One lexical unit of an expression.
///
/// Every token but a numeric literal is a bare tag. A literal carries its text
/// exactly as written (digits with at most one decimal point); turning that
/// text into a binary floating-point number is left to whoever evaluates the
/// expression.
#[derive(Debug, PartialEq, Clone)]
pub enum Token {
    Add,
    Subtract,
    Multiply,
    Divide,
    Caret,
    ExclamationMark,
    Modulo,
    LeftParen,
    RightParen,
    LeftFloor,
    RightFloor,
    LeftCeiling,
    RightCeiling,
    Pow2,
    Pow3,
    Pow,
    Sqrt,
    E,
    Pi,
    Abs,
    Floor,
    Ceil,
    Round,
    Sin,
    Cos,
    Tan,
    Sinh,
    Cosh,
    Tanh,
    Asin,
    Acos,
    Atan,
    Atan2,
    Arcosh,
    Arsinh,
    Artanh,
    Ln,
    Log,
    Exp,
    Exp2,
    Sign,
    Truncate,
    Comma,
    Min,
    Max,
    Bar,
    DegToRad,
    RadToDeg,
    Num(String),
    Ans,
    Eof,
}

/// The mathematical value of a [`Token`]: the same tags, with the text of a
/// numeric literal as a sequence of characters.
pub enum TokenView {
    Add,
    Subtract,
    Multiply,
    Divide,
    Caret,
    ExclamationMark,
    Modulo,
    LeftParen,
    RightParen,
    LeftFloor,
    RightFloor,
    LeftCeiling,
    RightCeiling,
    Pow2,
    Pow3,
    Pow,
    Sqrt,
    E,
    Pi,
    Abs,
    Floor,
    Ceil,
    Round,
    Sin,
    Cos,
    Tan,
    Sinh,
    Cosh,
    Tanh,
    Asin,
    Acos,
    Atan,
    Atan2,
    Arcosh,
    Arsinh,
    Artanh,
    Ln,
    Log,
    Exp,
    Exp2,
    Sign,
    Truncate,
    Comma,
    Min,
    Max,
    Bar,
    DegToRad,
    RadToDeg,
    Num(Seq<char>),
    Ans,
    Eof,
}

impl View for Token {
    type V = TokenView;

    open spec fn view(&self) -> TokenView {
        match self {
            Token::Add => TokenView::Add,
            Token::Subtract => TokenView::Subtract,
            Token::Multiply => TokenView::Multiply,
            Token::Divide => TokenView::Divide,
            Token::Caret => TokenView::Caret,
            Token::ExclamationMark => TokenView::ExclamationMark,
            Token::Modulo => TokenView::Modulo,
            Token::LeftParen => TokenView::LeftParen,
            Token::RightParen => TokenView::RightParen,
            Token::LeftFloor => TokenView::LeftFloor,
            Token::RightFloor => TokenView::RightFloor,
            Token::LeftCeiling => TokenView::LeftCeiling,
            Token::RightCeiling => TokenView::RightCeiling,
            Token::Pow2 => TokenView::Pow2,
            Token::Pow3 => TokenView::Pow3,
            Token::Pow => TokenView::Pow,
            Token::Sqrt => TokenView::Sqrt,
            Token::E => TokenView::E,
            Token::Pi => TokenView::Pi,
            Token::Abs => TokenView::Abs,
            Token::Floor => TokenView::Floor,
            Token::Ceil => TokenView::Ceil,
            Token::Round => TokenView::Round,
            Token::Sin => TokenView::Sin,
            Token::Cos => TokenView::Cos,
            Token::Tan => TokenView::Tan,
            Token::Sinh => TokenView::Sinh,
            Token::Cosh => TokenView::Cosh,
            Token::Tanh => TokenView::Tanh,
            Token::Asin => TokenView::Asin,
            Token::Acos => TokenView::Acos,
            Token::Atan => TokenView::Atan,
            Token::Atan2 => TokenView::Atan2,
            Token::Arcosh => TokenView::Arcosh,
            Token::Arsinh => TokenView::Arsinh,
            Token::Artanh => TokenView::Artanh,
            Token::Ln => TokenView::Ln,
            Token::Log => TokenView::Log,
            Token::Exp => TokenView::Exp,
            Token::Exp2 => TokenView::Exp2,
            Token::Sign => TokenView::Sign,
            Token::Truncate => TokenView::Truncate,
            Token::Comma => TokenView::Comma,
            Token::Min => TokenView::Min,
            Token::Max => TokenView::Max,
            Token::Bar => TokenView::Bar,
            Token::DegToRad => TokenView::DegToRad,
            Token::RadToDeg => TokenView::RadToDeg,
            Token::Num(text) => TokenView::Num(text@),
            Token::Ans => TokenView::Ans,
            Token::Eof => TokenView::Eof,
        }
    }
}

/// Binding power, from loosest to tightest. The parser extends an expression
/// to the right for as long as the next token binds strictly tighter than the
/// level it was asked to respect.
#[derive(Debug, Clone, Copy, PartialEq, Eq, Structural)]
pub enum OperPrec {
    DefaultZero,
    AddSub,
    MulDiv,
    Power,
    Negative,
    Functional,
}

impl OperPrec {
    /// The position of this level in the order, `0` for the loosest.
    pub open spec fn level(self) -> int {
        match self {
            OperPrec::DefaultZero => 0,
            OperPrec::AddSub => 1,
            OperPrec::MulDiv => 2,
            OperPrec::Power => 3,
            OperPrec::Negative => 4,
            OperPrec::Functional => 5,
        }
    }

    /// The position of this level in the order, `0` for the loosest.
    pub fn rank(&self) -> (r: u8)
        ensures
            r == self.level(),
    {
        match self {
            OperPrec::DefaultZero => 0,
            OperPrec::AddSub => 1,
            OperPrec::MulDiv => 2,
            OperPrec::Power => 3,
            OperPrec::Negative => 4,
            OperPrec::Functional => 5,
        }
    }
}

/// The levels are ordered from the loosest to the tightest.
impl PartialOrd for OperPrec {
    fn partial_cmp(&self, other: &OperPrec) -> (r: Option<Ordering>) {
        let a: u8 = self.rank();
        let b: u8 = other.rank();
        if a < b {
            Some(Ordering::Less)
        } else if a == b {
            Some(Ordering::Equal)
        } else {
            Some(Ordering::Greater)
        }
    }
}

impl vstd::std_specs::cmp::PartialOrdSpecImpl for OperPrec {
    open spec fn obeys_partial_cmp_spec() -> bool {
        true
    }

    open spec fn partial_cmp_spec(&self, other: &OperPrec) -> Option<Ordering> {
        if self.level() < other.level() {
            Some(Ordering::Less)
        } else if self.level() == other.level() {
            Some(Ordering::Equal)
        } else {
            Some(Ordering::Greater)
        }
    }
}

/// The binding power of a token. Additive operators bind loosest; the
/// multiplicative ones, modulo and the two angle conversions come next, then
/// the power forms; factorial and every named function bind tightest.
/// Everything else (literals, constants, brackets, separators, end of input)
/// has no binding power at all.
pub open spec fn precedence(token: TokenView) -> OperPrec {
    match token {
        TokenView::Add | TokenView::Subtract => OperPrec::AddSub,
        TokenView::Multiply | TokenView::Divide | TokenView::Modulo | TokenView::DegToRad
        | TokenView::RadToDeg => OperPrec::MulDiv,
        TokenView::Caret | TokenView::Pow2 | TokenView::Pow3 => OperPrec::Power,
        TokenView::ExclamationMark | TokenView::Min | TokenView::Max | TokenView::Ln
        | TokenView::Sign | TokenView::Truncate | TokenView::Log | TokenView::Exp
        | TokenView::Exp2 | TokenView::Pow | TokenView::Sqrt | TokenView::Arcosh
        | TokenView::Arsinh | TokenView::Artanh | TokenView::Abs | TokenView::Floor
        | TokenView::Ceil | TokenView::Round | TokenView::Sin | TokenView::Cos
        | TokenView::Tan | TokenView::Sinh | TokenView::Cosh | TokenView::Tanh
        | TokenView::Asin | TokenView::Acos | TokenView::Atan
        | TokenView::Atan2 => OperPrec::Functional,
        _ => OperPrec::DefaultZero,
    }
}

/// The name under which a token appears in a diagnostic.
pub open spec fn token_name(token: TokenView) -> Seq<char> {
    match token {
        TokenView::Add => "Add"@,
        TokenView::Subtract => "Subtract"@,
        TokenView::Multiply => "Multiply"@,
        TokenView::Divide => "Divide"@,
        TokenView::Caret => "Caret"@,
        TokenView::ExclamationMark => "ExclamationMark"@,
        TokenView::Modulo => "Modulo"@,
        TokenView::LeftParen => "LeftParen"@,
        TokenView::RightParen => "RightParen"@,
        TokenView::LeftFloor => "LeftFloor"@,
        TokenView::RightFloor => "RightFloor"@,
        TokenView::LeftCeiling => "LeftCeiling"@,
        TokenView::RightCeiling => "RightCeiling"@,
        TokenView::Pow2 => "Pow2"@,
        TokenView::Pow3 => "Pow3"@,
        TokenView::Pow => "Pow"@,
        TokenView::Sqrt => "Sqrt"@,
        TokenView::E => "E"@,
        TokenView::Pi => "Pi"@,
        TokenView::Abs => "Abs"@,
        TokenView::Floor => "Floor"@,
        TokenView::Ceil => "Ceil"@,
        TokenView::Round => "Round"@,
        TokenView::Sin => "Sin"@,
        TokenView::Cos => "Cos"@,
        TokenView::Tan => "Tan"@,
        TokenView::Sinh => "Sinh"@,
        TokenView::Cosh => "Cosh"@,
        TokenView::Tanh => "Tanh"@,
        TokenView::Asin => "Asin"@,
        TokenView::Acos => "Acos"@,
        TokenView::Atan => "Atan"@,
        TokenView::Atan2 => "Atan2"@,
        TokenView::Arcosh => "Arcosh"@,
        TokenView::Arsinh => "Arsinh"@,
        TokenView::Artanh => "Artanh"@,
        TokenView::Ln => "Ln"@,
        TokenView::Log => "Log"@,
        TokenView::Exp => "Exp"@,
        TokenView::Exp2 => "Exp2"@,
        TokenView::Sign => "Sign"@,
        TokenView::Truncate => "Truncate"@,
        TokenView::Comma => "Comma"@,
        TokenView::Min => "Min"@,
        TokenView::Max => "Max"@,
        TokenView::Bar => "Bar"@,
        TokenView::DegToRad => "DegToRad"@,
        TokenView::RadToDeg => "RadToDeg"@,
        TokenView::Num(text) => "Num("@ + text + ")"@,
        TokenView::Ans => "Ans"@,
        TokenView::Eof => "Eof"@,
    }
}

impl Token {
    /// The binding power of this token.
    pub fn get_oper_prec(&self) -> (r: OperPrec)
        ensures
            r == precedence(self@),
    {
        match self {
            Token::Add | Token::Subtract => OperPrec::AddSub,
            Token::Multiply | Token::Divide | Token::Modulo | Token::DegToRad
            | Token::RadToDeg => OperPrec::MulDiv,
            Token::Caret | Token::Pow2 | Token::Pow3 => OperPrec::Power,
            Token::ExclamationMark | Token::Min | Token::Max | Token::Ln | Token::Sign
            | Token::Truncate | Token::Log | Token::Exp | Token::Exp2 | Token::Pow
            | Token::Sqrt | Token::Arcosh | Token::Arsinh | Token::Artanh | Token::Abs
            | Token::Floor | Token::Ceil | Token::Round | Token::Sin | Token::Cos
            | Token::Tan | Token::Sinh | Token::Cosh | Token::Tanh | Token::Asin
            | Token::Acos | Token::Atan | Token::Atan2 => OperPrec::Functional,
            _ => OperPrec::DefaultZero,
        }
    }

    /// The name under which this token appears in a diagnostic.
    pub fn name(&self) -> (r: String)
        ensures
            r@ == token_name(self@),
    {
        match self {
            Token::Add => String::from_str("Add"),
            Token::Subtract => String::from_str("Subtract"),
            Token::Multiply => String::from_str("Multiply"),
            Token::Divide => String::from_str("Divide"),
            Token::Caret => String::from_str("Caret"),
            Token::ExclamationMark => String::from_str("ExclamationMark"),
            Token::Modulo => String::from_str("Modulo"),
            Token::LeftParen => String::from_str("LeftParen"),
            Token::RightParen => String::from_str("RightParen"),
            Token::LeftFloor => String::from_str("LeftFloor"),
            Token::RightFloor => String::from_str("RightFloor"),
            Token::LeftCeiling => String::from_str("LeftCeiling"),
            Token::RightCeiling => String::from_str("RightCeiling"),
            Token::Pow2 => String::from_str("Pow2"),
            Token::Pow3 => String::from_str("Pow3"),
            Token::Pow => String::from_str("Pow"),
            Token::Sqrt => String::from_str("Sqrt"),
            Token::E => String::from_str("E"),
            Token::Pi => String::from_str("Pi"),
            Token::Abs => String::from_str("Abs"),
            Token::Floor => String::from_str("Floor"),
            Token::Ceil => String::from_str("Ceil"),
            Token::Round => String::from_str("Round"),
            Token::Sin => String::from_str("Sin"),
            Token::Cos => String::from_str("Cos"),
            Token::Tan => String::from_str("Tan"),
            Token::Sinh => String::from_str("Sinh"),
            Token::Cosh => String::from_str("Cosh"),
            Token::Tanh => String::from_str("Tanh"),
            Token::Asin => String::from_str("Asin"),
            Token::Acos => String::from_str("Acos"),
            Token::Atan => String::from_str("Atan"),
            Token::Atan2 => String::from_str("Atan2"),
            Token::Arcosh => String::from_str("Arcosh"),
            Token::Arsinh => String::from_str("Arsinh"),
            Token::Artanh => String::from_str("Artanh"),
            Token::Ln => String::from_str("Ln"),
            Token::Log => String::from_str("Log"),
            Token::Exp => String::from_str("Exp"),
            Token::Exp2 => String::from_str("Exp2"),
            Token::Sign => String::from_str("Sign"),
            Token::Truncate => String::from_str("Truncate"),
            Token::Comma => String::from_str("Comma"),
            Token::Min => String::from_str("Min"),
            Token::Max => String::from_str("Max"),
            Token::Bar => String::from_str("Bar"),
            Token::DegToRad => String::from_str("DegToRad"),
            Token::RadToDeg => String::from_str("RadToDeg"),
            Token::Num(text) => {
                let mut name = String::from_str("Num(");
                name.append(text.as_str());
                name.append(")");
                name
            },
            Token::Ans => String::from_str("Ans"),
            Token::Eof => String::from_str("Eof"),
        }
    }
}

/// Whether `a` and `b` are the same token: the same tag and, for two
/// literals, the same text.
pub fn same_token(a: &Token, b: &Token) -> (r: bool)
    ensures
        r == (a@ == b@),
{
    match a {
        Token::Add => matches!(b, Token::Add),
        Token::Subtract => matches!(b, Token::Subtract),
        Token::Multiply => matches!(b, Token::Multiply),
        Token::Divide => matches!(b, Token::Divide),
        Token::Caret => matches!(b, Token::Caret),
        Token::ExclamationMark => matches!(b, Token::ExclamationMark),
        Token::Modulo => matches!(b, Token::Modulo),
        Token::LeftParen => matches!(b, Token::LeftParen),
        Token::RightParen => matches!(b, Token::RightParen),
        Token::LeftFloor => matches!(b, Token::LeftFloor),
        Token::RightFloor => matches!(b, Token::RightFloor),
        Token::LeftCeiling => matches!(b, Token::LeftCeiling),
        Token::RightCeiling => matches!(b, Token::RightCeiling),
        Token::Pow2 => matches!(b, Token::Pow2),
        Token::Pow3 => matches!(b, Token::Pow3),
        Token::Pow => matches!(b, Token::Pow),
        Token::Sqrt => matches!(b, Token::Sqrt),
        Token::E => matches!(b, Token::E),
        Token::Pi => matches!(b, Token::Pi),
        Token::Abs => matches!(b, Token::Abs),
        Token::Floor => matches!(b, Token::Floor),
        Token::Ceil => matches!(b, Token::Ceil),
        Token::Round => matches!(b, Token::Round),
        Token::Sin => matches!(b, Token::Sin),
        Token::Cos => matches!(b, Token::Cos),
        Token::Tan => matches!(b, Token::Tan),
        Token::Sinh => matches!(b, Token::Sinh),
        Token::Cosh => matches!(b, Token::Cosh),
        Token::Tanh => matches!(b, Token::Tanh),
        Token::Asin => matches!(b, Token::Asin),
        Token::Acos => matches!(b, Token::Acos),
        Token::Atan => matches!(b, Token::Atan),
        Token::Atan2 => matches!(b, Token::Atan2),
        Token::Arcosh => matches!(b, Token::Arcosh),
        Token::Arsinh => matches!(b, Token::Arsinh),
        Token::Artanh => matches!(b, Token::Artanh),
        Token::Ln => matches!(b, Token::Ln),
        Token::Log => matches!(b, Token::Log),
        Token::Exp => matches!(b, Token::Exp),
        Token::Exp2 => matches!(b, Token::Exp2),
        Token::Sign => matches!(b, Token::Sign),
        Token::Truncate => matches!(b, Token::Truncate),
        Token::Comma => matches!(b, Token::Comma),
        Token::Min => matches!(b, Token::Min),
        Token::Max => matches!(b, Token::Max),
        Token::Bar => matches!(b, Token::Bar),
        Token::DegToRad => matches!(b, Token::DegToRad),
        Token::RadToDeg => matches!(b, Token::RadToDeg),
        Token::Num(text) => match b {
            Token::Num(other) => *text == *other,
            _ => false,
        },
        Token::Ans => matches!(b, Token::Ans),
        Token::Eof => matches!(b, Token::Eof),
    }
}

} // verus!
