//! The grammar of the expression language, as a function from text to tree.
//!
//! The parser looks one token ahead. Its state is a [`Cursor`]: the token it
//! is looking at, and the position in the text behind that token. Every
//! function here takes a cursor and, where it succeeds, hands back what it
//! recognised together with the cursor it stopped at.

use crate::ast::{BinaryOp, Constant, NodeView, UnaryOp, ValueView, VariadicOp};
use crate::error::ParseErrorView;
use crate::token::{precedence, token_name, OperPrec, TokenView};
use crate::tokenizer::{lemma_scan_bounds, scan};
use vstd::prelude::*;

verus! {

/// What an expression is parsed from: its text, and the previous answer as
/// the bit pattern of a double.
pub struct Source {
    pub text: Seq<char>,
    pub answer: u64,
}

/// The state of the parser: the token it is looking at, and the position in
/// the text of the first character behind that token.
pub struct Cursor {
    pub token: TokenView,
    pub pos: int,
}

/// A parse that failed: why, and the cursor at which the parser gave up.
pub struct Failure {
    pub error: ParseErrorView,
    pub at: Cursor,
}

/// How much is left to parse at `c`: the characters behind the current
/// token, and one more for the token itself unless it is `Eof`.
pub open spec fn remaining(s: Seq<char>, c: Cursor) -> nat {
    let unread: nat = if 0 <= c.pos < s.len() {
        (s.len() - c.pos) as nat
    } else {
        0
    };
    if c.token is Eof {
        unread
    } else {
        unread + 1
    }
}

/// The scanner found no token.
pub open spec fn invalid_character() -> ParseErrorView {
    ParseErrorView::InvalidOperator("Invalid character"@)
}

/// One token was due and another one stands there.
pub open spec fn unexpected(expected: TokenView, found: TokenView) -> ParseErrorView {
    ParseErrorView::InvalidOperator(
        "Expected "@ + token_name(expected) + ", got "@ + token_name(found),
    )
}

/// Behind an argument stands neither a comma nor the closing parenthesis.
pub open spec fn bad_separator(found: TokenView) -> ParseErrorView {
    ParseErrorView::InvalidOperator(
        "Expected either Comma or RightParen, got "@ + token_name(found),
    )
}

/// An operand was due and the token can start none.
pub open spec fn not_an_operand() -> ParseErrorView {
    ParseErrorView::UnableToParse("Unknown parsing token for parsing number"@)
}

/// The token binds like an operator and is none.
pub open spec fn not_an_operator(found: TokenView) -> ParseErrorView {
    ParseErrorView::InvalidOperator("Please enter a valid operator "@ + token_name(found))
}

/// A function of one or more arguments was called with none.
pub open spec fn no_arguments(op: VariadicOp) -> ParseErrorView {
    match op {
        VariadicOp::Min => ParseErrorView::UnableToParse(
            "There's no arguments in the min function"@,
        ),
        VariadicOp::Max => ParseErrorView::UnableToParse(
            "There's no arguments in the max function"@,
        ),
    }
}

/// What [`forward`] puts in the place of a parse that took nothing.
pub open spec fn stalled() -> ParseErrorView {
    ParseErrorView::UnableToParse("Unable to parse"@)
}

/// The named function of one argument that `token` stands for.
pub open spec fn unary_function(token: TokenView) -> Option<UnaryOp> {
    match token {
        TokenView::Abs => Some(UnaryOp::Abs),
        TokenView::Floor => Some(UnaryOp::Floor),
        TokenView::Ceil => Some(UnaryOp::Ceil),
        TokenView::Round => Some(UnaryOp::Round),
        TokenView::Sin => Some(UnaryOp::Sin),
        TokenView::Cos => Some(UnaryOp::Cos),
        TokenView::Tan => Some(UnaryOp::Tan),
        TokenView::Sinh => Some(UnaryOp::Sinh),
        TokenView::Cosh => Some(UnaryOp::Cosh),
        TokenView::Tanh => Some(UnaryOp::Tanh),
        TokenView::Asin => Some(UnaryOp::Asin),
        TokenView::Acos => Some(UnaryOp::Acos),
        TokenView::Atan => Some(UnaryOp::Atan),
        TokenView::Arsinh => Some(UnaryOp::Arsinh),
        TokenView::Arcosh => Some(UnaryOp::Arcosh),
        TokenView::Artanh => Some(UnaryOp::Artanh),
        TokenView::Sqrt => Some(UnaryOp::Sqrt),
        TokenView::Exp => Some(UnaryOp::Exp),
        TokenView::Exp2 => Some(UnaryOp::Exp2),
        TokenView::Ln => Some(UnaryOp::Ln),
        TokenView::Sign => Some(UnaryOp::Sign),
        TokenView::Truncate => Some(UnaryOp::Truncate),
        _ => None,
    }
}

/// The named function of two arguments that `token` stands for.
pub open spec fn binary_function(token: TokenView) -> Option<BinaryOp> {
    match token {
        TokenView::Atan2 => Some(BinaryOp::Atan2),
        TokenView::Pow => Some(BinaryOp::Pow),
        TokenView::Log => Some(BinaryOp::Log),
        _ => None,
    }
}

/// The named function of one or more arguments that `token` stands for.
pub open spec fn variadic_function(token: TokenView) -> Option<VariadicOp> {
    match token {
        TokenView::Min => Some(VariadicOp::Min),
        TokenView::Max => Some(VariadicOp::Max),
        _ => None,
    }
}

/// The operation of the infix operator that `token` stands for.
pub open spec fn infix_operator(token: TokenView) -> Option<BinaryOp> {
    match token {
        TokenView::Add => Some(BinaryOp::Add),
        TokenView::Subtract => Some(BinaryOp::Subtract),
        TokenView::Multiply => Some(BinaryOp::Multiply),
        TokenView::Divide => Some(BinaryOp::Divide),
        TokenView::Modulo => Some(BinaryOp::Modulo),
        TokenView::Caret => Some(BinaryOp::Caret),
        _ => None,
    }
}

/// `operand` times the constant `factor`.
pub open spec fn scaled(operand: NodeView, factor: Constant) -> NodeView {
    NodeView::Binary(
        BinaryOp::Multiply,
        Box::new(operand),
        Box::new(NodeView::Number(ValueView::Constant(factor))),
    )
}

/// The tree that the postfix mark `token` makes of `operand`, for the marks
/// that take nothing after them: the square, the cube, and the two angle
/// conversions, which multiply by a constant.
pub open spec fn postfix(token: TokenView, operand: NodeView) -> Option<NodeView> {
    match token {
        TokenView::Pow2 => Some(NodeView::Unary(UnaryOp::Pow2, Box::new(operand))),
        TokenView::Pow3 => Some(NodeView::Unary(UnaryOp::Pow3, Box::new(operand))),
        TokenView::DegToRad => Some(scaled(operand, Constant::RadiansPerDegree)),
        TokenView::RadToDeg => Some(scaled(operand, Constant::DegreesPerRadian)),
        _ => None,
    }
}

/// Whether `token` can only be the start of a further operand: an opening
/// parenthesis, floor or ceiling bracket, a literal, or the name of a
/// function. Behind a complete operand such a token means a product.
pub open spec fn starts_operand(token: TokenView) -> bool {
    ||| token is LeftParen
    ||| token is LeftFloor
    ||| token is LeftCeiling
    ||| token is Num
    ||| unary_function(token) is Some
    ||| binary_function(token) is Some
    ||| variadic_function(token) is Some
}

/// `inner`, with `wrap` applied to it where there is one.
pub open spec fn wrapped(wrap: Option<UnaryOp>, inner: NodeView) -> NodeView {
    match wrap {
        Some(op) => NodeView::Unary(op, Box::new(inner)),
        None => inner,
    }
}

/// The cursor after the current token has been taken: the next token is
/// scanned from the text. Where the text spells no token there, the parse is
/// over.
pub open spec fn advance(s: Seq<char>, c: Cursor) -> Result<Cursor, Failure> {
    match scan(s, c.pos) {
        Some((token, pos)) => Ok(Cursor { token, pos }),
        None => Err(Failure { error: invalid_character(), at: c }),
    }
}

/// The cursor after the current token has been taken, which must be
/// `expected`.
pub open spec fn expect(s: Seq<char>, c: Cursor, expected: TokenView) -> Result<
    Cursor,
    Failure,
> {
    if c.token == expected {
        advance(s, c)
    } else {
        Err(Failure { error: unexpected(expected, c.token), at: c })
    }
}

/// The cursor behind the name of a function and the parenthesis that opens
/// its arguments.
pub open spec fn open_call(s: Seq<char>, c: Cursor) -> Result<Cursor, Failure> {
    match advance(s, c) {
        Ok(behind_name) => expect(s, behind_name, TokenView::LeftParen),
        Err(e) => Err(e),
    }
}

/// The outcome of a parse that began at `from`, as long as it is a failure or
/// has taken something from the input.
///
/// The grammar is recursive, and this is what makes the recursion well
/// founded: whatever follows a sub-expression is parsed from a cursor that is
/// known to be nearer the end. No parse takes nothing (see
/// [`lemma_expression_progress`] and its companions), so `forward` never
/// changes an outcome.
pub open spec fn forward<T>(
    s: Seq<char>,
    from: Cursor,
    outcome: Result<(T, Cursor), Failure>,
) -> Result<(T, Cursor), Failure> {
    match outcome {
        Ok((_, to)) => if remaining(s, to) < remaining(s, from) {
            outcome
        } else {
            Err(Failure { error: stalled(), at: from })
        },
        Err(_) => outcome,
    }
}

/// An expression: an operand, extended to the right by every operator that
/// binds strictly tighter than `floor`.
pub open spec fn expression(src: Source, c: Cursor, floor: OperPrec) -> Result<
    (NodeView, Cursor),
    Failure,
>
    decreases remaining(src.text, c), 3int,
{
    match forward(src.text, c, operand(src, c)) {
        Ok((left, behind)) => climb(src, left, behind, floor),
        Err(e) => Err(e),
    }
}

/// The expression that begins with the complete sub-expression `left`:
/// as long as the current token binds strictly tighter than `floor`, it is
/// applied to what has been recognised so far.
pub open spec fn climb(src: Source, left: NodeView, c: Cursor, floor: OperPrec) -> Result<
    (NodeView, Cursor),
    Failure,
>
    decreases remaining(src.text, c), 2int,
{
    if floor.level() < precedence(c.token).level() {
        match forward(src.text, c, infix(src, left, c)) {
            Ok((node, behind)) => climb(src, node, behind, floor),
            Err(e) => Err(e),
        }
    } else {
        Ok((left, c))
    }
}

/// The current token, applied to `left` as an operator.
///
/// An infix operator takes as its right operand an expression that respects
/// the operator's own binding power, so operators of one level associate to
/// the left. The factorial mark is followed by an implicit product. The other
/// postfix marks take nothing after them.
pub open spec fn infix(src: Source, left: NodeView, c: Cursor) -> Result<
    (NodeView, Cursor),
    Failure,
>
    decreases remaining(src.text, c), 0int,
    via infix_decreases
{
    if c.token is ExclamationMark {
        match advance(src.text, c) {
            Ok(behind) => implicit_product(
                src,
                NodeView::Unary(UnaryOp::Factorial, Box::new(left)),
                behind,
            ),
            Err(e) => Err(e),
        }
    } else if postfix(c.token, left) is Some {
        match advance(src.text, c) {
            Ok(behind) => Ok((postfix(c.token, left)->0, behind)),
            Err(e) => Err(e),
        }
    } else if infix_operator(c.token) is Some {
        match advance(src.text, c) {
            Ok(behind) => match expression(src, behind, precedence(c.token)) {
                Ok((right, end)) => Ok(
                    (
                        NodeView::Binary(
                            infix_operator(c.token)->0,
                            Box::new(left),
                            Box::new(right),
                        ),
                        end,
                    ),
                ),
                Err(e) => Err(e),
            },
            Err(e) => Err(e),
        }
    } else {
        Err(Failure { error: not_an_operator(c.token), at: c })
    }
}

#[via_fn]
proof fn infix_decreases(src: Source, left: NodeView, c: Cursor) {
    lemma_advance_progress(src.text, c);
}

/// `node`, or its product with the operand that follows it directly.
///
/// Where the current token can only start a further operand, `node` is
/// multiplied by the expression that begins there and respects the binding
/// power of multiplication.
pub open spec fn implicit_product(src: Source, node: NodeView, c: Cursor) -> Result<
    (NodeView, Cursor),
    Failure,
>
    decreases remaining(src.text, c), 4int,
{
    if starts_operand(c.token) {
        match expression(src, c, OperPrec::MulDiv) {
            Ok((right, end)) => Ok(
                (NodeView::Binary(BinaryOp::Multiply, Box::new(node), Box::new(right)), end),
            ),
            Err(e) => Err(e),
        }
    } else {
        Ok((node, c))
    }
}

/// The number that `token` stands for by itself: the text of a literal, the
/// previous answer, or a named constant.
pub open spec fn number_of(token: TokenView, answer: u64) -> Option<ValueView> {
    match token {
        TokenView::Num(text) => Some(ValueView::Literal(text)),
        TokenView::Ans => Some(ValueView::Answer(answer)),
        TokenView::Pi => Some(ValueView::Constant(Constant::Pi)),
        TokenView::E => Some(ValueView::Constant(Constant::E)),
        _ => None,
    }
}

/// The bracket that closes the opening bracket `token`, and the operation
/// that the pair applies to what stands between them.
pub open spec fn bracket(token: TokenView) -> Option<(TokenView, Option<UnaryOp>)> {
    match token {
        TokenView::LeftParen => Some((TokenView::RightParen, None)),
        TokenView::Bar => Some((TokenView::Bar, Some(UnaryOp::Abs))),
        TokenView::LeftFloor => Some((TokenView::RightFloor, Some(UnaryOp::Floor))),
        TokenView::LeftCeiling => Some((TokenView::RightCeiling, Some(UnaryOp::Ceil))),
        _ => None,
    }
}

/// An operand: a number, a bracketed expression, a signed operand or the call
/// of a named function. A number, a bracketed expression and a call may be
/// followed by an implicit product. A sign applies to the expression behind
/// it that respects the binding power of a sign.
pub open spec fn operand(src: Source, c: Cursor) -> Result<(NodeView, Cursor), Failure>
    decreases remaining(src.text, c), 2int,
    via operand_decreases
{
    match number_of(c.token, src.answer) {
        Some(value) => number(src, c, value),
        None => match bracket(c.token) {
            Some((closing, wrap)) => enclosed(src, c, closing, wrap),
            None => if c.token is Subtract {
                match advance(src.text, c) {
                    Ok(behind) => match expression(src, behind, OperPrec::Negative) {
                        Ok((inner, end)) => Ok(
                            (NodeView::Unary(UnaryOp::Negative, Box::new(inner)), end),
                        ),
                        Err(e) => Err(e),
                    },
                    Err(e) => Err(e),
                }
            } else if c.token is Add {
                match advance(src.text, c) {
                    Ok(behind) => expression(src, behind, OperPrec::Negative),
                    Err(e) => Err(e),
                }
            } else {
                call(src, c)
            },
        },
    }
}

#[via_fn]
proof fn operand_decreases(src: Source, c: Cursor) {
    lemma_advance_progress(src.text, c);
}

/// The call of a named function, or its implicit product with what follows.
/// A function of one or more arguments must be given one.
pub open spec fn call(src: Source, c: Cursor) -> Result<(NodeView, Cursor), Failure>
    decreases remaining(src.text, c), 1int,
{
    if unary_function(c.token) is Some {
        match forward(src.text, c, one_argument(src, c)) {
            Ok((argument, behind)) => implicit_product(
                src,
                NodeView::Unary(unary_function(c.token)->0, Box::new(argument)),
                behind,
            ),
            Err(e) => Err(e),
        }
    } else if binary_function(c.token) is Some {
        match forward(src.text, c, two_arguments(src, c)) {
            Ok(((first, second), behind)) => implicit_product(
                src,
                NodeView::Binary(binary_function(c.token)->0, Box::new(first), Box::new(second)),
                behind,
            ),
            Err(e) => Err(e),
        }
    } else if variadic_function(c.token) is Some {
        match forward(src.text, c, argument_list(src, c)) {
            Ok((operands, behind)) => if operands.len() == 0 {
                Err(Failure { error: no_arguments(variadic_function(c.token)->0), at: behind })
            } else {
                implicit_product(
                    src,
                    NodeView::Variadic(variadic_function(c.token)->0, operands),
                    behind,
                )
            },
            Err(e) => Err(e),
        }
    } else {
        Err(Failure { error: not_an_operand(), at: c })
    }
}

/// The number leaf for the current token, or its implicit product with what
/// follows.
pub open spec fn number(src: Source, c: Cursor, value: ValueView) -> Result<
    (NodeView, Cursor),
    Failure,
>
    decreases remaining(src.text, c), 0int,
    when !(c.token is Eof)
    via number_decreases
{
    match advance(src.text, c) {
        Ok(behind) => implicit_product(src, NodeView::Number(value), behind),
        Err(e) => Err(e),
    }
}

#[via_fn]
proof fn number_decreases(src: Source, c: Cursor, value: ValueView) {
    lemma_advance_progress(src.text, c);
}

/// An expression between the opening bracket at the cursor and the bracket
/// `closing`, with `wrap` applied to it, or the implicit product of that with
/// what follows.
pub open spec fn enclosed(
    src: Source,
    c: Cursor,
    closing: TokenView,
    wrap: Option<UnaryOp>,
) -> Result<(NodeView, Cursor), Failure>
    decreases remaining(src.text, c), 0int,
    when !(c.token is Eof)
    via enclosed_decreases
{
    match advance(src.text, c) {
        Ok(inside) => match forward(
            src.text,
            c,
            expression(src, inside, OperPrec::DefaultZero),
        ) {
            Ok((inner, at_closing)) => match expect(src.text, at_closing, closing) {
                Ok(behind) => implicit_product(src, wrapped(wrap, inner), behind),
                Err(e) => Err(e),
            },
            Err(e) => Err(e),
        },
        Err(e) => Err(e),
    }
}

#[via_fn]
proof fn enclosed_decreases(src: Source, c: Cursor, closing: TokenView, wrap: Option<UnaryOp>) {
    lemma_advance_progress(src.text, c);
    lemma_expect_progress(src.text);
}

/// The one argument of a call whose name stands at the cursor, between its
/// parentheses.
pub open spec fn one_argument(src: Source, c: Cursor) -> Result<(NodeView, Cursor), Failure>
    decreases remaining(src.text, c), 0int,
    when !(c.token is Eof)
    via one_argument_decreases
{
    match open_call(src.text, c) {
        Ok(inside) => match expression(src, inside, OperPrec::DefaultZero) {
            Ok((argument, at_closing)) => match expect(
                src.text,
                at_closing,
                TokenView::RightParen,
            ) {
                Ok(behind) => Ok((argument, behind)),
                Err(e) => Err(e),
            },
            Err(e) => Err(e),
        },
        Err(e) => Err(e),
    }
}

#[via_fn]
proof fn one_argument_decreases(src: Source, c: Cursor) {
    lemma_open_call_progress(src.text, c);
}

/// The two arguments of a call whose name stands at the cursor, between its
/// parentheses and with a comma between them.
pub open spec fn two_arguments(src: Source, c: Cursor) -> Result<
    ((NodeView, NodeView), Cursor),
    Failure,
>
    decreases remaining(src.text, c), 0int,
    when !(c.token is Eof)
    via two_arguments_decreases
{
    match open_call(src.text, c) {
        Ok(inside) => match forward(
            src.text,
            c,
            expression(src, inside, OperPrec::DefaultZero),
        ) {
            Ok((first, at_comma)) => match expect(src.text, at_comma, TokenView::Comma) {
                Ok(behind_comma) => match expression(
                    src,
                    behind_comma,
                    OperPrec::DefaultZero,
                ) {
                    Ok((second, at_closing)) => match expect(
                        src.text,
                        at_closing,
                        TokenView::RightParen,
                    ) {
                        Ok(behind) => Ok(((first, second), behind)),
                        Err(e) => Err(e),
                    },
                    Err(e) => Err(e),
                },
                Err(e) => Err(e),
            },
            Err(e) => Err(e),
        },
        Err(e) => Err(e),
    }
}

#[via_fn]
proof fn two_arguments_decreases(src: Source, c: Cursor) {
    lemma_open_call_progress(src.text, c);
    lemma_expect_progress(src.text);
}

/// The arguments of a call whose name stands at the cursor, between its
/// parentheses and with commas between them. A pair of parentheses with
/// nothing between them holds no argument.
pub open spec fn argument_list(src: Source, c: Cursor) -> Result<
    (Seq<NodeView>, Cursor),
    Failure,
>
    decreases remaining(src.text, c), 0int,
    when !(c.token is Eof)
    via argument_list_decreases
{
    match open_call(src.text, c) {
        Ok(inside) => if inside.token is RightParen {
            match advance(src.text, inside) {
                Ok(behind) => Ok((Seq::empty(), behind)),
                Err(e) => Err(e),
            }
        } else {
            arguments(src, inside, Seq::empty())
        },
        Err(e) => Err(e),
    }
}

#[via_fn]
proof fn argument_list_decreases(src: Source, c: Cursor) {
    lemma_open_call_progress(src.text, c);
}

/// The arguments of a call from the cursor on, appended to those in `done`:
/// expressions separated by commas, and the closing parenthesis behind the
/// last of them.
pub open spec fn arguments(src: Source, c: Cursor, done: Seq<NodeView>) -> Result<
    (Seq<NodeView>, Cursor),
    Failure,
>
    decreases remaining(src.text, c), 4int,
    via arguments_decreases
{
    match forward(src.text, c, expression(src, c, OperPrec::DefaultZero)) {
        Ok((argument, behind)) => if behind.token is Comma {
            match advance(src.text, behind) {
                Ok(next) => arguments(src, next, done.push(argument)),
                Err(e) => Err(e),
            }
        } else if behind.token is RightParen {
            match advance(src.text, behind) {
                Ok(end) => Ok((done.push(argument), end)),
                Err(e) => Err(e),
            }
        } else {
            Err(Failure { error: bad_separator(behind.token), at: behind })
        },
        Err(e) => Err(e),
    }
}

#[via_fn]
proof fn arguments_decreases(src: Source, c: Cursor, done: Seq<NodeView>) {
    lemma_expect_progress(src.text);
}

/// The cursor that a parse of `text` starts at: the first token of `text` and
/// the position behind it.
///
/// There is none where `text` begins with no token. Nor is there one where
/// the first token is `Eof`, that is, where `text` is empty: no expression
/// begins at the end of the text, so the operand that is due there is missing.
pub open spec fn start(text: Seq<char>) -> Result<Cursor, ParseErrorView> {
    match scan(text, 0) {
        Some((token, pos)) => if token is Eof {
            Err(not_an_operand())
        } else {
            Ok(Cursor { token, pos })
        },
        None => Err(invalid_character()),
    }
}

/// The tree of the expression that `text` opens with, or why there is none.
/// `answer` is what the previous-answer token stands for.
pub open spec fn syntax_tree(text: Seq<char>, answer: u64) -> Result<NodeView, ParseErrorView> {
    match start(text) {
        Ok(c) => match expression(Source { text, answer }, c, OperPrec::DefaultZero) {
            Ok((tree, _)) => Ok(tree),
            Err(failure) => Err(failure.error),
        },
        Err(e) => Err(e),
    }
}

/// Taking a token never leaves more to parse, and leaves less unless the
/// token taken is `Eof`.
pub proof fn lemma_advance_progress(s: Seq<char>, c: Cursor)
    ensures
        match advance(s, c) {
            Ok(behind) => {
                &&& remaining(s, behind) <= remaining(s, c)
                &&& !(c.token is Eof) ==> remaining(s, behind) < remaining(s, c)
            },
            Err(_) => true,
        },
{
    if 0 <= c.pos < s.len() {
        lemma_scan_bounds(s, c.pos);
    }
}

/// Taking an expected token never leaves more to parse, wherever it is done.
pub proof fn lemma_expect_progress(s: Seq<char>)
    ensures
        forall|c: Cursor, expected: TokenView|
            (#[trigger] expect(s, c, expected)) matches Ok(behind) ==> remaining(s, behind)
                <= remaining(s, c),
        forall|c: Cursor|
            (#[trigger] advance(s, c)) matches Ok(behind) ==> remaining(s, behind) <= remaining(
                s,
                c,
            ),
{
    assert forall|c: Cursor| (#[trigger] advance(s, c)) is Ok implies remaining(
        s,
        advance(s, c)->Ok_0,
    ) <= remaining(s, c) by {
        lemma_advance_progress(s, c);
    }
}

/// Behind the name of a function and its opening parenthesis, less is left
/// to parse than before them.
pub proof fn lemma_open_call_progress(s: Seq<char>, c: Cursor)
    ensures
        open_call(s, c) matches Ok(inside) ==> remaining(s, inside) < remaining(s, c) || (
        c.token is Eof),
{
    lemma_advance_progress(s, c);
    if let Ok(behind_name) = advance(s, c) {
        lemma_advance_progress(s, behind_name);
    }
}

} // verus!
