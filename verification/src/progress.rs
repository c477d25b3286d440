//! No parse takes nothing: every function of the grammar that succeeds leaves
//! the cursor no farther from the end of the text than it found it, and most
//! leave it nearer.

use crate::ast::{NodeView, UnaryOp, ValueView};
use crate::grammar::{
    advance, argument_list, arguments, binary_function, bracket, call, climb, enclosed, expect,
    expression, forward, implicit_product, infix, infix_operator, lemma_advance_progress,
    lemma_expect_progress, lemma_open_call_progress, number, number_of, one_argument, open_call,
    operand, postfix, remaining, starts_operand, two_arguments, unary_function, variadic_function,
    wrapped, Cursor, Source,
};
use crate::token::{precedence, OperPrec, TokenView};
use vstd::prelude::*;

verus! {

/// An expression takes at least one token.
pub proof fn lemma_expression_progress(src: Source, c: Cursor, floor: OperPrec)
    ensures
        expression(src, c, floor) matches Ok((_, end)) ==> remaining(src.text, end) < remaining(
            src.text,
            c,
        ),
    decreases remaining(src.text, c), 3int,
{
    if let Ok((left, behind)) = forward(src.text, c, operand(src, c)) {
        lemma_climb_progress(src, left, behind, floor);
    }
}

/// Extending an expression to the right never leaves more to parse.
pub proof fn lemma_climb_progress(src: Source, left: NodeView, c: Cursor, floor: OperPrec)
    ensures
        climb(src, left, c, floor) matches Ok((_, end)) ==> remaining(src.text, end) <= remaining(
            src.text,
            c,
        ),
    decreases remaining(src.text, c), 2int,
{
    if floor.level() < precedence(c.token).level() {
        if let Ok((node, behind)) = forward(src.text, c, infix(src, left, c)) {
            lemma_climb_progress(src, node, behind, floor);
        }
    }
}

/// Applying an operator takes at least the operator.
pub proof fn lemma_infix_progress(src: Source, left: NodeView, c: Cursor)
    ensures
        infix(src, left, c) matches Ok((_, end)) ==> remaining(src.text, end) < remaining(
            src.text,
            c,
        ),
    decreases remaining(src.text, c), 0int,
{
    lemma_advance_progress(src.text, c);
    if let Ok(behind) = advance(src.text, c) {
        if c.token is ExclamationMark {
            lemma_implicit_product_progress(
                src,
                NodeView::Unary(UnaryOp::Factorial, Box::new(left)),
                behind,
            );
        } else if postfix(c.token, left) is Some {
        } else if infix_operator(c.token) is Some {
            lemma_expression_progress(src, behind, precedence(c.token));
        }
    }
}

/// An implicit product never leaves more to parse.
pub proof fn lemma_implicit_product_progress(src: Source, node: NodeView, c: Cursor)
    ensures
        implicit_product(src, node, c) matches Ok((_, end)) ==> remaining(src.text, end)
            <= remaining(src.text, c),
    decreases remaining(src.text, c), 4int,
{
    if starts_operand(c.token) {
        lemma_expression_progress(src, c, OperPrec::MulDiv);
    }
}

/// An operand takes at least one token.
pub proof fn lemma_operand_progress(src: Source, c: Cursor)
    ensures
        operand(src, c) matches Ok((_, end)) ==> remaining(src.text, end) < remaining(src.text, c),
    decreases remaining(src.text, c), 2int,
{
    lemma_advance_progress(src.text, c);
    if let Some(value) = number_of(c.token, src.answer) {
        lemma_number_progress(src, c, value);
    } else if let Some((closing, wrap)) = bracket(c.token) {
        lemma_enclosed_progress(src, c, closing, wrap);
    } else if c.token is Subtract || c.token is Add {
        if let Ok(behind) = advance(src.text, c) {
            lemma_expression_progress(src, behind, OperPrec::Negative);
        }
    } else {
        lemma_call_progress(src, c);
    }
}

/// A call takes at least the name of the function.
pub proof fn lemma_call_progress(src: Source, c: Cursor)
    ensures
        call(src, c) matches Ok((_, end)) ==> remaining(src.text, end) < remaining(src.text, c),
    decreases remaining(src.text, c), 1int,
{
    if unary_function(c.token) is Some {
        if let Ok((argument, behind)) = forward(src.text, c, one_argument(src, c)) {
            lemma_implicit_product_progress(
                src,
                NodeView::Unary(unary_function(c.token)->0, Box::new(argument)),
                behind,
            );
        }
    } else if binary_function(c.token) is Some {
        if let Ok(((first, second), behind)) = forward(src.text, c, two_arguments(src, c)) {
            lemma_implicit_product_progress(
                src,
                NodeView::Binary(binary_function(c.token)->0, Box::new(first), Box::new(second)),
                behind,
            );
        }
    } else if variadic_function(c.token) is Some {
        if let Ok((operands, behind)) = forward(src.text, c, argument_list(src, c)) {
            lemma_implicit_product_progress(
                src,
                NodeView::Variadic(variadic_function(c.token)->0, operands),
                behind,
            );
        }
    }
}

/// A number leaf takes its token.
pub proof fn lemma_number_progress(src: Source, c: Cursor, value: ValueView)
    requires
        !(c.token is Eof),
    ensures
        number(src, c, value) matches Ok((_, end)) ==> remaining(src.text, end) < remaining(
            src.text,
            c,
        ),
    decreases remaining(src.text, c), 0int,
{
    lemma_advance_progress(src.text, c);
    if let Ok(behind) = advance(src.text, c) {
        lemma_implicit_product_progress(src, NodeView::Number(value), behind);
    }
}

/// A bracketed expression takes at least its brackets.
pub proof fn lemma_enclosed_progress(
    src: Source,
    c: Cursor,
    closing: TokenView,
    wrap: Option<UnaryOp>,
)
    requires
        !(c.token is Eof),
    ensures
        enclosed(src, c, closing, wrap) matches Ok((_, end)) ==> remaining(src.text, end)
            < remaining(src.text, c),
    decreases remaining(src.text, c), 0int,
{
    lemma_advance_progress(src.text, c);
    lemma_expect_progress(src.text);
    if let Ok(inside) = advance(src.text, c) {
        if let Ok((inner, at_closing)) = forward(
            src.text,
            c,
            expression(src, inside, OperPrec::DefaultZero),
        ) {
            if let Ok(behind) = expect(src.text, at_closing, closing) {
                lemma_implicit_product_progress(src, wrapped(wrap, inner), behind);
            }
        }
    }
}

/// The argument of a call takes at least the name of the function.
pub proof fn lemma_one_argument_progress(src: Source, c: Cursor)
    requires
        !(c.token is Eof),
    ensures
        one_argument(src, c) matches Ok((_, end)) ==> remaining(src.text, end) < remaining(
            src.text,
            c,
        ),
{
    lemma_open_call_progress(src.text, c);
    lemma_expect_progress(src.text);
    if let Ok(inside) = open_call(src.text, c) {
        lemma_expression_progress(src, inside, OperPrec::DefaultZero);
    }
}

/// The arguments of a call take at least the name of the function.
pub proof fn lemma_two_arguments_progress(src: Source, c: Cursor)
    requires
        !(c.token is Eof),
    ensures
        two_arguments(src, c) matches Ok((_, end)) ==> remaining(src.text, end) < remaining(
            src.text,
            c,
        ),
{
    lemma_open_call_progress(src.text, c);
    lemma_expect_progress(src.text);
    if let Ok(inside) = open_call(src.text, c) {
        if let Ok((first, at_comma)) = forward(
            src.text,
            c,
            expression(src, inside, OperPrec::DefaultZero),
        ) {
            if let Ok(behind_comma) = expect(src.text, at_comma, TokenView::Comma) {
                lemma_expression_progress(src, behind_comma, OperPrec::DefaultZero);
            }
        }
    }
}

/// A list of arguments takes at least the name of the function.
pub proof fn lemma_argument_list_progress(src: Source, c: Cursor)
    requires
        !(c.token is Eof),
    ensures
        argument_list(src, c) matches Ok((_, end)) ==> remaining(src.text, end) < remaining(
            src.text,
            c,
        ),
{
    lemma_open_call_progress(src.text, c);
    lemma_expect_progress(src.text);
    if let Ok(inside) = open_call(src.text, c) {
        if !(inside.token is RightParen) {
            lemma_arguments_progress(src, inside, Seq::empty());
        }
    }
}

/// A list of arguments takes at least one token, and holds at least one
/// argument more than were done before.
pub proof fn lemma_arguments_progress(src: Source, c: Cursor, done: Seq<NodeView>)
    ensures
        arguments(src, c, done) matches Ok((operands, end)) ==> {
            &&& remaining(src.text, end) < remaining(src.text, c)
            &&& operands.len() > done.len()
        },
    decreases remaining(src.text, c), 4int,
{
    lemma_expect_progress(src.text);
    if let Ok((argument, behind)) = forward(
        src.text,
        c,
        expression(src, c, OperPrec::DefaultZero),
    ) {
        if behind.token is Comma {
            if let Ok(next) = advance(src.text, behind) {
                lemma_arguments_progress(src, next, done.push(argument));
            }
        }
    }
}

} // verus!
