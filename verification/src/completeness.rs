//! What the grammar builds is complete: a tree whose literals are well-formed
//! numerals and whose operations all have their operands.

use crate::ast::{Constant, NodeView, UnaryOp, ValueView};
use crate::grammar::{
    advance, argument_list, arguments, binary_function, bracket, call, climb, enclosed, expect,
    expression, forward, implicit_product, infix, infix_operator, lemma_advance_progress,
    lemma_expect_progress, lemma_open_call_progress, number, number_of, one_argument, open_call,
    operand, postfix, remaining, starts_operand, two_arguments, unary_function, variadic_function,
    wrapped, Cursor, Failure, Source,
};
use crate::token::{is_numeral, precedence, OperPrec, TokenView};
use crate::tokenizer::lemma_scan_bounds;
use vstd::prelude::*;

verus! {

/// Whether `c` is a cursor into `s` that looks at `Eof` at the end of `s`
/// only, and whose literal, if it looks at one, is a well-formed numeral. The
/// scanner produces no other.
pub open spec fn sound(s: Seq<char>, c: Cursor) -> bool {
    &&& 0 <= c.pos <= s.len()
    &&& c.token is Eof ==> c.pos == s.len()
    &&& c.token matches TokenView::Num(text) ==> is_numeral(text)
}

/// Whether a successful outcome holds a complete tree and a sound cursor.
pub open spec fn complete(s: Seq<char>, outcome: Result<(NodeView, Cursor), Failure>) -> bool {
    outcome matches Ok((tree, end)) ==> tree.well_formed() && sound(s, end)
}

/// Whether every tree of `trees` is complete.
pub open spec fn all_well_formed(trees: Seq<NodeView>) -> bool {
    forall|k: int| 0 <= k < trees.len() ==> (#[trigger] trees[k]).well_formed()
}

/// Taking a token leaves a sound cursor sound.
pub proof fn lemma_advance_sound(s: Seq<char>, c: Cursor)
    requires
        sound(s, c),
    ensures
        advance(s, c) matches Ok(behind) ==> sound(s, behind),
        forall|expected: TokenView|
            (#[trigger] expect(s, c, expected)) matches Ok(behind) ==> sound(s, behind),
{
    lemma_scan_bounds(s, c.pos);
}

/// Behind the name of a function and its opening parenthesis the cursor is
/// still sound.
pub proof fn lemma_open_call_sound(s: Seq<char>, c: Cursor)
    requires
        sound(s, c),
    ensures
        open_call(s, c) matches Ok(inside) ==> sound(s, inside),
{
    lemma_advance_sound(s, c);
    if let Ok(behind_name) = advance(s, c) {
        lemma_advance_sound(s, behind_name);
    }
}

/// The tree of an expression is complete.
pub proof fn lemma_expression_complete(src: Source, c: Cursor, floor: OperPrec)
    requires
        sound(src.text, c),
    ensures
        complete(src.text, expression(src, c, floor)),
    decreases remaining(src.text, c), 3int,
{
    lemma_operand_complete(src, c);
    if let Ok((left, behind)) = forward(src.text, c, operand(src, c)) {
        lemma_climb_complete(src, left, behind, floor);
    }
}

/// Extending a complete tree to the right gives a complete tree.
pub proof fn lemma_climb_complete(src: Source, left: NodeView, c: Cursor, floor: OperPrec)
    requires
        sound(src.text, c),
        left.well_formed(),
    ensures
        complete(src.text, climb(src, left, c, floor)),
    decreases remaining(src.text, c), 2int,
{
    if floor.level() < precedence(c.token).level() {
        lemma_infix_complete(src, left, c);
        if let Ok((node, behind)) = forward(src.text, c, infix(src, left, c)) {
            lemma_climb_complete(src, node, behind, floor);
        }
    }
}

/// An operator applied to a complete tree gives a complete tree.
pub proof fn lemma_infix_complete(src: Source, left: NodeView, c: Cursor)
    requires
        sound(src.text, c),
        left.well_formed(),
    ensures
        complete(src.text, infix(src, left, c)),
    decreases remaining(src.text, c), 0int,
{
    lemma_advance_progress(src.text, c);
    lemma_advance_sound(src.text, c);
    if let Ok(behind) = advance(src.text, c) {
        if c.token is ExclamationMark {
            lemma_implicit_product_complete(
                src,
                NodeView::Unary(UnaryOp::Factorial, Box::new(left)),
                behind,
            );
        } else if postfix(c.token, left) is Some {
            assert(NodeView::Number(
                ValueView::Constant(Constant::RadiansPerDegree),
            ).well_formed());
            assert(NodeView::Number(
                ValueView::Constant(Constant::DegreesPerRadian),
            ).well_formed());
        } else if infix_operator(c.token) is Some {
            lemma_expression_complete(src, behind, precedence(c.token));
        }
    }
}

/// The implicit product of a complete tree with what follows is complete.
pub proof fn lemma_implicit_product_complete(src: Source, node: NodeView, c: Cursor)
    requires
        sound(src.text, c),
        node.well_formed(),
    ensures
        complete(src.text, implicit_product(src, node, c)),
    decreases remaining(src.text, c), 4int,
{
    if starts_operand(c.token) {
        lemma_expression_complete(src, c, OperPrec::MulDiv);
    }
}

/// The tree of an operand is complete.
pub proof fn lemma_operand_complete(src: Source, c: Cursor)
    requires
        sound(src.text, c),
    ensures
        complete(src.text, operand(src, c)),
    decreases remaining(src.text, c), 2int,
{
    lemma_advance_progress(src.text, c);
    lemma_advance_sound(src.text, c);
    if let Some(value) = number_of(c.token, src.answer) {
        lemma_number_complete(src, c, value);
    } else if let Some((closing, wrap)) = bracket(c.token) {
        lemma_enclosed_complete(src, c, closing, wrap);
    } else if c.token is Subtract || c.token is Add {
        if let Ok(behind) = advance(src.text, c) {
            lemma_expression_complete(src, behind, OperPrec::Negative);
        }
    } else {
        lemma_call_complete(src, c);
    }
}

/// The tree of a call, or of its implicit product, is complete.
pub proof fn lemma_call_complete(src: Source, c: Cursor)
    requires
        sound(src.text, c),
    ensures
        complete(src.text, call(src, c)),
    decreases remaining(src.text, c), 1int,
{
    if unary_function(c.token) is Some {
        lemma_one_argument_complete(src, c);
        if let Ok((argument, behind)) = forward(src.text, c, one_argument(src, c)) {
            lemma_implicit_product_complete(
                src,
                NodeView::Unary(unary_function(c.token)->0, Box::new(argument)),
                behind,
            );
        }
    } else if binary_function(c.token) is Some {
        lemma_two_arguments_complete(src, c);
        if let Ok(((first, second), behind)) = forward(src.text, c, two_arguments(src, c)) {
            lemma_implicit_product_complete(
                src,
                NodeView::Binary(binary_function(c.token)->0, Box::new(first), Box::new(second)),
                behind,
            );
        }
    } else if variadic_function(c.token) is Some {
        lemma_argument_list_complete(src, c);
        if let Ok((operands, behind)) = forward(src.text, c, argument_list(src, c)) {
            if operands.len() > 0 {
                lemma_implicit_product_complete(
                    src,
                    NodeView::Variadic(variadic_function(c.token)->0, operands),
                    behind,
                );
            }
        }
    }
}

/// The tree of a number leaf, or of its implicit product, is complete.
pub proof fn lemma_number_complete(src: Source, c: Cursor, value: ValueView)
    requires
        sound(src.text, c),
        !(c.token is Eof),
        value matches ValueView::Literal(text) ==> is_numeral(text),
    ensures
        complete(src.text, number(src, c, value)),
    decreases remaining(src.text, c), 0int,
{
    lemma_advance_progress(src.text, c);
    lemma_advance_sound(src.text, c);
    if let Ok(behind) = advance(src.text, c) {
        lemma_implicit_product_complete(src, NodeView::Number(value), behind);
    }
}

/// The tree of a bracketed expression, or of its implicit product, is
/// complete.
pub proof fn lemma_enclosed_complete(
    src: Source,
    c: Cursor,
    closing: TokenView,
    wrap: Option<UnaryOp>,
)
    requires
        sound(src.text, c),
        !(c.token is Eof),
    ensures
        complete(src.text, enclosed(src, c, closing, wrap)),
    decreases remaining(src.text, c), 0int,
{
    lemma_advance_progress(src.text, c);
    lemma_advance_sound(src.text, c);
    lemma_expect_progress(src.text);
    if let Ok(inside) = advance(src.text, c) {
        lemma_expression_complete(src, inside, OperPrec::DefaultZero);
        if let Ok((inner, at_closing)) = forward(
            src.text,
            c,
            expression(src, inside, OperPrec::DefaultZero),
        ) {
            lemma_advance_sound(src.text, at_closing);
            if let Ok(behind) = expect(src.text, at_closing, closing) {
                lemma_implicit_product_complete(src, wrapped(wrap, inner), behind);
            }
        }
    }
}

/// The argument of a call is a complete tree.
pub proof fn lemma_one_argument_complete(src: Source, c: Cursor)
    requires
        sound(src.text, c),
        !(c.token is Eof),
    ensures
        complete(src.text, one_argument(src, c)),
    decreases remaining(src.text, c), 0int,
{
    lemma_open_call_progress(src.text, c);
    lemma_open_call_sound(src.text, c);
    if let Ok(inside) = open_call(src.text, c) {
        lemma_expression_complete(src, inside, OperPrec::DefaultZero);
        if let Ok((argument, at_closing)) = expression(src, inside, OperPrec::DefaultZero) {
            lemma_advance_sound(src.text, at_closing);
        }
    }
}

/// The two arguments of a call are complete trees.
pub proof fn lemma_two_arguments_complete(src: Source, c: Cursor)
    requires
        sound(src.text, c),
        !(c.token is Eof),
    ensures
        two_arguments(src, c) matches Ok((arguments, end)) ==> {
            &&& arguments.0.well_formed()
            &&& arguments.1.well_formed()
            &&& sound(src.text, end)
        },
    decreases remaining(src.text, c), 0int,
{
    lemma_open_call_progress(src.text, c);
    lemma_open_call_sound(src.text, c);
    lemma_expect_progress(src.text);
    if let Ok(inside) = open_call(src.text, c) {
        lemma_expression_complete(src, inside, OperPrec::DefaultZero);
        if let Ok((first, at_comma)) = forward(
            src.text,
            c,
            expression(src, inside, OperPrec::DefaultZero),
        ) {
            lemma_advance_sound(src.text, at_comma);
            if let Ok(behind_comma) = expect(src.text, at_comma, TokenView::Comma) {
                lemma_expression_complete(src, behind_comma, OperPrec::DefaultZero);
                if let Ok((second, at_closing)) = expression(
                    src,
                    behind_comma,
                    OperPrec::DefaultZero,
                ) {
                    lemma_advance_sound(src.text, at_closing);
                }
            }
        }
    }
}

/// The arguments of a call are complete trees.
pub proof fn lemma_argument_list_complete(src: Source, c: Cursor)
    requires
        sound(src.text, c),
        !(c.token is Eof),
    ensures
        argument_list(src, c) matches Ok((operands, end)) ==> all_well_formed(operands) && sound(
            src.text,
            end,
        ),
    decreases remaining(src.text, c), 0int,
{
    lemma_open_call_progress(src.text, c);
    lemma_open_call_sound(src.text, c);
    if let Ok(inside) = open_call(src.text, c) {
        lemma_advance_sound(src.text, inside);
        if !(inside.token is RightParen) {
            lemma_arguments_complete(src, inside, Seq::empty());
        }
    }
}

/// Complete arguments, appended to complete arguments, are complete
/// arguments.
pub proof fn lemma_arguments_complete(src: Source, c: Cursor, done: Seq<NodeView>)
    requires
        sound(src.text, c),
        all_well_formed(done),
    ensures
        arguments(src, c, done) matches Ok((operands, end)) ==> all_well_formed(operands) && sound(
            src.text,
            end,
        ),
    decreases remaining(src.text, c), 4int,
{
    lemma_expect_progress(src.text);
    lemma_expression_complete(src, c, OperPrec::DefaultZero);
    if let Ok((argument, behind)) = forward(
        src.text,
        c,
        expression(src, c, OperPrec::DefaultZero),
    ) {
        lemma_advance_sound(src.text, behind);
        if behind.token is Comma {
            if let Ok(next) = advance(src.text, behind) {
                lemma_arguments_complete(src, next, done.push(argument));
            }
        }
    }
}

} // verus!
