//! The numbers of an expression keep their places: read from left to right,
//! the leaves of its tree are the numbers that the tokens of its text stand
//! for, each of them once and in the order of the text.

use crate::ast::{BinaryOp, Constant, NodeView, UnaryOp, ValueView};
use crate::grammar::{
    advance, argument_list, arguments, binary_function, bracket, call, climb, enclosed, expect,
    expression, forward, implicit_product, infix, infix_operator, lemma_advance_progress,
    lemma_open_call_progress, number, number_of, one_argument, open_call, operand, postfix,
    remaining, starts_operand, two_arguments, unary_function, variadic_function, wrapped, Cursor,
    Source,
};
use crate::token::{precedence, OperPrec, TokenView};
use vstd::prelude::*;

verus! {

/// The leaves of a tree, from left to right.
pub open spec fn leaves(tree: NodeView) -> Seq<ValueView>
    decreases tree,
{
    match tree {
        NodeView::Number(value) => seq![value],
        NodeView::Unary(_, operand) => leaves(*operand),
        NodeView::Binary(_, left, right) => leaves(*left) + leaves(*right),
        NodeView::Variadic(_, operands) => leaves_of_all(operands),
    }
}

/// The leaves of a sequence of trees, from left to right.
pub open spec fn leaves_of_all(trees: Seq<NodeView>) -> Seq<ValueView>
    decreases trees,
{
    if trees.len() == 0 {
        Seq::empty()
    } else {
        leaves_of_all(trees.drop_last()) + leaves(trees.last())
    }
}

/// The number that a token brings into the tree: its own for a literal, the
/// previous answer and a named constant, its factor for an angle mark, and
/// none for any other token.
pub open spec fn numbers_of(token: TokenView, answer: u64) -> Seq<ValueView> {
    match number_of(token, answer) {
        Some(value) => seq![value],
        None => match token {
            TokenView::DegToRad => seq![ValueView::Constant(Constant::RadiansPerDegree)],
            TokenView::RadToDeg => seq![ValueView::Constant(Constant::DegreesPerRadian)],
            _ => Seq::empty(),
        },
    }
}

/// Whether taking tokens one by one leads from the cursor `c` to the cursor
/// `end`.
pub open spec fn reaches(src: Source, c: Cursor, end: Cursor) -> bool
    decreases remaining(src.text, c),
    via reaches_decreases
{
    c == end || (!(c.token is Eof) && match advance(src.text, c) {
        Ok(next) => reaches(src, next, end),
        Err(_) => false,
    })
}

#[via_fn]
proof fn reaches_decreases(src: Source, c: Cursor, end: Cursor) {
    lemma_advance_progress(src.text, c);
}

/// The numbers that the tokens from the cursor `c` up to the cursor `end`
/// stand for, the token at `end` left out.
pub open spec fn numbers_between(src: Source, c: Cursor, end: Cursor) -> Seq<ValueView>
    decreases remaining(src.text, c),
    via numbers_between_decreases
{
    if c == end || c.token is Eof {
        Seq::empty()
    } else {
        match advance(src.text, c) {
            Ok(next) => numbers_of(c.token, src.answer) + numbers_between(src, next, end),
            Err(_) => numbers_of(c.token, src.answer),
        }
    }
}

#[via_fn]
proof fn numbers_between_decreases(src: Source, c: Cursor, end: Cursor) {
    lemma_advance_progress(src.text, c);
}

/// Whether a successful outcome holds a tree whose leaves are `before`
/// followed by the numbers of the tokens that the parse took.
pub open spec fn in_order<E>(
    src: Source,
    before: Seq<ValueView>,
    c: Cursor,
    outcome: Result<(NodeView, Cursor), E>,
) -> bool {
    outcome matches Ok((tree, end)) ==> {
        &&& reaches(src, c, end)
        &&& leaves(tree) == before + numbers_between(src, c, end)
    }
}

/// Whether a successful outcome holds trees whose leaves are `before`
/// followed by the numbers of the tokens that the parse took.
pub open spec fn all_in_order<E>(
    src: Source,
    before: Seq<ValueView>,
    c: Cursor,
    outcome: Result<(Seq<NodeView>, Cursor), E>,
) -> bool {
    outcome matches Ok((trees, end)) ==> {
        &&& reaches(src, c, end)
        &&& leaves_of_all(trees) == before + numbers_between(src, c, end)
    }
}

/// A cursor that is reached lies no farther from the end of the text, and
/// nearer unless it is the cursor that the way began at.
pub proof fn lemma_reaches_nearer(src: Source, c: Cursor, end: Cursor)
    requires
        reaches(src, c, end),
    ensures
        remaining(src.text, end) <= remaining(src.text, c),
        c != end ==> remaining(src.text, end) < remaining(src.text, c),
    decreases remaining(src.text, c),
{
    lemma_advance_progress(src.text, c);
    if c != end {
        lemma_reaches_nearer(src, advance(src.text, c)->Ok_0, end);
    }
}

/// Two ways, one after the other, are one way, and the numbers along it are
/// those along the first followed by those along the second.
pub proof fn lemma_ways_join(src: Source, c: Cursor, mid: Cursor, end: Cursor)
    requires
        reaches(src, c, mid),
        reaches(src, mid, end),
    ensures
        reaches(src, c, end),
        numbers_between(src, c, end) == numbers_between(src, c, mid) + numbers_between(
            src,
            mid,
            end,
        ),
    decreases remaining(src.text, c),
{
    lemma_advance_progress(src.text, c);
    if c == mid {
        assert(numbers_between(src, c, mid) =~= Seq::<ValueView>::empty());
        assert(numbers_between(src, c, end) =~= numbers_between(src, c, mid) + numbers_between(
            src,
            mid,
            end,
        ));
    } else {
        let next = advance(src.text, c)->Ok_0;
        lemma_ways_join(src, next, mid, end);
        lemma_reaches_nearer(src, c, mid);
        lemma_reaches_nearer(src, mid, end);
        assert(c != end);
        assert(numbers_between(src, c, end) =~= numbers_between(src, c, mid) + numbers_between(
            src,
            mid,
            end,
        ));
    }
}

/// Taking one token is a way, and the number along it is that of the token.
pub proof fn lemma_one_step(src: Source, c: Cursor)
    requires
        !(c.token is Eof),
    ensures
        advance(src.text, c) matches Ok(next) ==> {
            &&& reaches(src, c, next)
            &&& numbers_between(src, c, next) == numbers_of(c.token, src.answer)
        },
{
    lemma_advance_progress(src.text, c);
    if let Ok(next) = advance(src.text, c) {
        assert(reaches(src, next, next));
        assert(numbers_between(src, next, next) =~= Seq::<ValueView>::empty());
        assert(numbers_between(src, c, next) =~= numbers_of(c.token, src.answer));
    }
}

/// Taking a token that stands for no number is a way without numbers.
pub proof fn lemma_expect_step(src: Source, c: Cursor, expected: TokenView)
    requires
        numbers_of(expected, src.answer).len() == 0,
        !(expected is Eof),
    ensures
        expect(src.text, c, expected) matches Ok(next) ==> {
            &&& reaches(src, c, next)
            &&& numbers_between(src, c, next) == Seq::<ValueView>::empty()
        },
{
    if c.token == expected {
        lemma_one_step(src, c);
    }
}

/// Taking the name of a function and its opening parenthesis is a way
/// without numbers.
pub proof fn lemma_open_call_step(src: Source, c: Cursor)
    requires
        !(c.token is Eof),
        numbers_of(c.token, src.answer).len() == 0,
    ensures
        open_call(src.text, c) matches Ok(inside) ==> {
            &&& reaches(src, c, inside)
            &&& numbers_between(src, c, inside) == Seq::<ValueView>::empty()
        },
{
    lemma_one_step(src, c);
    if let Ok(behind_name) = advance(src.text, c) {
        lemma_expect_step(src, behind_name, TokenView::LeftParen);
        if let Ok(inside) = expect(src.text, behind_name, TokenView::LeftParen) {
            lemma_ways_join(src, c, behind_name, inside);
        }
    }
}

/// The leaves of an expression are the numbers of its tokens, in their
/// order.
pub proof fn lemma_expression_in_order(src: Source, c: Cursor, floor: OperPrec)
    ensures
        in_order(src, Seq::empty(), c, expression(src, c, floor)),
    decreases remaining(src.text, c), 3int,
{
    lemma_operand_in_order(src, c);
    if let Ok((left, behind)) = forward(src.text, c, operand(src, c)) {
        lemma_climb_in_order(src, left, behind, floor);
        if let Ok((tree, end)) = climb(src, left, behind, floor) {
            lemma_ways_join(src, c, behind, end);
            assert(leaves(tree) =~= Seq::<ValueView>::empty() + numbers_between(src, c, end));
        }
    }
}

/// Extending a tree to the right appends the numbers of the tokens taken to
/// its leaves.
pub proof fn lemma_climb_in_order(src: Source, left: NodeView, c: Cursor, floor: OperPrec)
    ensures
        in_order(src, leaves(left), c, climb(src, left, c, floor)),
    decreases remaining(src.text, c), 2int,
{
    if floor.level() < precedence(c.token).level() {
        lemma_infix_in_order(src, left, c);
        if let Ok((node, behind)) = forward(src.text, c, infix(src, left, c)) {
            lemma_climb_in_order(src, node, behind, floor);
            if let Ok((tree, end)) = climb(src, node, behind, floor) {
                lemma_ways_join(src, c, behind, end);
                assert(leaves(tree) =~= leaves(left) + numbers_between(src, c, end));
            }
        }
    } else {
        assert(leaves(left) =~= leaves(left) + numbers_between(src, c, c));
    }
}

/// Applying an operator appends the numbers of the tokens taken to the leaves
/// of its left operand.
pub proof fn lemma_infix_in_order(src: Source, left: NodeView, c: Cursor)
    ensures
        in_order(src, leaves(left), c, infix(src, left, c)),
    decreases remaining(src.text, c), 0int,
{
    lemma_advance_progress(src.text, c);
    if c.token is Eof {
    } else if let Ok(behind) = advance(src.text, c) {
        lemma_one_step(src, c);
        if c.token is ExclamationMark {
            let node = NodeView::Unary(UnaryOp::Factorial, Box::new(left));
            lemma_implicit_product_in_order(src, node, behind);
            if let Ok((tree, end)) = implicit_product(src, node, behind) {
                lemma_ways_join(src, c, behind, end);
                assert(leaves(tree) =~= leaves(left) + numbers_between(src, c, end));
            }
        } else if postfix(c.token, left) is Some {
            let tree = postfix(c.token, left)->0;
            let to_radians = ValueView::Constant(Constant::RadiansPerDegree);
            let to_degrees = ValueView::Constant(Constant::DegreesPerRadian);
            assert(leaves(NodeView::Number(to_radians)) == seq![to_radians]);
            assert(leaves(NodeView::Number(to_degrees)) == seq![to_degrees]);
            assert(leaves(tree) =~= leaves(left) + numbers_of(c.token, src.answer));
        } else if infix_operator(c.token) is Some {
            lemma_expression_in_order(src, behind, precedence(c.token));
            if let Ok((right, end)) = expression(src, behind, precedence(c.token)) {
                lemma_ways_join(src, c, behind, end);
                let tree = NodeView::Binary(
                    infix_operator(c.token)->0,
                    Box::new(left),
                    Box::new(right),
                );
                assert(leaves(tree) =~= leaves(left) + numbers_between(src, c, end));
            }
        }
    }
}

/// An implicit product appends the numbers of the tokens taken to the leaves
/// of its left operand.
pub proof fn lemma_implicit_product_in_order(src: Source, node: NodeView, c: Cursor)
    ensures
        in_order(src, leaves(node), c, implicit_product(src, node, c)),
    decreases remaining(src.text, c), 4int,
{
    if starts_operand(c.token) {
        lemma_expression_in_order(src, c, OperPrec::MulDiv);
        if let Ok((right, end)) = expression(src, c, OperPrec::MulDiv) {
            let tree = NodeView::Binary(BinaryOp::Multiply, Box::new(node), Box::new(right));
            assert(leaves(tree) =~= leaves(node) + numbers_between(src, c, end));
        }
    } else {
        assert(leaves(node) =~= leaves(node) + numbers_between(src, c, c));
    }
}

/// The leaves of an operand are the numbers of its tokens, in their order.
pub proof fn lemma_operand_in_order(src: Source, c: Cursor)
    ensures
        in_order(src, Seq::empty(), c, operand(src, c)),
    decreases remaining(src.text, c), 2int,
{
    lemma_advance_progress(src.text, c);
    let none = Seq::<ValueView>::empty();
    if let Some(value) = number_of(c.token, src.answer) {
        lemma_number_in_order(src, c, value);
    } else if let Some((closing, wrap)) = bracket(c.token) {
        lemma_enclosed_in_order(src, c, closing, wrap);
    } else if c.token is Subtract || c.token is Add {
        lemma_one_step(src, c);
        if let Ok(behind) = advance(src.text, c) {
            lemma_expression_in_order(src, behind, OperPrec::Negative);
            if let Ok((inner, end)) = expression(src, behind, OperPrec::Negative) {
                lemma_ways_join(src, c, behind, end);
                assert(leaves(inner) =~= none + numbers_between(src, c, end));
            }
        }
    } else {
        lemma_call_in_order(src, c);
    }
}

/// The leaves of a call, or of its implicit product, are the numbers of its
/// tokens, in their order.
pub proof fn lemma_call_in_order(src: Source, c: Cursor)
    ensures
        in_order(src, Seq::empty(), c, call(src, c)),
    decreases remaining(src.text, c), 1int,
{
    if unary_function(c.token) is Some {
        lemma_one_argument_in_order(src, c);
        if let Ok((argument, behind)) = forward(src.text, c, one_argument(src, c)) {
            let node = NodeView::Unary(unary_function(c.token)->0, Box::new(argument));
            lemma_followed_in_order(src, c, node, behind);
        }
    } else if binary_function(c.token) is Some {
        lemma_two_arguments_in_order(src, c);
        if let Ok(((first, second), behind)) = forward(src.text, c, two_arguments(src, c)) {
            let node = NodeView::Binary(
                binary_function(c.token)->0,
                Box::new(first),
                Box::new(second),
            );
            lemma_followed_in_order(src, c, node, behind);
        }
    } else if variadic_function(c.token) is Some {
        lemma_argument_list_in_order(src, c);
        if let Ok((operands, behind)) = forward(src.text, c, argument_list(src, c)) {
            let node = NodeView::Variadic(variadic_function(c.token)->0, operands);
            lemma_followed_in_order(src, c, node, behind);
        }
    }
}

/// Where the leaves of a tree are the numbers of its tokens, so are those of
/// its implicit product with what follows.
proof fn lemma_followed_in_order(src: Source, c: Cursor, node: NodeView, behind: Cursor)
    requires
        reaches(src, c, behind),
        leaves(node) == numbers_between(src, c, behind),
    ensures
        in_order(src, Seq::empty(), c, implicit_product(src, node, behind)),
    decreases remaining(src.text, behind), 5int,
{
    lemma_implicit_product_in_order(src, node, behind);
    if let Ok((tree, end)) = implicit_product(src, node, behind) {
        lemma_ways_join(src, c, behind, end);
        assert(leaves(tree) =~= Seq::<ValueView>::empty() + numbers_between(src, c, end));
    }
}

/// The leaves of a number leaf, or of its implicit product, are the numbers
/// of its tokens, in their order.
pub proof fn lemma_number_in_order(src: Source, c: Cursor, value: ValueView)
    requires
        !(c.token is Eof),
        numbers_of(c.token, src.answer) == seq![value],
    ensures
        in_order(src, Seq::empty(), c, number(src, c, value)),
    decreases remaining(src.text, c), 0int,
{
    lemma_advance_progress(src.text, c);
    lemma_one_step(src, c);
    if let Ok(behind) = advance(src.text, c) {
        lemma_followed_in_order(src, c, NodeView::Number(value), behind);
    }
}

/// The leaves of a bracketed expression, or of its implicit product, are the
/// numbers of its tokens, in their order.
pub proof fn lemma_enclosed_in_order(
    src: Source,
    c: Cursor,
    closing: TokenView,
    wrap: Option<UnaryOp>,
)
    requires
        !(c.token is Eof),
        numbers_of(c.token, src.answer).len() == 0,
        numbers_of(closing, src.answer).len() == 0,
        !(closing is Eof),
    ensures
        in_order(src, Seq::empty(), c, enclosed(src, c, closing, wrap)),
    decreases remaining(src.text, c), 0int,
{
    lemma_advance_progress(src.text, c);
    lemma_one_step(src, c);
    if let Ok(inside) = advance(src.text, c) {
        lemma_expression_in_order(src, inside, OperPrec::DefaultZero);
        if let Ok((inner, at_closing)) = forward(
            src.text,
            c,
            expression(src, inside, OperPrec::DefaultZero),
        ) {
            lemma_expect_step(src, at_closing, closing);
            if let Ok(behind) = expect(src.text, at_closing, closing) {
                lemma_ways_join(src, c, inside, at_closing);
                lemma_ways_join(src, c, at_closing, behind);
                lemma_advance_progress(src.text, at_closing);
                assert(leaves(wrapped(wrap, inner)) =~= numbers_between(src, c, behind));
                lemma_followed_in_order(src, c, wrapped(wrap, inner), behind);
            }
        }
    }
}

/// The leaves of the argument of a call are the numbers of the tokens of the
/// call, in their order.
pub proof fn lemma_one_argument_in_order(src: Source, c: Cursor)
    requires
        !(c.token is Eof),
        numbers_of(c.token, src.answer).len() == 0,
    ensures
        in_order(src, Seq::empty(), c, one_argument(src, c)),
    decreases remaining(src.text, c), 0int,
{
    lemma_open_call_step(src, c);
    lemma_open_call_progress(src.text, c);
    if let Ok(inside) = open_call(src.text, c) {
        lemma_expression_in_order(src, inside, OperPrec::DefaultZero);
        if let Ok((argument, at_closing)) = expression(src, inside, OperPrec::DefaultZero) {
            lemma_expect_step(src, at_closing, TokenView::RightParen);
            if let Ok(behind) = expect(src.text, at_closing, TokenView::RightParen) {
                lemma_ways_join(src, c, inside, at_closing);
                lemma_ways_join(src, c, at_closing, behind);
                assert(leaves(argument) =~= Seq::<ValueView>::empty() + numbers_between(
                    src,
                    c,
                    behind,
                ));
            }
        }
    }
}

/// The leaves of the two arguments of a call are the numbers of the tokens of
/// the call, in their order.
pub proof fn lemma_two_arguments_in_order(src: Source, c: Cursor)
    requires
        !(c.token is Eof),
        numbers_of(c.token, src.answer).len() == 0,
    ensures
        two_arguments(src, c) matches Ok((arguments, end)) ==> {
            &&& reaches(src, c, end)
            &&& leaves(arguments.0) + leaves(arguments.1) == numbers_between(src, c, end)
        },
    decreases remaining(src.text, c), 0int,
{
    lemma_open_call_step(src, c);
    lemma_open_call_progress(src.text, c);
    if let Ok(inside) = open_call(src.text, c) {
        lemma_expression_in_order(src, inside, OperPrec::DefaultZero);
        if let Ok((first, at_comma)) = forward(
            src.text,
            c,
            expression(src, inside, OperPrec::DefaultZero),
        ) {
            lemma_expect_step(src, at_comma, TokenView::Comma);
            if let Ok(behind_comma) = expect(src.text, at_comma, TokenView::Comma) {
                lemma_ways_join(src, c, inside, at_comma);
                lemma_ways_join(src, c, at_comma, behind_comma);
                lemma_advance_progress(src.text, at_comma);
                lemma_expression_in_order(src, behind_comma, OperPrec::DefaultZero);
                if let Ok((second, at_closing)) = expression(
                    src,
                    behind_comma,
                    OperPrec::DefaultZero,
                ) {
                    lemma_expect_step(src, at_closing, TokenView::RightParen);
                    if let Ok(behind) = expect(src.text, at_closing, TokenView::RightParen) {
                        lemma_ways_join(src, c, behind_comma, at_closing);
                        lemma_ways_join(src, c, at_closing, behind);
                        assert(leaves(first) + leaves(second) =~= numbers_between(
                            src,
                            c,
                            behind,
                        ));
                    }
                }
            }
        }
    }
}

/// The leaves of the arguments of a call are the numbers of the tokens of the
/// call, in their order.
pub proof fn lemma_argument_list_in_order(src: Source, c: Cursor)
    requires
        !(c.token is Eof),
        numbers_of(c.token, src.answer).len() == 0,
    ensures
        all_in_order(src, Seq::empty(), c, argument_list(src, c)),
    decreases remaining(src.text, c), 0int,
{
    lemma_open_call_step(src, c);
    lemma_open_call_progress(src.text, c);
    let none = Seq::<ValueView>::empty();
    if let Ok(inside) = open_call(src.text, c) {
        if inside.token is RightParen {
            lemma_one_step(src, inside);
            if let Ok(behind) = advance(src.text, inside) {
                lemma_ways_join(src, c, inside, behind);
                assert(leaves_of_all(Seq::<NodeView>::empty()) =~= none + numbers_between(
                    src,
                    c,
                    behind,
                ));
            }
        } else {
            lemma_arguments_in_order(src, inside, Seq::empty());
            if let Ok((operands, end)) = arguments(src, inside, Seq::empty()) {
                lemma_ways_join(src, c, inside, end);
                assert(leaves_of_all(operands) =~= none + numbers_between(src, c, end));
            }
        }
    }
}

/// Arguments that are parsed append the numbers of their tokens to the leaves
/// of those that were done before.
pub proof fn lemma_arguments_in_order(src: Source, c: Cursor, done: Seq<NodeView>)
    ensures
        all_in_order(src, leaves_of_all(done), c, arguments(src, c, done)),
    decreases remaining(src.text, c), 4int,
{
    lemma_expression_in_order(src, c, OperPrec::DefaultZero);
    if let Ok((argument, behind)) = forward(
        src.text,
        c,
        expression(src, c, OperPrec::DefaultZero),
    ) {
        let more = done.push(argument);
        assert(more.drop_last() =~= done);
        assert(leaves_of_all(more) =~= leaves_of_all(done) + numbers_between(src, c, behind));
        lemma_advance_progress(src.text, behind);
        if behind.token is Comma || behind.token is RightParen {
            lemma_one_step(src, behind);
            if let Ok(next) = advance(src.text, behind) {
                lemma_ways_join(src, c, behind, next);
                if behind.token is Comma {
                    lemma_arguments_in_order(src, next, more);
                    if let Ok((operands, end)) = arguments(src, next, more) {
                        lemma_ways_join(src, c, next, end);
                        assert(leaves_of_all(operands) =~= leaves_of_all(done)
                            + numbers_between(src, c, end));
                    }
                } else {
                    assert(leaves_of_all(more) =~= leaves_of_all(done) + numbers_between(
                        src,
                        c,
                        next,
                    ));
                }
            }
        }
    }
}

} // verus!
