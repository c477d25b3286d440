//! Plain arithmetic: literals, the four operations, signs and parentheses.
//!
//! This module writes down the customary reading of such expressions, level
//! by level, without any notion of binding power: a sum is a chain of
//! products, a product is a chain of atoms, and each chain is taken from the
//! left. It then shows that the precedence-climbing grammar reads every such
//! expression in just that way.

use crate::ast::{NodeView, UnaryOp, ValueView};
use crate::error::ParseErrorView;
use crate::grammar::{
    advance, climb, enclosed, expect, expression, forward, implicit_product, infix_operator,
    lemma_advance_progress, lemma_expect_progress, not_an_operand, number, operand, remaining,
    starts_operand, syntax_tree, Cursor, Failure, Source,
};
use crate::progress::{lemma_expression_progress, lemma_infix_progress, lemma_operand_progress};
use crate::token::{OperPrec, TokenView};
use crate::tokenizer::scan;
use vstd::prelude::*;

verus! {

/// An atom: a literal, a signed atom, or a sum in parentheses.
pub open spec fn atom(src: Source, c: Cursor) -> Result<(NodeView, Cursor), Failure>
    decreases remaining(src.text, c), 0int,
    via atom_decreases
{
    match c.token {
        TokenView::Num(text) => match advance(src.text, c) {
            Ok(behind) => Ok((NodeView::Number(ValueView::Literal(text)), behind)),
            Err(e) => Err(e),
        },
        TokenView::Subtract => match advance(src.text, c) {
            Ok(behind) => match atom(src, behind) {
                Ok((inner, end)) => Ok(
                    (NodeView::Unary(UnaryOp::Negative, Box::new(inner)), end),
                ),
                Err(e) => Err(e),
            },
            Err(e) => Err(e),
        },
        TokenView::Add => match advance(src.text, c) {
            Ok(behind) => atom(src, behind),
            Err(e) => Err(e),
        },
        TokenView::LeftParen => match advance(src.text, c) {
            Ok(inside) => match sum(src, inside) {
                Ok((inner, at_closing)) => match expect(
                    src.text,
                    at_closing,
                    TokenView::RightParen,
                ) {
                    Ok(behind) => Ok((inner, behind)),
                    Err(e) => Err(e),
                },
                Err(e) => Err(e),
            },
            Err(e) => Err(e),
        },
        _ => Err(Failure { error: not_an_operand(), at: c }),
    }
}

#[via_fn]
proof fn atom_decreases(src: Source, c: Cursor) {
    lemma_advance_progress(src.text, c);
}

/// Whether `token` multiplies or divides.
pub open spec fn is_multiplicative(token: TokenView) -> bool {
    token is Multiply || token is Divide
}

/// Whether `token` adds or subtracts.
pub open spec fn is_additive(token: TokenView) -> bool {
    token is Add || token is Subtract
}

/// A product: atoms joined by the multiplicative operators, taken from the
/// left.
pub open spec fn product(src: Source, c: Cursor) -> Result<(NodeView, Cursor), Failure>
    decreases remaining(src.text, c), 1int,
{
    match forward(src.text, c, atom(src, c)) {
        Ok((left, behind)) => product_rest(src, left, behind),
        Err(e) => Err(e),
    }
}

/// The product that begins with the product `left`.
pub open spec fn product_rest(src: Source, left: NodeView, c: Cursor) -> Result<
    (NodeView, Cursor),
    Failure,
>
    decreases remaining(src.text, c), 1int,
    via product_rest_decreases
{
    if is_multiplicative(c.token) {
        match advance(src.text, c) {
            Ok(behind) => match forward(src.text, c, atom(src, behind)) {
                Ok((right, end)) => product_rest(
                    src,
                    NodeView::Binary(infix_operator(c.token)->0, Box::new(left), Box::new(right)),
                    end,
                ),
                Err(e) => Err(e),
            },
            Err(e) => Err(e),
        }
    } else {
        Ok((left, c))
    }
}

#[via_fn]
proof fn product_rest_decreases(src: Source, left: NodeView, c: Cursor) {
    lemma_advance_progress(src.text, c);
}

/// A sum: products joined by the additive operators, taken from the left.
pub open spec fn sum(src: Source, c: Cursor) -> Result<(NodeView, Cursor), Failure>
    decreases remaining(src.text, c), 2int,
{
    match forward(src.text, c, product(src, c)) {
        Ok((left, behind)) => sum_rest(src, left, behind),
        Err(e) => Err(e),
    }
}

/// The sum that begins with the sum `left`.
pub open spec fn sum_rest(src: Source, left: NodeView, c: Cursor) -> Result<
    (NodeView, Cursor),
    Failure,
>
    decreases remaining(src.text, c), 2int,
    via sum_rest_decreases
{
    if is_additive(c.token) {
        match advance(src.text, c) {
            Ok(behind) => match forward(src.text, c, product(src, behind)) {
                Ok((right, end)) => sum_rest(
                    src,
                    NodeView::Binary(infix_operator(c.token)->0, Box::new(left), Box::new(right)),
                    end,
                ),
                Err(e) => Err(e),
            },
            Err(e) => Err(e),
        }
    } else {
        Ok((left, c))
    }
}

#[via_fn]
proof fn sum_rest_decreases(src: Source, left: NodeView, c: Cursor) {
    lemma_advance_progress(src.text, c);
}

/// The tree of `text` read as plain arithmetic, where the whole of `text` is
/// a sum.
pub open spec fn arithmetic(text: Seq<char>) -> Option<NodeView> {
    match scan(text, 0) {
        Some((token, pos)) => match sum(Source { text, answer: 0 }, Cursor { token, pos }) {
            Ok((tree, end)) => if end.token is Eof {
                Some(tree)
            } else {
                None
            },
            Err(_) => None,
        },
        None => None,
    }
}

/// A whole text of plain arithmetic is parsed as custom has it: products
/// before sums, and operators of one level from the left.
pub proof fn lemma_arithmetic_is_read_as_usual(text: Seq<char>, answer: u64)
    ensures
        arithmetic(text) matches Some(tree) ==> syntax_tree(text, answer) == Ok::<
            NodeView,
            ParseErrorView,
        >(tree),
{
    if let Some((token, pos)) = scan(text, 0) {
        let c = Cursor { token, pos };
        lemma_sum_ignores_the_answer(Source { text, answer: 0 }, Source { text, answer }, c);
        if let Ok((tree, end)) = sum(Source { text, answer }, c) {
            if end.token is Eof {
                lemma_sum_is_an_expression(Source { text, answer }, c);
            }
        }
    }
}

/// What may stand behind a sum within plain arithmetic: the closing
/// parenthesis or the end of the text.
pub open spec fn ends_sum(token: TokenView) -> bool {
    token is RightParen || token is Eof
}

/// What may stand behind a product within plain arithmetic.
pub open spec fn ends_product(token: TokenView) -> bool {
    is_additive(token) || ends_sum(token)
}

/// What may stand behind an atom within plain arithmetic.
pub open spec fn ends_atom(token: TokenView) -> bool {
    is_multiplicative(token) || ends_product(token)
}

/// Plain arithmetic never names the previous answer, so its reading does not
/// depend on it.
pub proof fn lemma_sum_ignores_the_answer(src: Source, other: Source, c: Cursor)
    requires
        src.text == other.text,
    ensures
        sum(src, c) == sum(other, c),
    decreases remaining(src.text, c), 2int,
{
    lemma_product_ignores_the_answer(src, other, c);
    if let Ok((left, behind)) = forward(src.text, c, product(src, c)) {
        lemma_sum_rest_ignores_the_answer(src, other, left, behind);
    }
}

/// The rest of a sum does not depend on the previous answer.
proof fn lemma_sum_rest_ignores_the_answer(src: Source, other: Source, left: NodeView, c: Cursor)
    requires
        src.text == other.text,
    ensures
        sum_rest(src, left, c) == sum_rest(other, left, c),
    decreases remaining(src.text, c), 2int,
{
    lemma_advance_progress(src.text, c);
    if is_additive(c.token) {
        if let Ok(behind) = advance(src.text, c) {
            lemma_product_ignores_the_answer(src, other, behind);
            if let Ok((right, end)) = forward(src.text, c, product(src, behind)) {
                lemma_sum_rest_ignores_the_answer(
                    src,
                    other,
                    NodeView::Binary(infix_operator(c.token)->0, Box::new(left), Box::new(right)),
                    end,
                );
            }
        }
    }
}

/// A product does not depend on the previous answer.
proof fn lemma_product_ignores_the_answer(src: Source, other: Source, c: Cursor)
    requires
        src.text == other.text,
    ensures
        product(src, c) == product(other, c),
    decreases remaining(src.text, c), 1int,
{
    lemma_atom_ignores_the_answer(src, other, c);
    if let Ok((left, behind)) = forward(src.text, c, atom(src, c)) {
        lemma_product_rest_ignores_the_answer(src, other, left, behind);
    }
}

/// The rest of a product does not depend on the previous answer.
proof fn lemma_product_rest_ignores_the_answer(
    src: Source,
    other: Source,
    left: NodeView,
    c: Cursor,
)
    requires
        src.text == other.text,
    ensures
        product_rest(src, left, c) == product_rest(other, left, c),
    decreases remaining(src.text, c), 1int,
{
    lemma_advance_progress(src.text, c);
    if is_multiplicative(c.token) {
        if let Ok(behind) = advance(src.text, c) {
            lemma_atom_ignores_the_answer(src, other, behind);
            if let Ok((right, end)) = forward(src.text, c, atom(src, behind)) {
                lemma_product_rest_ignores_the_answer(
                    src,
                    other,
                    NodeView::Binary(infix_operator(c.token)->0, Box::new(left), Box::new(right)),
                    end,
                );
            }
        }
    }
}

/// An atom does not depend on the previous answer.
proof fn lemma_atom_ignores_the_answer(src: Source, other: Source, c: Cursor)
    requires
        src.text == other.text,
    ensures
        atom(src, c) == atom(other, c),
    decreases remaining(src.text, c), 0int,
{
    lemma_advance_progress(src.text, c);
    if let Ok(behind) = advance(src.text, c) {
        match c.token {
            TokenView::Subtract | TokenView::Add => lemma_atom_ignores_the_answer(
                src,
                other,
                behind,
            ),
            TokenView::LeftParen => lemma_sum_ignores_the_answer(src, other, behind),
            _ => {},
        }
    }
}

/// The rest of a product ends where no multiplicative operator follows.
proof fn lemma_product_rest_end(src: Source, left: NodeView, c: Cursor)
    ensures
        product_rest(src, left, c) matches Ok((_, end)) ==> !is_multiplicative(end.token),
    decreases remaining(src.text, c), 1int,
{
    lemma_advance_progress(src.text, c);
    if is_multiplicative(c.token) {
        if let Ok(behind) = advance(src.text, c) {
            if let Ok((right, end)) = forward(src.text, c, atom(src, behind)) {
                lemma_product_rest_end(
                    src,
                    NodeView::Binary(infix_operator(c.token)->0, Box::new(left), Box::new(right)),
                    end,
                );
            }
        }
    }
}

/// An atom, followed by what may follow an atom in plain arithmetic, is an
/// operand of the grammar, and an expression at the binding power of a sign
/// or of multiplication.
proof fn lemma_atom_is_an_operand(src: Source, c: Cursor)
    requires
        atom(src, c) matches Ok((_, end)) && ends_atom(end.token),
    ensures
        operand(src, c) == atom(src, c),
        expression(src, c, OperPrec::Negative) == atom(src, c),
        expression(src, c, OperPrec::MulDiv) == atom(src, c),
    decreases remaining(src.text, c), 0int,
{
    lemma_advance_progress(src.text, c);
    lemma_expect_progress(src.text);
    lemma_operand_progress(src, c);
    let behind = advance(src.text, c)->Ok_0;
    let (tree, end) = atom(src, c)->Ok_0;
    assert(!starts_operand(end.token));
    assert(implicit_product(src, tree, end) == atom(src, c));
    match c.token {
        TokenView::Num(text) => {
            assert(number(src, c, ValueView::Literal(text)) == atom(src, c));
        },
        TokenView::Subtract | TokenView::Add => {
            lemma_atom_is_an_operand(src, behind);
        },
        TokenView::LeftParen => {
            lemma_sum_is_an_expression(src, behind);
            lemma_expression_progress(src, behind, OperPrec::DefaultZero);
            assert(enclosed(src, c, TokenView::RightParen, None) == atom(src, c));
        },
        _ => {},
    }
    assert(operand(src, c) == atom(src, c));
    assert(climb(src, tree, end, OperPrec::Negative) == atom(src, c));
    assert(climb(src, tree, end, OperPrec::MulDiv) == atom(src, c));
}

/// Climbing from a product at the binding power of addition goes as far as
/// the product goes. At no binding power, the climb goes on from there.
proof fn lemma_product_rest_is_a_climb(src: Source, left: NodeView, c: Cursor)
    requires
        product_rest(src, left, c) matches Ok((_, end)) && ends_product(end.token),
    ensures
        climb(src, left, c, OperPrec::AddSub) == product_rest(src, left, c),
        product_rest(src, left, c) matches Ok((whole, end)) && climb(
            src,
            left,
            c,
            OperPrec::DefaultZero,
        ) == climb(src, whole, end, OperPrec::DefaultZero),
    decreases remaining(src.text, c), 1int,
{
    lemma_advance_progress(src.text, c);
    lemma_infix_progress(src, left, c);
    if is_multiplicative(c.token) {
        let behind = advance(src.text, c)->Ok_0;
        let (right, end) = atom(src, behind)->Ok_0;
        let joined = NodeView::Binary(
            infix_operator(c.token)->0,
            Box::new(left),
            Box::new(right),
        );
        lemma_product_rest_end(src, joined, end);
        lemma_atom_is_an_operand(src, behind);
        lemma_product_rest_is_a_climb(src, joined, end);
    }
}

/// A product, followed by what may follow a product in plain arithmetic, is
/// an expression at the binding power of addition. At no binding power, the
/// expression goes on from it.
proof fn lemma_product_is_an_expression(src: Source, c: Cursor)
    requires
        product(src, c) matches Ok((_, end)) && ends_product(end.token),
    ensures
        expression(src, c, OperPrec::AddSub) == product(src, c),
        product(src, c) matches Ok((whole, end)) && expression(src, c, OperPrec::DefaultZero)
            == climb(src, whole, end, OperPrec::DefaultZero),
    decreases remaining(src.text, c), 1int,
{
    let (left, behind) = atom(src, c)->Ok_0;
    lemma_product_rest_end(src, left, behind);
    lemma_atom_is_an_operand(src, c);
    lemma_operand_progress(src, c);
    lemma_product_rest_is_a_climb(src, left, behind);
}

/// Climbing from a sum at no binding power goes as far as the sum goes.
proof fn lemma_sum_rest_is_a_climb(src: Source, left: NodeView, c: Cursor)
    requires
        !is_multiplicative(c.token),
        sum_rest(src, left, c) matches Ok((_, end)) && ends_sum(end.token),
    ensures
        climb(src, left, c, OperPrec::DefaultZero) == sum_rest(src, left, c),
    decreases remaining(src.text, c), 2int,
{
    lemma_advance_progress(src.text, c);
    lemma_infix_progress(src, left, c);
    if is_additive(c.token) {
        let behind = advance(src.text, c)->Ok_0;
        let (right, end) = product(src, behind)->Ok_0;
        let joined = NodeView::Binary(
            infix_operator(c.token)->0,
            Box::new(left),
            Box::new(right),
        );
        lemma_product_end(src, behind);
        assert(sum_rest(src, joined, end) is Ok);
        lemma_product_is_an_expression(src, behind);
        lemma_sum_rest_is_a_climb(src, joined, end);
    }
}

/// A product ends where no multiplicative operator follows.
proof fn lemma_product_end(src: Source, c: Cursor)
    ensures
        product(src, c) matches Ok((_, end)) ==> !is_multiplicative(end.token),
{
    if let Ok((left, behind)) = forward(src.text, c, atom(src, c)) {
        lemma_product_rest_end(src, left, behind);
    }
}

/// A sum, followed by what may follow a sum in plain arithmetic, is an
/// expression of the grammar.
pub proof fn lemma_sum_is_an_expression(src: Source, c: Cursor)
    requires
        sum(src, c) matches Ok((_, end)) && ends_sum(end.token),
    ensures
        expression(src, c, OperPrec::DefaultZero) == sum(src, c),
    decreases remaining(src.text, c), 2int,
{
    let (left, behind) = product(src, c)->Ok_0;
    lemma_product_end(src, c);
    lemma_product_is_an_expression(src, c);
    lemma_sum_rest_is_a_climb(src, left, behind);
}

} // verus!
