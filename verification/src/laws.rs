//! What holds of the parser as a whole.

use crate::arithmetic::{arithmetic, lemma_arithmetic_is_read_as_usual};
use crate::ast::{Node, NodeView, ValueView};
use crate::completeness::lemma_expression_complete;
use crate::error::ParseError;
use crate::grammar::{
    argument_list, arguments, expression, forward, infix, one_argument, operand, remaining,
    syntax_tree, two_arguments, Cursor, Source,
};
use crate::leaves::{leaves, lemma_expression_in_order, numbers_between};
use crate::parser::{agrees, parses_to};
use crate::progress::{
    lemma_argument_list_progress, lemma_arguments_progress, lemma_expression_progress,
    lemma_infix_progress, lemma_one_argument_progress, lemma_operand_progress,
    lemma_two_arguments_progress,
};
use crate::token::{OperPrec, TokenView};
use crate::tokenizer::{lemma_scan_bounds, scan};
use crate::whitespace::without_whitespace;
use vstd::prelude::*;

verus! {

/// Every parse that succeeds takes something from the input, so [`forward`]
/// never turns a success into a failure: applied to a parse that began at `c`,
/// no farther from the end of the text than `from`, it yields the outcome of
/// that parse. This is how the grammar applies it throughout.
pub proof fn lemma_forward_changes_nothing(
    src: Source,
    from: Cursor,
    c: Cursor,
    floor: OperPrec,
    left: NodeView,
    done: Seq<NodeView>,
)
    requires
        remaining(src.text, c) <= remaining(src.text, from),
    ensures
        forward(src.text, from, operand(src, c)) == operand(src, c),
        forward(src.text, from, infix(src, left, c)) == infix(src, left, c),
        forward(src.text, from, expression(src, c, floor)) == expression(src, c, floor),
        forward(src.text, from, arguments(src, c, done)) == arguments(src, c, done),
        !(c.token is Eof) ==> {
            &&& forward(src.text, from, one_argument(src, c)) == one_argument(src, c)
            &&& forward(src.text, from, two_arguments(src, c)) == two_arguments(src, c)
            &&& forward(src.text, from, argument_list(src, c)) == argument_list(src, c)
        },
{
    lemma_operand_progress(src, c);
    lemma_infix_progress(src, left, c);
    lemma_expression_progress(src, c, floor);
    lemma_arguments_progress(src, c, done);
    if !(c.token is Eof) {
        lemma_one_argument_progress(src, c);
        lemma_two_arguments_progress(src, c);
        lemma_argument_list_progress(src, c);
    }
}

/// The tree that the grammar finds in a text is complete: each of its
/// literals is a well-formed numeral, and no operation in it lacks an operand.
pub proof fn lemma_syntax_tree_is_complete(text: Seq<char>, answer: u64)
    ensures
        syntax_tree(text, answer) matches Ok(tree) ==> tree.well_formed(),
{
    lemma_scan_bounds(text, 0);
    if let Some((token, pos)) = scan(text, 0) {
        lemma_expression_complete(
            Source { text, answer },
            Cursor { token, pos },
            OperPrec::DefaultZero,
        );
    }
}

/// The numbers that the tokens of `text` stand for, in the order of the text.
pub open spec fn numbers(text: Seq<char>, answer: u64) -> Seq<ValueView> {
    match scan(text, 0) {
        Some((token, pos)) => numbers_between(
            Source { text, answer },
            Cursor { token, pos },
            Cursor { token: TokenView::Eof, pos: text.len() as int },
        ),
        None => Seq::empty(),
    }
}

/// The numbers of an expression keep their places. Where the expression is
/// the whole of its text, the leaves of its tree, read from left to right,
/// are the numbers that the tokens of the text stand for: none is lost, none
/// is made up, and none changes places with another.
pub proof fn lemma_numbers_keep_their_places(text: Seq<char>, answer: u64)
    ensures
        match scan(text, 0) {
            Some((token, pos)) => match expression(
                Source { text, answer },
                Cursor { token, pos },
                OperPrec::DefaultZero,
            ) {
                Ok((tree, end)) => end.token is Eof ==> leaves(tree) == numbers(text, answer),
                Err(_) => true,
            },
            None => true,
        },
{
    lemma_scan_bounds(text, 0);
    if let Some((token, pos)) = scan(text, 0) {
        let src = Source { text, answer };
        let c = Cursor { token, pos };
        lemma_expression_complete(src, c, OperPrec::DefaultZero);
        lemma_expression_in_order(src, c, OperPrec::DefaultZero);
        if let Ok((tree, end)) = expression(src, c, OperPrec::DefaultZero) {
            assert(leaves(tree) =~= numbers_between(src, c, end));
        }
    }
}

/// Plain arithmetic is parsed as custom has it. Where a text, white space
/// apart, is a sum of products of literals, signed or in parentheses, parsing
/// it gives the tree that reads the products before the sums and the
/// operators of one level from the left, whatever the previous answer.
pub proof fn lemma_plain_arithmetic_is_parsed_as_usual(
    text: Seq<char>,
    answer: u64,
    result: Result<Node, ParseError>,
)
    requires
        parses_to(text, answer, result),
        arithmetic(without_whitespace(text)) is Some,
    ensures
        result matches Ok(node) && Some(node@) == arithmetic(without_whitespace(text)),
{
    lemma_arithmetic_is_read_as_usual(without_whitespace(text), answer);
}

/// Parsing is a function of the text and the previous answer. Two results of
/// parsing one text with one previous answer are both trees, and then the
/// same tree, or both errors, and then the same error.
pub proof fn lemma_parsing_is_deterministic(
    text: Seq<char>,
    answer: u64,
    first: Result<Node, ParseError>,
    second: Result<Node, ParseError>,
)
    requires
        parses_to(text, answer, first),
        parses_to(text, answer, second),
    ensures
        first matches Ok(tree) ==> second matches Ok(again) && tree@ == again@,
        first matches Err(error) ==> second matches Err(again) && error@ == again@,
{
}

/// A parser that is made of the same text and previous answer a second time,
/// and stands at the same cursor, parses the same: the same tree or the same
/// error, and it stops at the same cursor.
pub proof fn lemma_parsers_agree(
    src: Source,
    c: Cursor,
    floor: OperPrec,
    first: Result<Node, ParseError>,
    first_end: Cursor,
    second: Result<Node, ParseError>,
    second_end: Cursor,
)
    requires
        agrees(first, first_end, expression(src, c, floor)),
        agrees(second, second_end, expression(src, c, floor)),
    ensures
        first_end == second_end,
        first matches Ok(tree) ==> second matches Ok(again) && tree@ == again@,
        first matches Err(error) ==> second matches Err(again) && error@ == again@,
{
}

/// White space means nothing: two texts that differ in their white space
/// only have the same parses.
pub proof fn lemma_whitespace_is_insignificant(
    text: Seq<char>,
    other: Seq<char>,
    answer: u64,
    result: Result<Node, ParseError>,
)
    requires
        without_whitespace(text) == without_whitespace(other),
    ensures
        parses_to(text, answer, result) <==> parses_to(other, answer, result),
{
}

} // verus!
