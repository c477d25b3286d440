//! The parser: a recursive descent over the tokens of one expression, with
//! precedence climbing for the operators. It computes what the grammar says.

use crate::ast::{
    lemma_models_len, models, BinaryOp, Constant, Node, NodeView, UnaryOp, Value, VariadicOp,
};
use crate::completeness::{lemma_expression_complete, sound};
pub use crate::error::ParseError;
use crate::grammar::{
    advance, argument_list, arguments, bad_separator, binary_function, bracket, call, climb,
    enclosed, expect, expression, implicit_product, infix, infix_operator, invalid_character,
    lemma_advance_progress, lemma_expect_progress, lemma_open_call_progress, no_arguments,
    not_an_operand, not_an_operator, number, number_of, one_argument, open_call, operand,
    remaining, scaled, start, starts_operand, syntax_tree, two_arguments, unary_function,
    unexpected, variadic_function, Cursor, Failure, Source,
};
use crate::progress::{
    lemma_argument_list_progress, lemma_expression_progress, lemma_infix_progress,
    lemma_one_argument_progress, lemma_operand_progress, lemma_two_arguments_progress,
};
use crate::token::{same_token, OperPrec, Token};
use crate::tokenizer::{lemma_scan_bounds, scan, Tokenizer};
use crate::whitespace::{strip_whitespace, without_whitespace};
use vstd::prelude::*;

verus! {

/// A parser over one expression. It looks one token ahead.
pub struct Parser {
    tokenizer: Tokenizer,
    current_token: Token,
    old_answer: u64,
}

/// Whether what a parsing step returned, and the cursor it left behind, are
/// what the grammar says of that step.
pub open spec fn agrees<T: View>(
    result: Result<T, ParseError>,
    end: Cursor,
    outcome: Result<(T::V, Cursor), Failure>,
) -> bool {
    match outcome {
        Ok((expected, at)) => result matches Ok(found) && found@ == expected && end == at,
        Err(failure) => result matches Err(error) && error@ == failure.error && end == failure.at,
    }
}

/// Whether the list of trees that a parsing step returned, and the cursor it
/// left behind, are what the grammar says of that step.
pub open spec fn agrees_on_list(
    result: Result<Vec<Node>, ParseError>,
    end: Cursor,
    outcome: Result<(Seq<NodeView>, Cursor), Failure>,
) -> bool {
    match outcome {
        Ok((expected, at)) => result matches Ok(found) && models(found@) == expected && end == at,
        Err(failure) => result matches Err(error) && error@ == failure.error && end == failure.at,
    }
}

/// Whether a step that only moves the cursor went as the grammar says.
pub open spec fn moved(
    result: Result<(), ParseError>,
    end: Cursor,
    outcome: Result<Cursor, Failure>,
) -> bool {
    match outcome {
        Ok(at) => result is Ok && end == at,
        Err(failure) => result matches Err(error) && error@ == failure.error && end == failure.at,
    }
}

impl Parser {
    /// The text being parsed and the previous answer.
    pub closed spec fn source(&self) -> Source {
        Source { text: self.tokenizer.text(), answer: self.old_answer }
    }

    /// The token that the parser is looking at, and the position behind it.
    pub closed spec fn cursor(&self) -> Cursor {
        Cursor { token: self.current_token@, pos: self.tokenizer.position() }
    }

    /// Whether the parser is in a state that scanning can have brought it to:
    /// its cursor lies in the text, it looks at `Eof` at the end of the text
    /// only, and a literal it looks at is a well-formed numeral. Construction
    /// makes it so and parsing keeps it so.
    pub open spec fn wf(&self) -> bool {
        sound(self.source().text, self.cursor())
    }

    /// A parser at the first token of `expr`. `old_answer` is what the
    /// previous-answer token stands for, as the bit pattern of a double;
    /// without one it stands for zero.
    ///
    /// Construction draws the first token, and fails where there is none to
    /// draw. Where `expr` begins with text that spells no token, the error is
    /// `InvalidOperator("Invalid character")`. Where `expr` is empty, the
    /// operand that an expression begins with is missing, and the error is
    /// `UnableToParse("Unknown parsing token for parsing number")`.
    pub fn new(expr: &str, old_answer: Option<u64>) -> (parser: Result<Parser, ParseError>)
        ensures
            match start(expr@) {
                Ok(c) => {
                    &&& parser matches Ok(p)
                    &&& p.wf()
                    &&& p.source().text == expr@
                    &&& p.source().answer == match old_answer {
                        Some(bits) => bits,
                        None => 0,
                    }
                    &&& p.cursor() == c
                },
                Err(e) => parser matches Err(error) && error@ == e,
            },
            parser is Err <==> expr@.len() == 0 || scan(expr@, 0) is None,
    {
        let mut tokenizer = Tokenizer::new(expr);
        proof {
            lemma_scan_bounds(expr@, 0);
        }
        let current_token = match tokenizer.next() {
            Some(token) => token,
            None => {
                return Err(invalid_character_error());
            },
        };
        if matches!(current_token, Token::Eof) {
            return Err(not_an_operand_error());
        }
        let old_answer = match old_answer {
            Some(bits) => bits,
            None => 0,
        };
        Ok(Parser { tokenizer, current_token, old_answer })
    }

    /// The tree of the expression at the cursor, which is left behind it.
    ///
    /// The expression ends where no operator follows. What stands behind it is
    /// not looked at.
    pub fn parse(&mut self) -> (tree: Result<Node, ParseError>)
        requires
            old(self).wf(),
        ensures
            final(self).wf(),
            final(self).source() == old(self).source(),
            agrees(
                tree,
                final(self).cursor(),
                expression(old(self).source(), old(self).cursor(), OperPrec::DefaultZero),
            ),
            tree matches Ok(node) ==> node@.well_formed(),
    {
        proof {
            lemma_expression_complete(self.source(), self.cursor(), OperPrec::DefaultZero);
        }
        self.generate_ast(OperPrec::DefaultZero)
    }

    /// Takes the current token and scans the next one.
    fn get_next_token(&mut self) -> (result: Result<(), ParseError>)
        requires
            old(self).wf(),
        ensures
            final(self).wf(),
            final(self).source() == old(self).source(),
            moved(
                result,
                final(self).cursor(),
                advance(old(self).source().text, old(self).cursor()),
            ),
    {
        proof {
            lemma_scan_bounds(self.tokenizer.text(), self.tokenizer.position());
        }
        match self.tokenizer.next() {
            Some(token) => {
                self.current_token = token;
                Ok(())
            },
            None => Err(invalid_character_error()),
        }
    }

    /// Takes the current token, which must be `expected`.
    fn check_paren(&mut self, expected: Token) -> (result: Result<(), ParseError>)
        requires
            old(self).wf(),
        ensures
            final(self).wf(),
            final(self).source() == old(self).source(),
            moved(
                result,
                final(self).cursor(),
                expect(old(self).source().text, old(self).cursor(), expected@),
            ),
    {
        if same_token(&expected, &self.current_token) {
            self.get_next_token()
        } else {
            Err(unexpected_error(&expected, &self.current_token))
        }
    }

    /// Takes the name of a function and the parenthesis that opens its
    /// arguments.
    fn open_call(&mut self) -> (result: Result<(), ParseError>)
        requires
            old(self).wf(),
        ensures
            final(self).wf(),
            final(self).source() == old(self).source(),
            moved(
                result,
                final(self).cursor(),
                open_call(old(self).source().text, old(self).cursor()),
            ),
    {
        self.get_next_token()?;
        self.check_paren(Token::LeftParen)
    }

    /// An expression that respects the binding power `oper_prec`.
    fn generate_ast(&mut self, oper_prec: OperPrec) -> (tree: Result<Node, ParseError>)
        requires
            old(self).wf(),
        ensures
            final(self).wf(),
            final(self).source() == old(self).source(),
            agrees(
                tree,
                final(self).cursor(),
                expression(old(self).source(), old(self).cursor(), oper_prec),
            ),
        decreases remaining(old(self).source().text, old(self).cursor()), 3int,
    {
        let ghost src = self.source();
        let ghost start = self.cursor();
        proof {
            lemma_operand_progress(src, start);
        }
        let mut left = self.parse_number()?;
        while oper_prec < self.current_token.get_oper_prec()
            invariant
                self.wf(),
                self.source() == src,
                src == old(self).source(),
                start == old(self).cursor(),
                remaining(src.text, self.cursor()) < remaining(src.text, start),
                climb(src, left@, self.cursor(), oper_prec) == expression(src, start, oper_prec),
            decreases remaining(src.text, self.cursor()),
        {
            proof {
                lemma_infix_progress(src, left@, self.cursor());
            }
            left = self.convert_token_to_node(left)?;
        }
        Ok(left)
    }

    /// An operand.
    fn parse_number(&mut self) -> (tree: Result<Node, ParseError>)
        requires
            old(self).wf(),
        ensures
            final(self).wf(),
            final(self).source() == old(self).source(),
            agrees(tree, final(self).cursor(), operand(old(self).source(), old(self).cursor())),
        decreases remaining(old(self).source().text, old(self).cursor()), 2int,
    {
        proof {
            lemma_advance_progress(self.source().text, self.cursor());
        }
        if let Some(value) = self.number_value() {
            return self.number(value);
        }
        if let Some((end_token, wrap)) = closing_bracket(&self.current_token) {
            return self.get_enclosed_elements_with_impl_mult(end_token, wrap);
        }
        match self.current_token {
            Token::Subtract => {
                self.get_next_token()?;
                let inner = self.generate_ast(OperPrec::Negative)?;
                Ok(Node::unary(UnaryOp::Negative, inner))
            },
            Token::Add => {
                self.get_next_token()?;
                self.generate_ast(OperPrec::Negative)
            },
            _ => self.function_call(),
        }
    }

    /// The call of a named function, or its implicit product with what
    /// follows.
    fn function_call(&mut self) -> (tree: Result<Node, ParseError>)
        requires
            old(self).wf(),
        ensures
            final(self).wf(),
            final(self).source() == old(self).source(),
            agrees(tree, final(self).cursor(), call(old(self).source(), old(self).cursor())),
        decreases remaining(old(self).source().text, old(self).cursor()), 1int,
    {
        let ghost src = self.source();
        let ghost start = self.cursor();
        if let Some(op) = unary_function_of(&self.current_token) {
            proof {
                lemma_one_argument_progress(src, start);
            }
            let argument = self.one_argument()?;
            self.implicit_multiply(Node::unary(op, argument))
        } else if let Some(op) = binary_function_of(&self.current_token) {
            proof {
                lemma_two_arguments_progress(src, start);
            }
            let (first, second) = self.two_arguments()?;
            self.implicit_multiply(Node::binary(op, first, second))
        } else if let Some(op) = variadic_function_of(&self.current_token) {
            proof {
                lemma_argument_list_progress(src, start);
            }
            let operands = self.function_arguments()?;
            proof {
                lemma_models_len(operands@);
            }
            if operands.len() == 0 {
                Err(no_arguments_error(op))
            } else {
                self.implicit_multiply(Node::variadic(op, operands))
            }
        } else {
            Err(not_an_operand_error())
        }
    }

    /// The number that the current token stands for by itself.
    fn number_value(&self) -> (value: Option<Value>)
        ensures
            match number_of(self.cursor().token, self.source().answer) {
                Some(expected) => value matches Some(found) && found@ == expected,
                None => value is None,
            },
    {
        match &self.current_token {
            Token::Num(text) => Some(Value::Literal(text.clone())),
            Token::Ans => Some(Value::Answer(self.old_answer)),
            Token::Pi => Some(Value::Constant(Constant::Pi)),
            Token::E => Some(Value::Constant(Constant::E)),
            _ => None,
        }
    }

    /// The number leaf for the current token, or its implicit product with
    /// what follows.
    fn number(&mut self, value: Value) -> (tree: Result<Node, ParseError>)
        requires
            old(self).wf(),
            !(old(self).cursor().token is Eof),
        ensures
            final(self).wf(),
            final(self).source() == old(self).source(),
            agrees(
                tree,
                final(self).cursor(),
                number(old(self).source(), old(self).cursor(), value@),
            ),
        decreases remaining(old(self).source().text, old(self).cursor()), 0int,
    {
        proof {
            lemma_advance_progress(self.source().text, self.cursor());
        }
        self.get_next_token()?;
        self.implicit_multiply(Node::Number(value))
    }

    /// `node`, or its product with the operand that follows it directly.
    fn implicit_multiply(&mut self, node: Node) -> (tree: Result<Node, ParseError>)
        requires
            old(self).wf(),
        ensures
            final(self).wf(),
            final(self).source() == old(self).source(),
            agrees(
                tree,
                final(self).cursor(),
                implicit_product(old(self).source(), node@, old(self).cursor()),
            ),
        decreases remaining(old(self).source().text, old(self).cursor()), 4int,
    {
        if starts_operand_token(&self.current_token) {
            let right = self.generate_ast(OperPrec::MulDiv)?;
            Ok(Node::binary(BinaryOp::Multiply, node, right))
        } else {
            Ok(node)
        }
    }

    /// An expression between the opening bracket at the cursor and the
    /// bracket `end_token`, with `wrap` applied to it, or the implicit product
    /// of that with what follows.
    fn get_enclosed_elements_with_impl_mult(
        &mut self,
        end_token: Token,
        wrap: Option<UnaryOp>,
    ) -> (tree: Result<Node, ParseError>)
        requires
            old(self).wf(),
            !(old(self).cursor().token is Eof),
        ensures
            final(self).wf(),
            final(self).source() == old(self).source(),
            agrees(
                tree,
                final(self).cursor(),
                enclosed(old(self).source(), old(self).cursor(), end_token@, wrap),
            ),
        decreases remaining(old(self).source().text, old(self).cursor()), 0int,
    {
        let ghost src = self.source();
        let ghost start = self.cursor();
        proof {
            lemma_advance_progress(src.text, start);
            lemma_expect_progress(src.text);
        }
        self.get_next_token()?;
        proof {
            lemma_expression_progress(src, self.cursor(), OperPrec::DefaultZero);
        }
        let inner = self.generate_ast(OperPrec::DefaultZero)?;
        self.check_paren(end_token)?;
        let node = match wrap {
            Some(op) => Node::unary(op, inner),
            None => inner,
        };
        self.implicit_multiply(node)
    }

    /// The one argument of a call whose name stands at the cursor.
    fn one_argument(&mut self) -> (argument: Result<Node, ParseError>)
        requires
            old(self).wf(),
            !(old(self).cursor().token is Eof),
        ensures
            final(self).wf(),
            final(self).source() == old(self).source(),
            agrees(
                argument,
                final(self).cursor(),
                one_argument(old(self).source(), old(self).cursor()),
            ),
        decreases remaining(old(self).source().text, old(self).cursor()), 0int,
    {
        proof {
            lemma_open_call_progress(self.source().text, self.cursor());
        }
        self.open_call()?;
        let argument = self.generate_ast(OperPrec::DefaultZero)?;
        self.check_paren(Token::RightParen)?;
        Ok(argument)
    }

    /// The two arguments of a call whose name stands at the cursor.
    fn two_arguments(&mut self) -> (arguments: Result<(Node, Node), ParseError>)
        requires
            old(self).wf(),
            !(old(self).cursor().token is Eof),
        ensures
            final(self).wf(),
            final(self).source() == old(self).source(),
            agrees(
                arguments,
                final(self).cursor(),
                two_arguments(old(self).source(), old(self).cursor()),
            ),
        decreases remaining(old(self).source().text, old(self).cursor()), 0int,
    {
        let ghost src = self.source();
        proof {
            lemma_open_call_progress(src.text, self.cursor());
            lemma_expect_progress(src.text);
        }
        self.open_call()?;
        proof {
            lemma_expression_progress(src, self.cursor(), OperPrec::DefaultZero);
        }
        let first = self.generate_ast(OperPrec::DefaultZero)?;
        self.check_paren(Token::Comma)?;
        let second = self.generate_ast(OperPrec::DefaultZero)?;
        self.check_paren(Token::RightParen)?;
        Ok((first, second))
    }

    /// The arguments of a call whose name stands at the cursor, none where
    /// the parentheses hold nothing.
    fn function_arguments(&mut self) -> (operands: Result<Vec<Node>, ParseError>)
        requires
            old(self).wf(),
            !(old(self).cursor().token is Eof),
        ensures
            final(self).wf(),
            final(self).source() == old(self).source(),
            agrees_on_list(
                operands,
                final(self).cursor(),
                argument_list(old(self).source(), old(self).cursor()),
            ),
        decreases remaining(old(self).source().text, old(self).cursor()), 0int,
    {
        let ghost src = self.source();
        let ghost start = self.cursor();
        proof {
            lemma_open_call_progress(src.text, start);
        }
        self.open_call()?;
        let mut operands: Vec<Node> = Vec::new();
        if matches!(self.current_token, Token::RightParen) {
            self.get_next_token()?;
            return Ok(operands);
        }
        self.find_item_list(operands)
    }

    /// The arguments of a call from the cursor on, appended to `done`.
    fn find_item_list(&mut self, done: Vec<Node>) -> (operands: Result<Vec<Node>, ParseError>)
        requires
            old(self).wf(),
        ensures
            final(self).wf(),
            final(self).source() == old(self).source(),
            agrees_on_list(
                operands,
                final(self).cursor(),
                arguments(old(self).source(), old(self).cursor(), models(done@)),
            ),
        decreases remaining(old(self).source().text, old(self).cursor()), 4int,
    {
        let ghost src = self.source();
        let ghost start = self.cursor();
        let mut operands = done;
        proof {
            lemma_expression_progress(src, start, OperPrec::DefaultZero);
            lemma_expect_progress(src.text);
        }
        let argument = self.generate_ast(OperPrec::DefaultZero)?;
        proof {
            assert(operands@.push(argument).drop_last() =~= operands@);
        }
        operands.push(argument);
        if matches!(self.current_token, Token::Comma) {
            self.get_next_token()?;
            self.find_item_list(operands)
        } else if matches!(self.current_token, Token::RightParen) {
            self.get_next_token()?;
            Ok(operands)
        } else {
            Err(bad_separator_error(&self.current_token))
        }
    }

    /// The current token, applied to `left_expr` as an operator.
    fn convert_token_to_node(&mut self, left_expr: Node) -> (tree: Result<Node, ParseError>)
        requires
            old(self).wf(),
        ensures
            final(self).wf(),
            final(self).source() == old(self).source(),
            agrees(
                tree,
                final(self).cursor(),
                infix(old(self).source(), left_expr@, old(self).cursor()),
            ),
        decreases remaining(old(self).source().text, old(self).cursor()), 0int,
    {
        proof {
            lemma_advance_progress(self.source().text, self.cursor());
        }
        match self.current_token {
            Token::ExclamationMark => {
                self.get_next_token()?;
                self.implicit_multiply(Node::unary(UnaryOp::Factorial, left_expr))
            },
            Token::Pow2 => {
                self.get_next_token()?;
                Ok(Node::unary(UnaryOp::Pow2, left_expr))
            },
            Token::Pow3 => {
                self.get_next_token()?;
                Ok(Node::unary(UnaryOp::Pow3, left_expr))
            },
            Token::DegToRad => {
                self.get_next_token()?;
                Ok(scaled_node(left_expr, Constant::RadiansPerDegree))
            },
            Token::RadToDeg => {
                self.get_next_token()?;
                Ok(scaled_node(left_expr, Constant::DegreesPerRadian))
            },
            _ => {
                match infix_operator_of(&self.current_token) {
                    Some(op) => {
                        let oper_prec = self.current_token.get_oper_prec();
                        self.get_next_token()?;
                        let right_expr = self.generate_ast(oper_prec)?;
                        Ok(Node::binary(op, left_expr, right_expr))
                    },
                    None => Err(not_an_operator_error(&self.current_token)),
                }
            },
        }
    }
}

/// Whether `result` is what parsing `text` gives, with `answer` for the
/// previous answer: white space apart, the tree that the grammar finds at the
/// start of the text, or the error that the grammar finds there.
pub open spec fn parses_to(text: Seq<char>, answer: u64, result: Result<Node, ParseError>) -> bool {
    match syntax_tree(without_whitespace(text), answer) {
        Ok(expected) => result matches Ok(node) && node@ == expected,
        Err(e) => result matches Err(error) && error@ == e,
    }
}

/// The syntax tree of the expression `expr`. White space in `expr` means
/// nothing. `old_answer` is what the previous-answer token stands for, as the
/// bit pattern of a double.
pub fn parse_expression(expr: &str, old_answer: u64) -> (tree: Result<Node, ParseError>)
    ensures
        parses_to(expr@, old_answer, tree),
        tree matches Ok(node) ==> node@.well_formed(),
{
    let stripped = strip_whitespace(expr);
    match Parser::new(stripped.as_str(), Some(old_answer)) {
        Ok(parser) => {
            let mut parser = parser;
            parser.parse()
        },
        Err(e) => Err(e),
    }
}

/// The bracket that closes the opening bracket `token`, and the operation
/// that the pair applies to what stands between them.
fn closing_bracket(token: &Token) -> (pair: Option<(Token, Option<UnaryOp>)>)
    ensures
        match bracket(token@) {
            Some((closing, wrap)) => {
                &&& pair matches Some((found, operation))
                &&& found@ == closing
                &&& operation == wrap
                &&& !(token@ is Eof)
            },
            None => pair is None,
        },
{
    match token {
        Token::LeftParen => Some((Token::RightParen, None)),
        Token::Bar => Some((Token::Bar, Some(UnaryOp::Abs))),
        Token::LeftFloor => Some((Token::RightFloor, Some(UnaryOp::Floor))),
        Token::LeftCeiling => Some((Token::RightCeiling, Some(UnaryOp::Ceil))),
        _ => None,
    }
}

/// The named function of one argument that `token` stands for.
fn unary_function_of(token: &Token) -> (op: Option<UnaryOp>)
    ensures
        op == unary_function(token@),
{
    match token {
        Token::Abs => Some(UnaryOp::Abs),
        Token::Floor => Some(UnaryOp::Floor),
        Token::Ceil => Some(UnaryOp::Ceil),
        Token::Round => Some(UnaryOp::Round),
        Token::Sin => Some(UnaryOp::Sin),
        Token::Cos => Some(UnaryOp::Cos),
        Token::Tan => Some(UnaryOp::Tan),
        Token::Sinh => Some(UnaryOp::Sinh),
        Token::Cosh => Some(UnaryOp::Cosh),
        Token::Tanh => Some(UnaryOp::Tanh),
        Token::Asin => Some(UnaryOp::Asin),
        Token::Acos => Some(UnaryOp::Acos),
        Token::Atan => Some(UnaryOp::Atan),
        Token::Arsinh => Some(UnaryOp::Arsinh),
        Token::Arcosh => Some(UnaryOp::Arcosh),
        Token::Artanh => Some(UnaryOp::Artanh),
        Token::Sqrt => Some(UnaryOp::Sqrt),
        Token::Exp => Some(UnaryOp::Exp),
        Token::Exp2 => Some(UnaryOp::Exp2),
        Token::Ln => Some(UnaryOp::Ln),
        Token::Sign => Some(UnaryOp::Sign),
        Token::Truncate => Some(UnaryOp::Truncate),
        _ => None,
    }
}

/// The named function of two arguments that `token` stands for.
fn binary_function_of(token: &Token) -> (op: Option<BinaryOp>)
    ensures
        op == binary_function(token@),
{
    match token {
        Token::Atan2 => Some(BinaryOp::Atan2),
        Token::Pow => Some(BinaryOp::Pow),
        Token::Log => Some(BinaryOp::Log),
        _ => None,
    }
}

/// The named function of one or more arguments that `token` stands for.
fn variadic_function_of(token: &Token) -> (op: Option<VariadicOp>)
    ensures
        op == variadic_function(token@),
{
    match token {
        Token::Min => Some(VariadicOp::Min),
        Token::Max => Some(VariadicOp::Max),
        _ => None,
    }
}

/// The operation of the infix operator that `token` stands for.
fn infix_operator_of(token: &Token) -> (op: Option<BinaryOp>)
    ensures
        op == infix_operator(token@),
{
    match token {
        Token::Add => Some(BinaryOp::Add),
        Token::Subtract => Some(BinaryOp::Subtract),
        Token::Multiply => Some(BinaryOp::Multiply),
        Token::Divide => Some(BinaryOp::Divide),
        Token::Modulo => Some(BinaryOp::Modulo),
        Token::Caret => Some(BinaryOp::Caret),
        _ => None,
    }
}

/// Whether `token` can only be the start of a further operand.
fn starts_operand_token(token: &Token) -> (starts: bool)
    ensures
        starts == starts_operand(token@),
{
    match token {
        Token::LeftParen | Token::LeftFloor | Token::LeftCeiling | Token::Num(_) => true,
        _ => unary_function_of(token).is_some() || binary_function_of(token).is_some()
            || variadic_function_of(token).is_some(),
    }
}

/// `operand` times the constant `factor`.
fn scaled_node(operand: Node, factor: Constant) -> (node: Node)
    ensures
        node@ == scaled(operand@, factor),
{
    Node::binary(BinaryOp::Multiply, operand, Node::Number(Value::Constant(factor)))
}

fn invalid_character_error() -> (error: ParseError)
    ensures
        error@ == invalid_character(),
{
    ParseError::InvalidOperator(String::from_str("Invalid character"))
}

fn unexpected_error(expected: &Token, found: &Token) -> (error: ParseError)
    ensures
        error@ == unexpected(expected@, found@),
{
    let mut message = String::from_str("Expected ");
    message.append(expected.name().as_str());
    message.append(", got ");
    message.append(found.name().as_str());
    ParseError::InvalidOperator(message)
}

fn bad_separator_error(found: &Token) -> (error: ParseError)
    ensures
        error@ == bad_separator(found@),
{
    let mut message = String::from_str("Expected either Comma or RightParen, got ");
    message.append(found.name().as_str());
    ParseError::InvalidOperator(message)
}

fn not_an_operand_error() -> (error: ParseError)
    ensures
        error@ == not_an_operand(),
{
    ParseError::UnableToParse(String::from_str("Unknown parsing token for parsing number"))
}

fn not_an_operator_error(found: &Token) -> (error: ParseError)
    ensures
        error@ == not_an_operator(found@),
{
    let mut message = String::from_str("Please enter a valid operator ");
    message.append(found.name().as_str());
    ParseError::InvalidOperator(message)
}

fn no_arguments_error(op: VariadicOp) -> (error: ParseError)
    ensures
        error@ == no_arguments(op),
{
    match op {
        VariadicOp::Min => ParseError::UnableToParse(
            String::from_str("There's no arguments in the min function"),
        ),
        VariadicOp::Max => ParseError::UnableToParse(
            String::from_str("There's no arguments in the max function"),
        ),
    }
}

} // verus!
