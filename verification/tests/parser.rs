use calcparse::ast::{Constant, Node, Value};
use calcparse::parser::{parse_expression, ParseError, Parser};

fn number(text: &str) -> Node {
    Node::Number(Value::Literal(text.to_string()))
}

fn constant(constant: Constant) -> Node {
    Node::Number(Value::Constant(constant))
}

fn boxed(text: &str) -> Box<Node> {
    Box::new(number(text))
}

fn tree(text: &str) -> Node {
    parse_expression(text, 0).unwrap()
}

fn invalid_operator(text: &str) -> String {
    match parse_expression(text, 0) {
        Err(ParseError::InvalidOperator(message)) => message,
        other => panic!("{:?}", other),
    }
}

fn unable_to_parse(text: &str) -> String {
    match parse_expression(text, 0) {
        Err(ParseError::UnableToParse(message)) => message,
        other => panic!("{:?}", other),
    }
}

#[test]
fn test_addition() {
    let mut parser = Parser::new("1+2", None).unwrap();
    let expected = Node::Add(boxed("1"), boxed("2"));
    assert_eq!(parser.parse().unwrap(), expected);
}

#[test]
fn multiplication_binds_tighter_than_addition() {
    let expected = Node::Add(
        boxed("2"),
        Box::new(Node::Multiply(boxed("3"), boxed("4"))),
    );
    assert_eq!(tree("2+3*4"), expected);
    let expected = Node::Add(
        Box::new(Node::Multiply(boxed("2"), boxed("3"))),
        boxed("4"),
    );
    assert_eq!(tree("2*3+4"), expected);
}

#[test]
fn operators_of_one_level_associate_to_the_left() {
    let expected = Node::Subtract(
        Box::new(Node::Add(boxed("1"), boxed("2"))),
        boxed("3"),
    );
    assert_eq!(tree("1+2-3"), expected);
    let expected = Node::Divide(
        Box::new(Node::Multiply(boxed("8"), boxed("4"))),
        boxed("2"),
    );
    assert_eq!(tree("8*4/2"), expected);
    let expected = Node::Modulo(
        Box::new(Node::Divide(boxed("9"), boxed("2"))),
        boxed("3"),
    );
    assert_eq!(tree("9/2%3"), expected);
}

#[test]
fn power_associates_to_the_left() {
    let expected = Node::Caret(
        Box::new(Node::Caret(boxed("2"), boxed("3"))),
        boxed("2"),
    );
    assert_eq!(tree("2^3^2"), expected);
}

#[test]
fn power_binds_tighter_than_multiplication() {
    let expected = Node::Multiply(
        boxed("2"),
        Box::new(Node::Caret(boxed("3"), boxed("2"))),
    );
    assert_eq!(tree("2*3^2"), expected);
}

#[test]
fn a_mixed_expression_follows_precedence() {
    let expected = Node::Subtract(
        Box::new(Node::Add(boxed("3"), boxed("2"))),
        Box::new(Node::Divide(
            Box::new(Node::Multiply(boxed("1"), boxed("5"))),
            boxed("4"),
        )),
    );
    assert_eq!(tree("3+2-1*5/4"), expected);
}

#[test]
fn parentheses_group() {
    let expected = Node::Multiply(
        Box::new(Node::Add(boxed("1"), boxed("2"))),
        boxed("3"),
    );
    assert_eq!(tree("(1+2)*3"), expected);
    assert_eq!(tree("((7))"), number("7"));
}

#[test]
fn a_sign_binds_tighter_than_power() {
    let expected = Node::Caret(Box::new(Node::Negative(boxed("2"))), boxed("2"));
    assert_eq!(tree("-2^2"), expected);
    assert_eq!(tree("+3"), number("3"));
    let expected = Node::Multiply(boxed("2"), Box::new(Node::Negative(boxed("3"))));
    assert_eq!(tree("2*-3"), expected);
    let expected = Node::Negative(Box::new(Node::Negative(boxed("3"))));
    assert_eq!(tree("--3"), expected);
}

#[test]
fn a_sign_takes_the_factorial_of_its_operand_along() {
    let expected = Node::Negative(Box::new(Node::Factorial(boxed("3"))));
    assert_eq!(tree("-3!"), expected);
}

#[test]
fn brackets_of_each_kind_wrap_their_expression() {
    let inner = || Box::new(Node::Subtract(boxed("0"), boxed("3")));
    assert_eq!(tree("|0-3|"), Node::Abs(inner()));
    assert_eq!(tree("\u{230a}0-3\u{230b}"), Node::Floor(inner()));
    assert_eq!(tree("\u{2308}0-3\u{2309}"), Node::Ceil(inner()));
    assert_eq!(tree("||1||"), Node::Abs(Box::new(Node::Abs(boxed("1")))));
}

#[test]
fn postfix_marks_apply_to_what_stands_before_them() {
    assert_eq!(tree("5!"), Node::Factorial(boxed("5")));
    assert_eq!(tree("3\u{b2}"), Node::Pow2(boxed("3")));
    assert_eq!(tree("3\u{b3}"), Node::Pow3(boxed("3")));
    assert_eq!(
        tree("(-3)!"),
        Node::Factorial(Box::new(Node::Negative(boxed("3"))))
    );
    assert_eq!(
        tree("3!!"),
        Node::Factorial(Box::new(Node::Factorial(boxed("3"))))
    );
}

#[test]
fn angle_marks_multiply_by_a_constant() {
    let expected = Node::Multiply(
        boxed("90"),
        Box::new(constant(Constant::RadiansPerDegree)),
    );
    assert_eq!(tree("90\u{b0}"), expected);
    let expected = Node::Multiply(
        boxed("1"),
        Box::new(constant(Constant::DegreesPerRadian)),
    );
    assert_eq!(tree("1rad"), expected);
}

#[test]
fn an_angle_mark_binds_like_multiplication() {
    let expected = Node::Add(
        boxed("1"),
        Box::new(Node::Multiply(
            boxed("90"),
            Box::new(constant(Constant::RadiansPerDegree)),
        )),
    );
    assert_eq!(tree("1+90\u{b0}"), expected);
}

#[test]
fn named_constants_are_leaves() {
    assert_eq!(tree("pi"), constant(Constant::Pi));
    assert_eq!(tree("\u{3c0}"), constant(Constant::Pi));
    assert_eq!(tree("e"), constant(Constant::E));
    let expected = Node::Multiply(boxed("2"), Box::new(constant(Constant::Pi)));
    assert_eq!(tree("2*pi"), expected);
}

#[test]
fn the_previous_answer_is_put_in_where_it_is_named() {
    let bits = 0x4014_0000_0000_0000u64;
    let expected = Node::Multiply(Box::new(Node::Number(Value::Answer(bits))), boxed("2"));
    assert_eq!(parse_expression("@*2", bits).unwrap(), expected);
    let mut parser = Parser::new("@", Some(bits)).unwrap();
    assert_eq!(parser.parse().unwrap(), Node::Number(Value::Answer(bits)));
}

#[test]
fn without_a_previous_answer_it_is_zero() {
    let mut parser = Parser::new("@", None).unwrap();
    assert_eq!(parser.parse().unwrap(), Node::Number(Value::Answer(0)));
}

#[test]
fn functions_of_one_argument() {
    assert_eq!(tree("abs(1)"), Node::Abs(boxed("1")));
    assert_eq!(tree("floor(1)"), Node::Floor(boxed("1")));
    assert_eq!(tree("ceil(1)"), Node::Ceil(boxed("1")));
    assert_eq!(tree("round(1)"), Node::Round(boxed("1")));
    assert_eq!(tree("sin(1)"), Node::Sin(boxed("1")));
    assert_eq!(tree("cos(1)"), Node::Cos(boxed("1")));
    assert_eq!(tree("tan(1)"), Node::Tan(boxed("1")));
    assert_eq!(tree("sinh(1)"), Node::Sinh(boxed("1")));
    assert_eq!(tree("cosh(1)"), Node::Cosh(boxed("1")));
    assert_eq!(tree("tanh(1)"), Node::Tanh(boxed("1")));
    assert_eq!(tree("asin(1)"), Node::Asin(boxed("1")));
    assert_eq!(tree("acos(1)"), Node::Acos(boxed("1")));
    assert_eq!(tree("atan(1)"), Node::Atan(boxed("1")));
    assert_eq!(tree("asinh(1)"), Node::Arsinh(boxed("1")));
    assert_eq!(tree("arsinh(1)"), Node::Arsinh(boxed("1")));
    assert_eq!(tree("acosh(1)"), Node::Arcosh(boxed("1")));
    assert_eq!(tree("arcosh(1)"), Node::Arcosh(boxed("1")));
    assert_eq!(tree("atanh(1)"), Node::Artanh(boxed("1")));
    assert_eq!(tree("artanh(1)"), Node::Artanh(boxed("1")));
    assert_eq!(tree("sqrt(1)"), Node::Sqrt(boxed("1")));
    assert_eq!(tree("exp(1)"), Node::Exp(boxed("1")));
    assert_eq!(tree("exp2(1)"), Node::Exp2(boxed("1")));
    assert_eq!(tree("ln(1)"), Node::Ln(boxed("1")));
    assert_eq!(tree("sign(1)"), Node::Sign(boxed("1")));
    assert_eq!(tree("sgn(1)"), Node::Sign(boxed("1")));
    assert_eq!(tree("signum(1)"), Node::Sign(boxed("1")));
    assert_eq!(tree("trunc(1)"), Node::Truncate(boxed("1")));
    assert_eq!(tree("truncate(1)"), Node::Truncate(boxed("1")));
}

#[test]
fn functions_of_two_arguments() {
    assert_eq!(tree("atan2(1,2)"), Node::Atan2(boxed("1"), boxed("2")));
    assert_eq!(tree("pow(1,2)"), Node::Pow(boxed("1"), boxed("2")));
    assert_eq!(tree("log(1,2)"), Node::Log(boxed("1"), boxed("2")));
    let expected = Node::Pow(
        Box::new(Node::Add(boxed("1"), boxed("2"))),
        Box::new(Node::Sin(boxed("3"))),
    );
    assert_eq!(tree("pow(1+2,sin(3))"), expected);
}

#[test]
fn functions_of_one_or_more_arguments() {
    assert_eq!(tree("min(7)"), Node::Min(vec![number("7")]));
    assert_eq!(
        tree("max(1,2,3)"),
        Node::Max(vec![number("1"), number("2"), number("3")])
    );
    assert_eq!(
        tree("min(3,1+1,max(2,5))"),
        Node::Min(vec![
            number("3"),
            Node::Add(boxed("1"), boxed("1")),
            Node::Max(vec![number("2"), number("5")]),
        ])
    );
}

#[test]
fn a_call_without_arguments_is_rejected() {
    assert_eq!(unable_to_parse("min()"), "There's no arguments in the min function");
    assert_eq!(unable_to_parse("max()"), "There's no arguments in the max function");
}

#[test]
fn an_argument_is_due_behind_a_comma() {
    assert_eq!(unable_to_parse("min(1,)"), "Unknown parsing token for parsing number");
}

#[test]
fn an_operand_times_the_operand_that_follows_it() {
    let expected = Node::Multiply(boxed("2"), Box::new(Node::Sin(boxed("0"))));
    assert_eq!(tree("2sin(0)"), expected);
    assert_eq!(tree("(2)(3)"), Node::Multiply(boxed("2"), boxed("3")));
    assert_eq!(tree("(2)3"), Node::Multiply(boxed("2"), boxed("3")));
    let expected = Node::Multiply(
        Box::new(Node::Sin(boxed("0"))),
        Box::new(Node::Cos(boxed("0"))),
    );
    assert_eq!(tree("sin(0)cos(0)"), expected);
    let expected = Node::Multiply(
        boxed("2"),
        Box::new(Node::Floor(boxed("3"))),
    );
    assert_eq!(tree("(2)\u{230a}3\u{230b}"), expected);
    let expected = Node::Multiply(
        Box::new(Node::Ceil(boxed("2"))),
        boxed("3"),
    );
    assert_eq!(tree("\u{2308}2\u{2309}(3)"), expected);
    let expected = Node::Multiply(Box::new(Node::Abs(boxed("2"))), boxed("3"));
    assert_eq!(tree("|2|3"), expected);
}

#[test]
fn a_leaf_of_any_kind_takes_part_in_an_implicit_product() {
    let expected = Node::Multiply(Box::new(constant(Constant::Pi)), boxed("2"));
    assert_eq!(tree("pi(2)"), expected);
    let expected = Node::Multiply(Box::new(constant(Constant::E)), boxed("2"));
    assert_eq!(tree("e(2)"), expected);
    let expected = Node::Multiply(Box::new(Node::Number(Value::Answer(7))), boxed("2"));
    assert_eq!(parse_expression("@2", 7).unwrap(), expected);
}

#[test]
fn a_chain_of_implicit_products_nests_to_the_right() {
    let expected = Node::Multiply(
        boxed("1"),
        Box::new(Node::Multiply(boxed("2"), boxed("3"))),
    );
    assert_eq!(tree("(1)(2)(3)"), expected);
    let expected = Node::Multiply(
        boxed("2"),
        Box::new(Node::Multiply(
            boxed("3"),
            Box::new(Node::Sin(boxed("0"))),
        )),
    );
    assert_eq!(tree("(2)(3)sin(0)"), expected);
}

#[test]
fn an_implicit_product_binds_like_multiplication() {
    let expected = Node::Add(
        boxed("1"),
        Box::new(Node::Multiply(
            boxed("2"),
            Box::new(Node::Caret(Box::new(Node::Sin(boxed("0"))), boxed("2"))),
        )),
    );
    assert_eq!(tree("1+2sin(0)^2"), expected);
    let expected = Node::Multiply(
        Box::new(Node::Multiply(boxed("2"), boxed("3"))),
        boxed("4"),
    );
    assert_eq!(tree("(2)(3)*4"), expected);
}

#[test]
fn a_factorial_is_followed_by_an_implicit_product() {
    let expected = Node::Multiply(Box::new(Node::Factorial(boxed("3"))), boxed("2"));
    assert_eq!(tree("3!2"), expected);
    let expected = Node::Multiply(
        Box::new(Node::Factorial(boxed("3"))),
        Box::new(Node::Sin(boxed("0"))),
    );
    assert_eq!(tree("3!sin(0)"), expected);
}

#[test]
fn a_literal_before_a_parenthesis_is_rejected() {
    assert_eq!(invalid_operator("2(3)"), "Invalid character");
    assert_eq!(invalid_operator("1+2(3)"), "Invalid character");
}

#[test]
fn what_stands_behind_the_expression_is_not_looked_at() {
    assert_eq!(tree("1)"), number("1"));
    assert_eq!(tree("2pi"), number("2"));
    assert_eq!(tree("1,2"), number("1"));
}

#[test]
fn an_open_bracket_must_be_closed_by_its_counterpart() {
    assert_eq!(invalid_operator("(1+2"), "Expected RightParen, got Eof");
    assert_eq!(invalid_operator("|1+2"), "Expected Bar, got Eof");
    assert_eq!(invalid_operator("(1|"), "Expected RightParen, got Bar");
    assert_eq!(
        invalid_operator("\u{230a}1\u{2309}"),
        "Expected RightFloor, got RightCeiling"
    );
    assert_eq!(
        invalid_operator("\u{2308}1\u{230b}"),
        "Expected RightCeiling, got RightFloor"
    );
    assert_eq!(invalid_operator("(1,2)"), "Expected RightParen, got Comma");
    assert_eq!(invalid_operator("(1 2"), "Expected RightParen, got Eof");
}

#[test]
fn the_arguments_of_a_call_must_match_its_arity() {
    assert_eq!(invalid_operator("sin(1,2)"), "Expected RightParen, got Comma");
    assert_eq!(invalid_operator("atan2(1)"), "Expected Comma, got RightParen");
    assert_eq!(invalid_operator("atan2(1,2,3)"), "Expected RightParen, got Comma");
    assert_eq!(invalid_operator("pow(1,2"), "Expected RightParen, got Eof");
    assert_eq!(invalid_operator("sin(1"), "Expected RightParen, got Eof");
}

#[test]
fn arguments_are_separated_by_commas() {
    assert_eq!(
        invalid_operator("max(1"),
        "Expected either Comma or RightParen, got Eof"
    );
    assert_eq!(
        invalid_operator("max(1|"),
        "Expected either Comma or RightParen, got Bar"
    );
    assert_eq!(
        invalid_operator("min(1\u{230b}"),
        "Expected either Comma or RightParen, got RightFloor"
    );
}

#[test]
fn an_operand_is_due_where_an_expression_starts() {
    let message = "Unknown parsing token for parsing number";
    assert_eq!(unable_to_parse(""), message);
    assert_eq!(unable_to_parse("   "), message);
    assert_eq!(unable_to_parse("*2"), message);
    assert_eq!(unable_to_parse("1+"), message);
    assert_eq!(unable_to_parse("()"), message);
    assert_eq!(unable_to_parse("2*)"), message);
    assert_eq!(unable_to_parse("!"), message);
}

#[test]
fn a_function_name_is_no_operator() {
    assert_eq!(
        invalid_operator("2\u{b2}sin(0)"),
        "Please enter a valid operator Sin"
    );
    assert_eq!(
        invalid_operator("2\u{b0}max(1)"),
        "Please enter a valid operator Max"
    );
}

#[test]
fn text_that_spells_no_token_is_rejected() {
    assert_eq!(invalid_operator("$"), "Invalid character");
    assert_eq!(invalid_operator("1$"), "Invalid character");
    assert_eq!(invalid_operator("1+x"), "Invalid character");
    assert_eq!(invalid_operator("1.2.3"), "Invalid character");
    assert_eq!(invalid_operator("sin"), "Invalid character");
    assert_eq!(invalid_operator("(1+2)$"), "Invalid character");
    assert!(matches!(
        Parser::new("$", None),
        Err(ParseError::InvalidOperator(_))
    ));
}

#[test]
fn white_space_means_nothing() {
    assert_eq!(tree(" 1 + 2 "), tree("1+2"));
    assert_eq!(tree("max( 1,\t2 , 3 )"), tree("max(1,2,3)"));
    assert_eq!(tree("3 4"), number("34"));
    assert_eq!(tree("s i n ( 0 )"), Node::Sin(boxed("0")));
}

#[test]
fn parsing_the_same_text_twice_gives_equal_trees() {
    for text in ["1+2", "2sin(0)^2-max(1,2,3)!", "(1+2", "min()", "|@*-pi|"] {
        assert_eq!(parse_expression(text, 42), parse_expression(text, 42));
        let first = Parser::new(text, Some(42)).unwrap().parse();
        let second = Parser::new(text, Some(42)).unwrap().parse();
        assert_eq!(first, second);
    }
}

#[test]
fn a_literal_keeps_its_text() {
    assert_eq!(tree("007.50"), number("007.50"));
    assert_eq!(tree("3."), number("3."));
}

#[test]
fn an_error_introduces_its_message() {
    let error = parse_expression("(1+2", 0).unwrap_err();
    assert_eq!(
        error.to_string(),
        "Error in evaluating Expected RightParen, got Eof"
    );
    let error = parse_expression("min()", 0).unwrap_err();
    assert_eq!(
        error.to_string(),
        "Error in evaluating There's no arguments in the min function"
    );
}

#[test]
fn a_call_with_spaces_between_its_arguments() {
    assert_eq!(
        tree("atan2(3.14159, 2.1415)"),
        Node::Atan2(boxed("3.14159"), boxed("2.1415"))
    );
    assert_eq!(tree("sin(3.14159)"), Node::Sin(boxed("3.14159")));
}

#[test]
fn a_second_parse_goes_on_where_the_first_one_stopped() {
    let mut parser = Parser::new("1+2,3*4", None).unwrap();
    assert_eq!(parser.parse().unwrap(), Node::Add(boxed("1"), boxed("2")));
    assert_eq!(
        parser.parse(),
        Err(ParseError::UnableToParse(
            "Unknown parsing token for parsing number".to_string()
        ))
    );
    let mut parser = Parser::new("(1)|2|", None).unwrap();
    assert_eq!(parser.parse().unwrap(), number("1"));
    assert_eq!(parser.parse().unwrap(), Node::Abs(boxed("2")));
}

#[test]
fn after_an_error_the_parser_stays_where_it_gave_up() {
    let mut parser = Parser::new("(1+2", None).unwrap();
    let first = parser.parse();
    let second = parser.parse();
    assert_eq!(
        first,
        Err(ParseError::InvalidOperator("Expected RightParen, got Eof".to_string()))
    );
    assert_eq!(
        second,
        Err(ParseError::UnableToParse(
            "Unknown parsing token for parsing number".to_string()
        ))
    );
}

#[test]
fn no_parser_is_made_of_an_empty_text() {
    assert_eq!(
        Parser::new("", None).err(),
        Some(ParseError::UnableToParse(
            "Unknown parsing token for parsing number".to_string()
        ))
    );
    assert_eq!(
        Parser::new("", Some(7)).err(),
        Some(ParseError::UnableToParse(
            "Unknown parsing token for parsing number".to_string()
        ))
    );
    assert!(Parser::new("", None).is_err());
}

#[test]
fn no_parser_is_made_of_text_that_begins_with_no_token() {
    for text in ["$", " ", " 1", "x+1", "2(3)", "1.2.3", "sin"] {
        assert_eq!(
            Parser::new(text, None).err(),
            Some(ParseError::InvalidOperator("Invalid character".to_string())),
            "{}",
            text
        );
    }
}

#[test]
fn a_parser_is_made_of_any_text_that_begins_with_a_token() {
    for text in ["1", ")", "*", ",", "1$", "sin("] {
        assert!(Parser::new(text, None).is_ok(), "{}", text);
    }
}
