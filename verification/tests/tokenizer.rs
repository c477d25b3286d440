use calcparse::token::Token;
use calcparse::tokenizer::Tokenizer;

fn literal(text: &str) -> Token {
    Token::Num(text.to_string())
}

fn tokens_of(text: &str) -> Vec<Option<Token>> {
    let mut tokenizer = Tokenizer::new(text);
    let mut tokens = Vec::new();
    loop {
        let token = tokenizer.next();
        let done = matches!(token, None | Some(Token::Eof));
        tokens.push(token);
        if done {
            return tokens;
        }
    }
}

fn value_of(token: Token) -> f64 {
    match token {
        Token::Num(text) => text.parse::<f64>().unwrap(),
        other => panic!("{:?} is no literal", other),
    }
}

#[test]
fn test_integer_number() {
    let mut tokenizer = Tokenizer::new("34");
    assert_eq!(tokenizer.next().unwrap(), literal("34"));
    let mut tokenizer = Tokenizer::new("34");
    assert_eq!(value_of(tokenizer.next().unwrap()), 34.0);
}

#[test]
fn test_decimal_number() {
    let mut tokenizer = Tokenizer::new("34.5");
    assert_eq!(tokenizer.next().unwrap(), literal("34.5"));
    let mut tokenizer = Tokenizer::new("34.5");
    assert_eq!(value_of(tokenizer.next().unwrap()), 34.5);
}

#[test]
fn test_sin_function() {
    let mut tokenizer = Tokenizer::new("sin(3.14159)");
    assert_eq!(tokenizer.next().unwrap(), Token::Sin)
}

#[test]
fn test_cos_function() {
    let mut tokenizer = Tokenizer::new("cos(3.14159)");
    assert_eq!(tokenizer.next().unwrap(), Token::Cos)
}

#[test]
fn test_tan_function() {
    let mut tokenizer = Tokenizer::new("tan(3.14159)");
    assert_eq!(tokenizer.next().unwrap(), Token::Tan)
}

#[test]
fn test_atan2_function() {
    let mut tokenizer = Tokenizer::new("atan2(3.14159, 2.1415)");
    assert_eq!(tokenizer.next().unwrap(), Token::Atan2)
}

#[test]
fn every_symbol_is_its_own_token() {
    let expected = vec![
        Some(Token::Ans),
        Some(Token::Add),
        Some(Token::Subtract),
        Some(Token::Multiply),
        Some(Token::Divide),
        Some(Token::Caret),
        Some(Token::LeftParen),
        Some(Token::RightParen),
        Some(Token::Bar),
        Some(Token::ExclamationMark),
        Some(Token::Comma),
        Some(Token::Modulo),
        Some(Token::Pi),
        Some(Token::LeftFloor),
        Some(Token::RightFloor),
        Some(Token::LeftCeiling),
        Some(Token::RightCeiling),
        Some(Token::Pow2),
        Some(Token::Pow3),
        Some(Token::DegToRad),
        Some(Token::Eof),
    ];
    let text = "@+-*/^()|!,%\u{3c0}\u{230a}\u{230b}\u{2308}\u{2309}\u{b2}\u{b3}\u{b0}";
    assert_eq!(tokens_of(text), expected);
}

#[test]
fn a_function_name_leaves_its_parenthesis_in_the_text() {
    assert_eq!(
        tokens_of("sin(1)"),
        vec![
            Some(Token::Sin),
            Some(Token::LeftParen),
            Some(literal("1")),
            Some(Token::RightParen),
            Some(Token::Eof),
        ]
    );
}

#[test]
fn every_function_name_is_known() {
    let names = [
        ("abs(", Token::Abs),
        ("floor(", Token::Floor),
        ("ceil(", Token::Ceil),
        ("round(", Token::Round),
        ("sin(", Token::Sin),
        ("cos(", Token::Cos),
        ("tan(", Token::Tan),
        ("sinh(", Token::Sinh),
        ("cosh(", Token::Cosh),
        ("tanh(", Token::Tanh),
        ("asin(", Token::Asin),
        ("acos(", Token::Acos),
        ("atan(", Token::Atan),
        ("asinh(", Token::Arsinh),
        ("arsinh(", Token::Arsinh),
        ("acosh(", Token::Arcosh),
        ("arcosh(", Token::Arcosh),
        ("atanh(", Token::Artanh),
        ("artanh(", Token::Artanh),
        ("sqrt(", Token::Sqrt),
        ("exp(", Token::Exp),
        ("exp2(", Token::Exp2),
        ("ln(", Token::Ln),
        ("sign(", Token::Sign),
        ("sgn(", Token::Sign),
        ("signum(", Token::Sign),
        ("trunc(", Token::Truncate),
        ("truncate(", Token::Truncate),
        ("atan2(", Token::Atan2),
        ("pow(", Token::Pow),
        ("log(", Token::Log),
        ("min(", Token::Min),
        ("max(", Token::Max),
    ];
    for (text, token) in names {
        let mut tokenizer = Tokenizer::new(text);
        assert_eq!(tokenizer.next(), Some(token), "{}", text);
        assert_eq!(tokenizer.next(), Some(Token::LeftParen), "{}", text);
    }
}

#[test]
fn a_function_name_without_its_parenthesis_is_no_token() {
    for text in ["sin", "sin2", "cos)", "floor", "ln", "min,", "atan2"] {
        let mut tokenizer = Tokenizer::new(text);
        assert_eq!(tokenizer.next(), None, "{}", text);
    }
}

#[test]
fn the_longer_name_wins() {
    assert_eq!(tokens_of("sinh(")[0], Some(Token::Sinh));
    assert_eq!(tokens_of("sin(")[0], Some(Token::Sin));
    assert_eq!(tokens_of("exp2(")[0], Some(Token::Exp2));
    assert_eq!(tokens_of("exp(")[0], Some(Token::Exp));
    assert_eq!(tokens_of("atan2(")[0], Some(Token::Atan2));
    assert_eq!(tokens_of("atan(")[0], Some(Token::Atan));
    assert_eq!(tokens_of("truncate(")[0], Some(Token::Truncate));
    assert_eq!(tokens_of("signum(")[0], Some(Token::Sign));
}

#[test]
fn constants_and_the_radian_mark_need_no_parenthesis() {
    assert_eq!(tokens_of("e"), vec![Some(Token::E), Some(Token::Eof)]);
    assert_eq!(tokens_of("pi"), vec![Some(Token::Pi), Some(Token::Eof)]);
    assert_eq!(tokens_of("rad"), vec![Some(Token::RadToDeg), Some(Token::Eof)]);
    assert_eq!(
        tokens_of("e+pi"),
        vec![Some(Token::E), Some(Token::Add), Some(Token::Pi), Some(Token::Eof)]
    );
    assert_eq!(
        tokens_of("e(1)")[..2],
        [Some(Token::E), Some(Token::LeftParen)]
    );
}

#[test]
fn a_bare_e_before_an_unfinished_name_is_the_constant() {
    assert_eq!(tokens_of("exp"), vec![Some(Token::E), None]);
}

#[test]
fn a_literal_takes_the_whole_run_of_digits_and_points() {
    assert_eq!(
        tokens_of("12.50+3."),
        vec![
            Some(literal("12.50")),
            Some(Token::Add),
            Some(literal("3.")),
            Some(Token::Eof),
        ]
    );
    assert_eq!(
        tokens_of("123456789012345678901234567890123456789012345"),
        vec![
            Some(literal("123456789012345678901234567890123456789012345")),
            Some(Token::Eof),
        ]
    );
}

#[test]
fn a_literal_with_two_points_is_no_token() {
    assert_eq!(tokens_of("1.2.3"), vec![None]);
    assert_eq!(tokens_of("1..2"), vec![None]);
    assert_eq!(tokens_of("7+1.2.3"), vec![Some(literal("7")), Some(Token::Add), None]);
}

#[test]
fn a_literal_before_a_parenthesis_is_no_token() {
    assert_eq!(tokens_of("2(3)"), vec![None]);
    assert_eq!(tokens_of("2.5("), vec![None]);
    assert_eq!(
        tokens_of("2)"),
        vec![Some(literal("2")), Some(Token::RightParen), Some(Token::Eof)]
    );
}

#[test]
fn a_point_cannot_open_a_literal() {
    assert_eq!(tokens_of(".5"), vec![None]);
}

#[test]
fn an_unknown_character_is_no_token() {
    for text in ["$", "x", "#1", " 1", "A", "\u{221a}4"] {
        let mut tokenizer = Tokenizer::new(text);
        assert_eq!(tokenizer.next(), None, "{}", text);
    }
}

#[test]
fn the_cursor_stays_where_no_token_is() {
    let mut tokenizer = Tokenizer::new("1$");
    assert_eq!(tokenizer.next(), Some(literal("1")));
    assert_eq!(tokenizer.next(), None);
    assert_eq!(tokenizer.next(), None);
}

#[test]
fn the_end_of_the_text_is_a_token() {
    let mut tokenizer = Tokenizer::new("");
    assert_eq!(tokenizer.next(), Some(Token::Eof));
    assert_eq!(tokenizer.next(), Some(Token::Eof));
    let mut tokenizer = Tokenizer::new("1");
    assert_eq!(tokenizer.next(), Some(literal("1")));
    assert_eq!(tokenizer.next(), Some(Token::Eof));
}
