use calcparse::ast::{Constant, Node, Value};
use calcparse::parser::{parse_expression, Parser};
use statrs::function::gamma::gamma;

fn factorial(x: f64) -> f64 {
    if x >= 0.0 {
        if (x % 1.0) > 0.0 {
            gamma(x + 1.0)
        } else {
            let mut product = 1.0;
            for i in 2..=(x as usize) {
                product *= i as f64;
            }
            product
        }
    } else if (x % 1.0) == 0.0 {
        f64::NAN
    } else {
        gamma(x + 1.0)
    }
}

fn sign(x: f64) -> f64 {
    if x > 0.0 {
        1.0
    } else if x < 0.0 {
        -1.0
    } else {
        x * 0.0
    }
}

fn number(value: &Value) -> f64 {
    match value {
        Value::Literal(text) => text.parse::<f64>().unwrap(),
        Value::Answer(bits) => f64::from_bits(*bits),
        Value::Constant(Constant::Pi) => std::f64::consts::PI,
        Value::Constant(Constant::E) => std::f64::consts::E,
        Value::Constant(Constant::RadiansPerDegree) => std::f64::consts::PI / 180.0,
        Value::Constant(Constant::DegreesPerRadian) => 180.0 / std::f64::consts::PI,
    }
}

fn eval(node: &Node) -> f64 {
    match node {
        Node::Number(value) => number(value),
        Node::Add(a, b) => eval(a) + eval(b),
        Node::Subtract(a, b) => eval(a) - eval(b),
        Node::Multiply(a, b) => eval(a) * eval(b),
        Node::Divide(a, b) => eval(a) / eval(b),
        Node::Modulo(a, b) => eval(a) % eval(b),
        Node::Caret(a, b) => eval(a).powf(eval(b)),
        Node::Negative(a) => -eval(a),
        Node::Factorial(a) => factorial(eval(a)),
        Node::Pow2(a) => eval(a).powi(2),
        Node::Pow3(a) => eval(a).powi(3),
        Node::Abs(a) => eval(a).abs(),
        Node::Floor(a) => eval(a).floor(),
        Node::Ceil(a) => eval(a).ceil(),
        Node::Round(a) => eval(a).round(),
        Node::Sin(a) => eval(a).sin(),
        Node::Cos(a) => eval(a).cos(),
        Node::Tan(a) => eval(a).tan(),
        Node::Sinh(a) => eval(a).sinh(),
        Node::Cosh(a) => eval(a).cosh(),
        Node::Tanh(a) => eval(a).tanh(),
        Node::Asin(a) => eval(a).asin(),
        Node::Acos(a) => eval(a).acos(),
        Node::Atan(a) => eval(a).atan(),
        Node::Arsinh(a) => eval(a).asinh(),
        Node::Arcosh(a) => eval(a).acosh(),
        Node::Artanh(a) => eval(a).atanh(),
        Node::Sqrt(a) => eval(a).sqrt(),
        Node::Exp(a) => eval(a).exp(),
        Node::Exp2(a) => eval(a).exp2(),
        Node::Ln(a) => eval(a).ln(),
        Node::Sign(a) => sign(eval(a)),
        Node::Truncate(a) => eval(a).trunc(),
        Node::Atan2(a, b) => eval(a).atan2(eval(b)),
        Node::Pow(a, b) => eval(a).powf(eval(b)),
        Node::Log(a, b) => eval(a).log(eval(b)),
        Node::Min(operands) => operands.iter().map(eval).reduce(f64::min).unwrap(),
        Node::Max(operands) => operands.iter().map(eval).reduce(f64::max).unwrap(),
    }
}

fn value(text: &str) -> f64 {
    eval(&parse_expression(text, 0).unwrap())
}

fn value_after(text: &str, previous: f64) -> f64 {
    eval(&parse_expression(text, previous.to_bits()).unwrap())
}

#[test]
fn test_expr1() {
    let ast = Parser::new("1+2-3", None).unwrap().parse().unwrap();
    let value = eval(&ast);
    assert_eq!(value, 0.0);
}

#[test]
fn test_expr2() {
    let ast = Parser::new("3+2-1*5/4", None).unwrap().parse().unwrap();
    let value = eval(&ast);
    assert_eq!(value, 3.75);
}

#[test]
fn the_four_operations_follow_precedence_from_left_to_right() {
    assert_eq!(value("2+3*4"), 14.0);
    assert_eq!(value("2*3+4"), 10.0);
    assert_eq!(value("(2+3)*4"), 20.0);
    assert_eq!(value("8/4/2"), 1.0);
    assert_eq!(value("8-4-2"), 2.0);
    assert_eq!(value("8-(4-2)"), 6.0);
    assert_eq!(value("1+2*3-4/5"), 1.0 + 2.0 * 3.0 - 4.0 / 5.0);
    assert_eq!(value("0.1+0.2"), 0.1 + 0.2);
}

#[test]
fn a_chain_of_powers_is_taken_from_the_left() {
    assert_eq!(value("2^3^2"), 64.0);
    assert_eq!(value("2^(3^2)"), 512.0);
    assert_eq!(value("2*3^2"), 18.0);
    assert_eq!(value("4^0.5"), 2.0);
    assert!(value("(0-8)^0.5").is_nan());
}

#[test]
fn a_signed_base_is_raised_with_its_sign() {
    assert_eq!(value("-2^2"), 4.0);
    assert_eq!(value("-(2^2)"), -4.0);
    assert_eq!(value("2--3"), 5.0);
    assert_eq!(value("+7"), 7.0);
}

#[test]
fn implicit_products() {
    assert_eq!(value("(2)(3)"), 6.0);
    assert_eq!(value("2sin(0)"), 0.0);
    assert_eq!(value("2cos(0)"), 2.0);
    assert_eq!(value("(1)(2)(3)"), 6.0);
    assert_eq!(value("3!2"), 12.0);
    assert_eq!(value("1+(2)(3)"), 7.0);
}

#[test]
fn factorial_of_a_whole_number_is_the_product() {
    assert_eq!(value("5!"), 120.0);
    assert_eq!(value("0!"), 1.0);
    assert_eq!(value("1!"), 1.0);
    assert_eq!(value("10!"), 3628800.0);
    assert_eq!(value("3!!"), 720.0);
}

#[test]
fn factorial_of_a_negative_whole_number_is_undefined() {
    assert!(value("(-3)!").is_nan());
    assert!(value("(-1)!").is_nan());
}

#[test]
fn factorial_of_a_fraction_is_the_gamma_function() {
    let expected = 3.323350970447843;
    assert!((value("2.5!") - expected).abs() < 1e-12);
    assert_eq!(value("2.5!"), gamma(3.5));
    assert_eq!(value("(-1.5)!"), gamma(-0.5));
    assert!((value("0.5!") - 0.886226925452758).abs() < 1e-12);
}

#[test]
fn the_previous_answer_is_threaded_through() {
    let first = value("2+3");
    assert_eq!(first, 5.0);
    assert_eq!(value_after("@*2", first), 10.0);
    assert_eq!(value_after("@", -0.5), -0.5);
    assert!(value_after("@", f64::NAN).is_nan());
    assert_eq!(value_after("@+1", f64::INFINITY), f64::INFINITY);
    assert_eq!(value("@"), 0.0);
}

#[test]
fn minimum_and_maximum_fold_their_arguments() {
    assert_eq!(value("max(1,2,3)"), 3.0);
    assert_eq!(value("min(3,1,2)"), 1.0);
    assert_eq!(value("max(7)"), 7.0);
    assert_eq!(value("min(2,max(1,5))"), 2.0);
}

#[test]
fn division_by_zero_is_no_error() {
    assert_eq!(value("1/0"), f64::INFINITY);
    assert_eq!(value("(0-1)/0"), f64::NEG_INFINITY);
    assert!(value("0/0").is_nan());
    assert!(value("5%0").is_nan());
}

#[test]
fn postfix_marks() {
    assert_eq!(value("3\u{b2}"), 9.0);
    assert_eq!(value("2\u{b3}"), 8.0);
    assert_eq!(value("180\u{b0}"), 180.0 * (std::f64::consts::PI / 180.0));
    assert!((value("90\u{b0}") - std::f64::consts::FRAC_PI_2).abs() < 1e-15);
    assert!((value("pi rad") - 180.0).abs() < 1e-12);
    assert_eq!(value("7%4"), 3.0);
}

#[test]
fn brackets() {
    assert_eq!(value("|0-3|"), 3.0);
    assert_eq!(value("\u{230a}2.5\u{230b}"), 2.0);
    assert_eq!(value("\u{2308}2.5\u{2309}"), 3.0);
    assert_eq!(value("\u{230a}0-2.5\u{230b}"), -3.0);
}

#[test]
fn named_functions_are_their_mathematical_counterparts() {
    assert_eq!(value("abs(0-2)"), 2.0);
    assert_eq!(value("floor(2.7)"), 2.0);
    assert_eq!(value("ceil(2.2)"), 3.0);
    assert_eq!(value("round(2.5)"), 3.0);
    assert_eq!(value("sin(0)"), 0.0);
    assert_eq!(value("cos(0)"), 1.0);
    assert_eq!(value("tan(0)"), 0.0);
    assert_eq!(value("sinh(1)"), 1f64.sinh());
    assert_eq!(value("cosh(1)"), 1f64.cosh());
    assert_eq!(value("tanh(1)"), 1f64.tanh());
    assert_eq!(value("asin(1)"), std::f64::consts::FRAC_PI_2);
    assert_eq!(value("acos(1)"), 0.0);
    assert_eq!(value("atan(1)"), std::f64::consts::FRAC_PI_4);
    assert_eq!(value("asinh(1)"), 1f64.asinh());
    assert_eq!(value("arcosh(2)"), 2f64.acosh());
    assert_eq!(value("atanh(0.5)"), 0.5f64.atanh());
    assert_eq!(value("sqrt(16)"), 4.0);
    assert_eq!(value("exp(0)"), 1.0);
    assert_eq!(value("exp2(10)"), 1024.0);
    assert_eq!(value("ln(e)"), 1.0);
    assert_eq!(value("sign(0-5)"), -1.0);
    assert_eq!(value("sign(0)"), 0.0);
    assert_eq!(value("sgn(5)"), 1.0);
    assert_eq!(value("trunc(2.7)"), 2.0);
    assert_eq!(value("truncate(0-2.7)"), -2.0);
    assert_eq!(value("atan2(1,1)"), std::f64::consts::FRAC_PI_4);
    assert_eq!(value("pow(2,10)"), 1024.0);
    assert_eq!(value("log(8,2)"), 8f64.log(2.0));
    assert!((value("log(8,2)") - 3.0).abs() < 1e-12);
    assert!(value("acos(2)").is_nan());
    assert!(value("ln(0-1)").is_nan());
}

#[test]
fn named_constants() {
    assert_eq!(value("pi"), std::f64::consts::PI);
    assert_eq!(value("\u{3c0}"), std::f64::consts::PI);
    assert_eq!(value("e"), std::f64::consts::E);
    assert_eq!(value("2*pi"), 2.0 * std::f64::consts::PI);
}

#[test]
fn a_literal_is_read_as_the_nearest_double() {
    assert_eq!(value("34"), 34.0);
    assert_eq!(value("34.5"), 34.5);
    assert_eq!(value("3."), 3.0);
    assert_eq!(value("007.50"), 7.5);
    assert_eq!(value("0.1"), 0.1);
    assert_eq!(
        value("123456789012345678901234567890"),
        123456789012345678901234567890.0
    );
}

#[test]
fn white_space_does_not_change_the_value() {
    assert_eq!(value(" 1 + 2 "), 3.0);
    assert_eq!(value("max( 1,\t2 , 3 )"), 3.0);
}
