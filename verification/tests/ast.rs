use calcparse::ast::{BinaryOp, Constant, Node, UnaryOp, Value, VariadicOp};
use calcparse::parser::parse_expression;

fn number(text: &str) -> Node {
    Node::Number(Value::Literal(text.to_string()))
}

#[test]
fn a_copy_of_a_tree_equals_the_tree() {
    for text in [
        "1",
        "2+3*4",
        "max(1,min(2,3),@)!",
        "-|pi-e|^2",
        "atan2(1,\u{230a}2.5\u{230b})(90)\u{b0}",
    ] {
        let tree = parse_expression(text, 17).unwrap();
        assert_eq!(tree.clone(), tree);
    }
}

#[test]
fn a_copy_of_a_value_equals_the_value() {
    for value in [
        Value::Literal("12.5".to_string()),
        Value::Answer(0x4014_0000_0000_0000),
        Value::Constant(Constant::Pi),
        Value::Constant(Constant::DegreesPerRadian),
    ] {
        assert_eq!(value.clone(), value);
    }
}

#[test]
fn an_operation_on_one_operand_makes_its_own_node() {
    assert_eq!(
        Node::unary(UnaryOp::Negative, number("1")),
        Node::Negative(Box::new(number("1")))
    );
    assert_eq!(
        Node::unary(UnaryOp::Factorial, number("1")),
        Node::Factorial(Box::new(number("1")))
    );
    assert_eq!(
        Node::unary(UnaryOp::Pow2, number("1")),
        Node::Pow2(Box::new(number("1")))
    );
    assert_eq!(
        Node::unary(UnaryOp::Pow3, number("1")),
        Node::Pow3(Box::new(number("1")))
    );
    assert_eq!(
        Node::unary(UnaryOp::Sqrt, number("1")),
        Node::Sqrt(Box::new(number("1")))
    );
    assert_eq!(
        Node::unary(UnaryOp::Truncate, number("1")),
        Node::Truncate(Box::new(number("1")))
    );
}

#[test]
fn an_operation_on_two_operands_makes_its_own_node() {
    let pairs = [
        (BinaryOp::Add, Node::Add(Box::new(number("1")), Box::new(number("2")))),
        (BinaryOp::Subtract, Node::Subtract(Box::new(number("1")), Box::new(number("2")))),
        (BinaryOp::Multiply, Node::Multiply(Box::new(number("1")), Box::new(number("2")))),
        (BinaryOp::Divide, Node::Divide(Box::new(number("1")), Box::new(number("2")))),
        (BinaryOp::Modulo, Node::Modulo(Box::new(number("1")), Box::new(number("2")))),
        (BinaryOp::Caret, Node::Caret(Box::new(number("1")), Box::new(number("2")))),
        (BinaryOp::Atan2, Node::Atan2(Box::new(number("1")), Box::new(number("2")))),
        (BinaryOp::Pow, Node::Pow(Box::new(number("1")), Box::new(number("2")))),
        (BinaryOp::Log, Node::Log(Box::new(number("1")), Box::new(number("2")))),
    ];
    for (op, expected) in pairs {
        assert_eq!(Node::binary(op, number("1"), number("2")), expected);
    }
}

#[test]
fn an_operation_on_many_operands_keeps_their_order() {
    let operands = || vec![number("3"), number("1"), number("2")];
    assert_eq!(Node::variadic(VariadicOp::Min, operands()), Node::Min(operands()));
    assert_eq!(Node::variadic(VariadicOp::Max, operands()), Node::Max(operands()));
}
