use calcparse::ast::{Node, Value};
use calcparse::parser::parse_expression;

/// A small deterministic source of pseudo-random numbers.
struct Dice(u64);

impl Dice {
    fn roll(&mut self, sides: u64) -> u64 {
        self.0 ^= self.0 << 13;
        self.0 ^= self.0 >> 7;
        self.0 ^= self.0 << 17;
        self.0 % sides
    }
}

fn literal(dice: &mut Dice) -> Node {
    let whole = dice.roll(1000);
    let text = match dice.roll(3) {
        0 => format!("{}", whole),
        1 => format!("{}.{}", whole, dice.roll(100)),
        _ => format!("{}.", whole),
    };
    Node::Number(Value::Literal(text))
}

fn arithmetic(dice: &mut Dice, depth: u32) -> Node {
    if depth == 0 {
        return literal(dice);
    }
    let mut operand = |dice: &mut Dice| Box::new(arithmetic(dice, depth - 1));
    match dice.roll(7) {
        0 => Node::Add(operand(dice), operand(dice)),
        1 => Node::Subtract(operand(dice), operand(dice)),
        2 => Node::Multiply(operand(dice), operand(dice)),
        3 => Node::Divide(operand(dice), operand(dice)),
        4 => Node::Negative(operand(dice)),
        _ => literal(dice),
    }
}

fn sum(tree: &Node) -> String {
    match tree {
        Node::Add(left, right) => format!("{}+{}", sum(left), product(right)),
        Node::Subtract(left, right) => format!("{}-{}", sum(left), product(right)),
        _ => product(tree),
    }
}

fn product(tree: &Node) -> String {
    match tree {
        Node::Multiply(left, right) => format!("{}*{}", product(left), atom(right)),
        Node::Divide(left, right) => format!("{}/{}", product(left), atom(right)),
        _ => atom(tree),
    }
}

fn atom(tree: &Node) -> String {
    match tree {
        Node::Number(Value::Literal(text)) => text.clone(),
        Node::Negative(operand) => format!("-{}", atom(operand)),
        _ => format!("({})", sum(tree)),
    }
}

#[test]
fn arithmetic_written_in_the_customary_way_is_read_back() {
    let mut dice = Dice(0x2545_f491_4f6c_dd1d);
    for round in 0..2000 {
        let tree = arithmetic(&mut dice, 1 + round % 6);
        let text = sum(&tree);
        assert_eq!(parse_expression(&text, 0), Ok(tree), "{}", text);
    }
}

#[test]
fn spaces_between_the_tokens_change_nothing() {
    let mut dice = Dice(0x9e37_79b9_7f4a_7c15);
    for round in 0..500 {
        let tree = arithmetic(&mut dice, 1 + round % 5);
        let text = sum(&tree);
        let mut spaced = String::new();
        for c in text.chars() {
            if dice.roll(3) == 0 {
                spaced.push(' ');
            }
            spaced.push(c);
        }
        assert_eq!(parse_expression(&spaced, 0), Ok(tree), "{}", spaced);
    }
}

#[test]
fn any_text_is_parsed_or_rejected_and_always_alike() {
    let letters = "0123456789.+-*/^()|!,%@ sincoatlgexpmrdh$";
    let marks = "\u{b2}\u{b3}\u{b0}\u{3c0}\u{230a}\u{230b}\u{2308}\u{2309}";
    let alphabet: Vec<char> = letters.chars().chain(marks.chars()).collect();
    let mut dice = Dice(0xd1b5_4a32_d192_ed03);
    for _ in 0..5000 {
        let length = dice.roll(14);
        let mut text = String::new();
        for _ in 0..length {
            text.push(alphabet[dice.roll(alphabet.len() as u64) as usize]);
        }
        let first = parse_expression(&text, 7);
        let second = parse_expression(&text, 7);
        assert_eq!(first, second, "{}", text);
    }
}

fn leaves(tree: &Node, found: &mut Vec<String>) {
    match tree {
        Node::Number(Value::Literal(text)) => found.push(text.clone()),
        Node::Number(_) => found.push(String::new()),
        Node::Add(a, b)
        | Node::Subtract(a, b)
        | Node::Multiply(a, b)
        | Node::Divide(a, b)
        | Node::Modulo(a, b)
        | Node::Caret(a, b)
        | Node::Atan2(a, b)
        | Node::Pow(a, b)
        | Node::Log(a, b) => {
            leaves(a, found);
            leaves(b, found);
        }
        Node::Min(operands) | Node::Max(operands) => {
            for operand in operands {
                leaves(operand, found);
            }
        }
        Node::Negative(a)
        | Node::Factorial(a)
        | Node::Pow2(a)
        | Node::Pow3(a)
        | Node::Abs(a)
        | Node::Floor(a)
        | Node::Ceil(a)
        | Node::Round(a)
        | Node::Sin(a)
        | Node::Cos(a)
        | Node::Tan(a)
        | Node::Sinh(a)
        | Node::Cosh(a)
        | Node::Tanh(a)
        | Node::Asin(a)
        | Node::Acos(a)
        | Node::Atan(a)
        | Node::Arsinh(a)
        | Node::Arcosh(a)
        | Node::Artanh(a)
        | Node::Sqrt(a)
        | Node::Exp(a)
        | Node::Exp2(a)
        | Node::Ln(a)
        | Node::Sign(a)
        | Node::Truncate(a) => leaves(a, found),
    }
}

#[test]
fn the_literals_of_a_text_are_the_leaves_of_its_tree_in_their_order() {
    for (text, expected) in [
        ("1+2*3", vec!["1", "2", "3"]),
        ("(4)(5)(6)", vec!["4", "5", "6"]),
        ("max(3,1,2)!", vec!["3", "1", "2"]),
        ("pow(2,10)-atan2(1,7)", vec!["2", "10", "1", "7"]),
        ("-|8-9|^2", vec!["8", "9", "2"]),
        ("7sin(8)+9!3", vec!["7", "8", "9", "3"]),
        ("1-@+pi", vec!["1", "", ""]),
        ("90\u{b0}+1rad", vec!["90", "", "1", ""]),
    ] {
        let mut found = Vec::new();
        leaves(&parse_expression(text, 0).unwrap(), &mut found);
        assert_eq!(found, expected, "{}", text);
    }
}
