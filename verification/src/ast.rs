//! The syntax tree of an expression, and its mathematical model.

use crate::token::is_numeral;
use vstd::prelude::*;

verus! {

/// A number that the language knows by name.
#[derive(Debug, Clone, Copy, PartialEq, Eq, Structural)]
pub enum Constant {
    /// The ratio of a circle's circumference to its diameter.
    Pi,
    /// The base of the natural logarithm.
    E,
    /// The factor that turns degrees into radians: pi over 180.
    RadiansPerDegree,
    /// The factor that turns radians into degrees: 180 over pi.
    DegreesPerRadian,
}

/// What a number leaf of the tree holds. The tree never computes with
/// numbers, so it records where each one comes from and leaves the
/// arithmetic to the evaluator.
#[derive(Debug, PartialEq)]
pub enum Value {
    /// A literal, by its text as written.
    Literal(String),
    /// The previous answer, by the bit pattern of its IEEE 754 double.
    Answer(u64),
    /// A named constant.
    Constant(Constant),
}

/// The model of a [`Value`].
pub enum ValueView {
    Literal(Seq<char>),
    Answer(u64),
    Constant(Constant),
}

impl View for Value {
    type V = ValueView;

    open spec fn view(&self) -> ValueView {
        match self {
            Value::Literal(text) => ValueView::Literal(text@),
            Value::Answer(bits) => ValueView::Answer(*bits),
            Value::Constant(constant) => ValueView::Constant(*constant),
        }
    }
}

/// The operations on one operand: the sign, the postfix marks and the named
/// functions of one argument.
#[derive(Debug, Clone, Copy, PartialEq, Eq, Structural)]
pub enum UnaryOp {
    Negative,
    Factorial,
    Pow2,
    Pow3,
    Abs,
    Floor,
    Ceil,
    Round,
    Sin,
    Cos,
    Tan,
    Sinh,
    Cosh,
    Tanh,
    Asin,
    Acos,
    Atan,
    Arsinh,
    Arcosh,
    Artanh,
    Sqrt,
    Exp,
    Exp2,
    Ln,
    Sign,
    Truncate,
}

/// The operations on two operands: the infix operators and the named
/// functions of two arguments.
#[derive(Debug, Clone, Copy, PartialEq, Eq, Structural)]
pub enum BinaryOp {
    Add,
    Subtract,
    Multiply,
    Divide,
    Modulo,
    Caret,
    Atan2,
    Pow,
    Log,
}

/// The operations on one or more operands.
#[derive(Debug, Clone, Copy, PartialEq, Eq, Structural)]
pub enum VariadicOp {
    Min,
    Max,
}

/// A syntax tree. Each node owns its operands.
#[derive(Debug, PartialEq)]
pub enum Node {
    Add(Box<Node>, Box<Node>),
    Subtract(Box<Node>, Box<Node>),
    Multiply(Box<Node>, Box<Node>),
    Divide(Box<Node>, Box<Node>),
    Modulo(Box<Node>, Box<Node>),
    Caret(Box<Node>, Box<Node>),
    Negative(Box<Node>),
    Factorial(Box<Node>),
    Pow2(Box<Node>),
    Pow3(Box<Node>),
    Abs(Box<Node>),
    Floor(Box<Node>),
    Ceil(Box<Node>),
    Round(Box<Node>),
    Sin(Box<Node>),
    Cos(Box<Node>),
    Tan(Box<Node>),
    Sinh(Box<Node>),
    Cosh(Box<Node>),
    Tanh(Box<Node>),
    Asin(Box<Node>),
    Acos(Box<Node>),
    Atan(Box<Node>),
    Arsinh(Box<Node>),
    Arcosh(Box<Node>),
    Artanh(Box<Node>),
    Sqrt(Box<Node>),
    Exp(Box<Node>),
    Exp2(Box<Node>),
    Ln(Box<Node>),
    Sign(Box<Node>),
    Truncate(Box<Node>),
    Atan2(Box<Node>, Box<Node>),
    Pow(Box<Node>, Box<Node>),
    Log(Box<Node>, Box<Node>),
    Min(Vec<Node>),
    Max(Vec<Node>),
    Number(Value),
}

/// The model of a [`Node`]: a number, or an operation applied to the models of
/// its operands.
pub enum NodeView {
    Number(ValueView),
    Unary(UnaryOp, Box<NodeView>),
    Binary(BinaryOp, Box<NodeView>, Box<NodeView>),
    Variadic(VariadicOp, Seq<NodeView>),
}

/// The model of a tree.
pub open spec fn model(node: Node) -> NodeView
    decreases node,
{
    match node {
        Node::Add(left, right) => NodeView::Binary(
            BinaryOp::Add,
            Box::new(model(*left)),
            Box::new(model(*right)),
        ),
        Node::Subtract(left, right) => NodeView::Binary(
            BinaryOp::Subtract,
            Box::new(model(*left)),
            Box::new(model(*right)),
        ),
        Node::Multiply(left, right) => NodeView::Binary(
            BinaryOp::Multiply,
            Box::new(model(*left)),
            Box::new(model(*right)),
        ),
        Node::Divide(left, right) => NodeView::Binary(
            BinaryOp::Divide,
            Box::new(model(*left)),
            Box::new(model(*right)),
        ),
        Node::Modulo(left, right) => NodeView::Binary(
            BinaryOp::Modulo,
            Box::new(model(*left)),
            Box::new(model(*right)),
        ),
        Node::Caret(left, right) => NodeView::Binary(
            BinaryOp::Caret,
            Box::new(model(*left)),
            Box::new(model(*right)),
        ),
        Node::Negative(operand) => NodeView::Unary(UnaryOp::Negative, Box::new(model(*operand))),
        Node::Factorial(operand) => NodeView::Unary(UnaryOp::Factorial, Box::new(model(*operand))),
        Node::Pow2(operand) => NodeView::Unary(UnaryOp::Pow2, Box::new(model(*operand))),
        Node::Pow3(operand) => NodeView::Unary(UnaryOp::Pow3, Box::new(model(*operand))),
        Node::Abs(operand) => NodeView::Unary(UnaryOp::Abs, Box::new(model(*operand))),
        Node::Floor(operand) => NodeView::Unary(UnaryOp::Floor, Box::new(model(*operand))),
        Node::Ceil(operand) => NodeView::Unary(UnaryOp::Ceil, Box::new(model(*operand))),
        Node::Round(operand) => NodeView::Unary(UnaryOp::Round, Box::new(model(*operand))),
        Node::Sin(operand) => NodeView::Unary(UnaryOp::Sin, Box::new(model(*operand))),
        Node::Cos(operand) => NodeView::Unary(UnaryOp::Cos, Box::new(model(*operand))),
        Node::Tan(operand) => NodeView::Unary(UnaryOp::Tan, Box::new(model(*operand))),
        Node::Sinh(operand) => NodeView::Unary(UnaryOp::Sinh, Box::new(model(*operand))),
        Node::Cosh(operand) => NodeView::Unary(UnaryOp::Cosh, Box::new(model(*operand))),
        Node::Tanh(operand) => NodeView::Unary(UnaryOp::Tanh, Box::new(model(*operand))),
        Node::Asin(operand) => NodeView::Unary(UnaryOp::Asin, Box::new(model(*operand))),
        Node::Acos(operand) => NodeView::Unary(UnaryOp::Acos, Box::new(model(*operand))),
        Node::Atan(operand) => NodeView::Unary(UnaryOp::Atan, Box::new(model(*operand))),
        Node::Arsinh(operand) => NodeView::Unary(UnaryOp::Arsinh, Box::new(model(*operand))),
        Node::Arcosh(operand) => NodeView::Unary(UnaryOp::Arcosh, Box::new(model(*operand))),
        Node::Artanh(operand) => NodeView::Unary(UnaryOp::Artanh, Box::new(model(*operand))),
        Node::Sqrt(operand) => NodeView::Unary(UnaryOp::Sqrt, Box::new(model(*operand))),
        Node::Exp(operand) => NodeView::Unary(UnaryOp::Exp, Box::new(model(*operand))),
        Node::Exp2(operand) => NodeView::Unary(UnaryOp::Exp2, Box::new(model(*operand))),
        Node::Ln(operand) => NodeView::Unary(UnaryOp::Ln, Box::new(model(*operand))),
        Node::Sign(operand) => NodeView::Unary(UnaryOp::Sign, Box::new(model(*operand))),
        Node::Truncate(operand) => NodeView::Unary(UnaryOp::Truncate, Box::new(model(*operand))),
        Node::Atan2(left, right) => NodeView::Binary(
            BinaryOp::Atan2,
            Box::new(model(*left)),
            Box::new(model(*right)),
        ),
        Node::Pow(left, right) => NodeView::Binary(
            BinaryOp::Pow,
            Box::new(model(*left)),
            Box::new(model(*right)),
        ),
        Node::Log(left, right) => NodeView::Binary(
            BinaryOp::Log,
            Box::new(model(*left)),
            Box::new(model(*right)),
        ),
        Node::Min(operands) => NodeView::Variadic(VariadicOp::Min, models(operands@)),
        Node::Max(operands) => NodeView::Variadic(VariadicOp::Max, models(operands@)),
        Node::Number(value) => NodeView::Number(value@),
    }
}

/// The models of a sequence of trees, in the same order.
pub open spec fn models(nodes: Seq<Node>) -> Seq<NodeView>
    decreases nodes,
{
    if nodes.len() == 0 {
        Seq::empty()
    } else {
        models(nodes.drop_last()).push(model(nodes.last()))
    }
}

/// A sequence of trees has as many models as trees.
pub proof fn lemma_models_len(nodes: Seq<Node>)
    ensures
        models(nodes).len() == nodes.len(),
    decreases nodes.len(),
{
    if nodes.len() > 0 {
        lemma_models_len(nodes.drop_last());
    }
}

impl View for Node {
    type V = NodeView;

    open spec fn view(&self) -> NodeView {
        model(*self)
    }
}

/// A copy of a value has the model of the value.
impl Clone for Value {
    fn clone(&self) -> (copy: Value)
        ensures
            copy@ == self@,
    {
        match self {
            Value::Literal(text) => Value::Literal(text.clone()),
            Value::Answer(bits) => Value::Answer(*bits),
            Value::Constant(constant) => Value::Constant(*constant),
        }
    }
}

/// A copy of a tree has the model of the tree.
impl Clone for Node {
    fn clone(&self) -> (copy: Node)
        ensures
            copy@ == self@,
        decreases self,
    {
        match self {
            Node::Add(left, right) => Node::Add(
                Box::new((&**left).clone()),
                Box::new((&**right).clone()),
            ),
            Node::Subtract(left, right) => Node::Subtract(
                Box::new((&**left).clone()),
                Box::new((&**right).clone()),
            ),
            Node::Multiply(left, right) => Node::Multiply(
                Box::new((&**left).clone()),
                Box::new((&**right).clone()),
            ),
            Node::Divide(left, right) => Node::Divide(
                Box::new((&**left).clone()),
                Box::new((&**right).clone()),
            ),
            Node::Modulo(left, right) => Node::Modulo(
                Box::new((&**left).clone()),
                Box::new((&**right).clone()),
            ),
            Node::Caret(left, right) => Node::Caret(
                Box::new((&**left).clone()),
                Box::new((&**right).clone()),
            ),
            Node::Negative(operand) => Node::Negative(Box::new((&**operand).clone())),
            Node::Factorial(operand) => Node::Factorial(Box::new((&**operand).clone())),
            Node::Pow2(operand) => Node::Pow2(Box::new((&**operand).clone())),
            Node::Pow3(operand) => Node::Pow3(Box::new((&**operand).clone())),
            Node::Abs(operand) => Node::Abs(Box::new((&**operand).clone())),
            Node::Floor(operand) => Node::Floor(Box::new((&**operand).clone())),
            Node::Ceil(operand) => Node::Ceil(Box::new((&**operand).clone())),
            Node::Round(operand) => Node::Round(Box::new((&**operand).clone())),
            Node::Sin(operand) => Node::Sin(Box::new((&**operand).clone())),
            Node::Cos(operand) => Node::Cos(Box::new((&**operand).clone())),
            Node::Tan(operand) => Node::Tan(Box::new((&**operand).clone())),
            Node::Sinh(operand) => Node::Sinh(Box::new((&**operand).clone())),
            Node::Cosh(operand) => Node::Cosh(Box::new((&**operand).clone())),
            Node::Tanh(operand) => Node::Tanh(Box::new((&**operand).clone())),
            Node::Asin(operand) => Node::Asin(Box::new((&**operand).clone())),
            Node::Acos(operand) => Node::Acos(Box::new((&**operand).clone())),
            Node::Atan(operand) => Node::Atan(Box::new((&**operand).clone())),
            Node::Arsinh(operand) => Node::Arsinh(Box::new((&**operand).clone())),
            Node::Arcosh(operand) => Node::Arcosh(Box::new((&**operand).clone())),
            Node::Artanh(operand) => Node::Artanh(Box::new((&**operand).clone())),
            Node::Sqrt(operand) => Node::Sqrt(Box::new((&**operand).clone())),
            Node::Exp(operand) => Node::Exp(Box::new((&**operand).clone())),
            Node::Exp2(operand) => Node::Exp2(Box::new((&**operand).clone())),
            Node::Ln(operand) => Node::Ln(Box::new((&**operand).clone())),
            Node::Sign(operand) => Node::Sign(Box::new((&**operand).clone())),
            Node::Truncate(operand) => Node::Truncate(Box::new((&**operand).clone())),
            Node::Atan2(left, right) => Node::Atan2(
                Box::new((&**left).clone()),
                Box::new((&**right).clone()),
            ),
            Node::Pow(left, right) => Node::Pow(
                Box::new((&**left).clone()),
                Box::new((&**right).clone()),
            ),
            Node::Log(left, right) => Node::Log(
                Box::new((&**left).clone()),
                Box::new((&**right).clone()),
            ),
            Node::Min(operands) => Node::Min(clones(operands)),
            Node::Max(operands) => Node::Max(clones(operands)),
            Node::Number(value) => Node::Number(value.clone()),
        }
    }
}

/// Copies of the trees of `nodes`, in the same order.
fn clones(nodes: &Vec<Node>) -> (copies: Vec<Node>)
    ensures
        models(copies@) == models(nodes@),
    decreases nodes,
{
    let mut copies: Vec<Node> = Vec::new();
    let mut k: usize = 0;
    while k < nodes.len()
        invariant
            k <= nodes.len(),
            copies.len() == k,
            models(copies@) == models(nodes@.take(k as int)),
        decreases nodes.len() - k,
    {
        let copy = nodes[k].clone();
        proof {
            assert(copies@.push(copy).drop_last() =~= copies@);
            assert(nodes@.take(k + 1).drop_last() =~= nodes@.take(k as int));
        }
        copies.push(copy);
        k = k + 1;
    }
    proof {
        assert(nodes@.take(k as int) =~= nodes@);
    }
    copies
}

impl NodeView {
    /// Whether the tree is complete: every literal in it is a well-formed
    /// numeral, and every operation on one or more operands has at least one.
    pub open spec fn well_formed(self) -> bool
        decreases self,
    {
        match self {
            NodeView::Number(value) => value matches ValueView::Literal(text) ==> is_numeral(text),
            NodeView::Unary(_, operand) => operand.well_formed(),
            NodeView::Binary(_, left, right) => left.well_formed() && right.well_formed(),
            NodeView::Variadic(_, operands) => {
                &&& operands.len() > 0
                &&& forall|k: int|
                    0 <= k < operands.len() ==> (#[trigger] operands[k]).well_formed()
            },
        }
    }
}

impl Node {
    /// The tree of `op` applied to `operand`.
    pub fn unary(op: UnaryOp, operand: Node) -> (node: Node)
        ensures
            node@ == NodeView::Unary(op, Box::new(operand@)),
    {
        let operand = Box::new(operand);
        match op {
            UnaryOp::Negative => Node::Negative(operand),
            UnaryOp::Factorial => Node::Factorial(operand),
            UnaryOp::Pow2 => Node::Pow2(operand),
            UnaryOp::Pow3 => Node::Pow3(operand),
            UnaryOp::Abs => Node::Abs(operand),
            UnaryOp::Floor => Node::Floor(operand),
            UnaryOp::Ceil => Node::Ceil(operand),
            UnaryOp::Round => Node::Round(operand),
            UnaryOp::Sin => Node::Sin(operand),
            UnaryOp::Cos => Node::Cos(operand),
            UnaryOp::Tan => Node::Tan(operand),
            UnaryOp::Sinh => Node::Sinh(operand),
            UnaryOp::Cosh => Node::Cosh(operand),
            UnaryOp::Tanh => Node::Tanh(operand),
            UnaryOp::Asin => Node::Asin(operand),
            UnaryOp::Acos => Node::Acos(operand),
            UnaryOp::Atan => Node::Atan(operand),
            UnaryOp::Arsinh => Node::Arsinh(operand),
            UnaryOp::Arcosh => Node::Arcosh(operand),
            UnaryOp::Artanh => Node::Artanh(operand),
            UnaryOp::Sqrt => Node::Sqrt(operand),
            UnaryOp::Exp => Node::Exp(operand),
            UnaryOp::Exp2 => Node::Exp2(operand),
            UnaryOp::Ln => Node::Ln(operand),
            UnaryOp::Sign => Node::Sign(operand),
            UnaryOp::Truncate => Node::Truncate(operand),
        }
    }

    /// The tree of `op` applied to `left` and `right`.
    pub fn binary(op: BinaryOp, left: Node, right: Node) -> (node: Node)
        ensures
            node@ == NodeView::Binary(op, Box::new(left@), Box::new(right@)),
    {
        let left = Box::new(left);
        let right = Box::new(right);
        match op {
            BinaryOp::Add => Node::Add(left, right),
            BinaryOp::Subtract => Node::Subtract(left, right),
            BinaryOp::Multiply => Node::Multiply(left, right),
            BinaryOp::Divide => Node::Divide(left, right),
            BinaryOp::Modulo => Node::Modulo(left, right),
            BinaryOp::Caret => Node::Caret(left, right),
            BinaryOp::Atan2 => Node::Atan2(left, right),
            BinaryOp::Pow => Node::Pow(left, right),
            BinaryOp::Log => Node::Log(left, right),
        }
    }

    /// The tree of `op` applied to `operands`, in their order.
    pub fn variadic(op: VariadicOp, operands: Vec<Node>) -> (node: Node)
        ensures
            node@ == NodeView::Variadic(op, models(operands@)),
    {
        match op {
            VariadicOp::Min => Node::Min(operands),
            VariadicOp::Max => Node::Max(operands),
        }
    }
}

} // verus!
