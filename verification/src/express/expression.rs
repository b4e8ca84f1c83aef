use vstd::prelude::*;

verus! {

/// Expression syntax retained structurally from rule bodies; the analysis
/// and generation passes never evaluate these trees.
#[derive(Debug)]
pub struct Expression {
    pub operand: SimpleExpression,
    pub operations: Vec<(Operator, SimpleExpression)>,
}

#[derive(Debug)]
pub struct SimpleExpression {
    pub operand: Term,
    pub operations: Vec<(Operator, Term)>,
}

#[derive(Debug)]
pub struct Term {
    pub operand: Factor,
    pub operations: Vec<(Operator, Factor)>,
}

#[derive(Debug)]
pub struct Factor {
    pub operand: SimpleFactor,
    pub operations: Vec<(Operator, SimpleFactor)>,
}

#[derive(Debug, Clone, Copy, PartialEq, Eq, Structural)]
pub enum Operator {
    Equal,
    NotEqual,
    Greater,
    Less,
    GreaterOrEqual,
    LessOrEqual,
    InstanceEqual,
    InstanceNotEqual,
    In,
    Like,
    Add,
    Sub,
    Mul,
    Div,
    Mod,
    Or,
    Xor,
    And,
    Not,
    Neg,
    Power,
}

#[derive(Debug)]
pub enum SimpleFactor {
    AggregateInitializer { elements: Vec<Box<Expression>> },
    EntityConstructor { entity: String, parameters: Vec<Box<Expression>> },
    Interval {
        low: Box<SimpleExpression>,
        op1: Operator,
        term: Box<SimpleExpression>,
        op2: Operator,
        high: Box<SimpleExpression>,
    },
    QueryExpression {
        variable: String,
        source: Box<SimpleExpression>,
        condition: Box<Expression>,
    },
    Primary(Primary),
}

/// A name (identifier or built-in constant) followed by member, index,
/// group, or call accessors.
#[derive(Debug)]
pub struct QualifiedAccess {
    pub base: String,
    pub accessors: Vec<Accessor>,
}

#[derive(Debug)]
pub enum Primary {
    Literal(Literal),
    QualifiedAccess(QualifiedAccess),
    Grouped(Box<Expression>),
}

/// A real literal keeps its source spelling; numeric evaluation of rule
/// bodies is out of scope, so no wider representation is needed.
#[derive(Debug)]
pub enum Literal {
    Binary(String),
    Integer(i64),
    Real(String),
    Logical(Option<bool>),
    String(String),
}

/// Mathematical image of a literal.
pub enum LiteralV {
    Binary(Seq<char>),
    Integer(int),
    Real(Seq<char>),
    Logical(Option<bool>),
    String(Seq<char>),
}

impl View for Literal {
    type V = LiteralV;

    open spec fn view(&self) -> LiteralV {
        match self {
            Literal::Binary(t) => LiteralV::Binary(t@),
            Literal::Integer(n) => LiteralV::Integer(*n as int),
            Literal::Real(t) => LiteralV::Real(t@),
            Literal::Logical(b) => LiteralV::Logical(*b),
            Literal::String(t) => LiteralV::String(t@),
        }
    }
}

#[derive(Debug)]
pub enum Accessor {
    FunctionCall { parameters: Vec<Box<Expression>> },
    Indexer { start: Box<SimpleExpression>, end: Option<Box<SimpleExpression>> },
    Attribute { name: String },
    Group { entity: String },
}

} // verus!
