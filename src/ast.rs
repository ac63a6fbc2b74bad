use vstd::prelude::*;

use crate::position::Position;
use crate::token::SpecTokenType;
use crate::token::TokenType;
use crate::types::SpecType;
use crate::types::Type;

verus! {

/// The name of a variable or function, with the place it was written.
/// Two identifiers are equal when their names are; the position is only
/// where it came from.
#[derive(Debug)]
pub struct Identifier {
    pub name: String,
    pub position: Position,
}

/// The mathematical value of an [`Identifier`].
pub struct SpecIdentifier {
    pub name: Seq<char>,
    pub position: Position,
}

impl View for Identifier {
    type V = SpecIdentifier;

    open spec fn view(&self) -> SpecIdentifier {
        SpecIdentifier { name: self.name@, position: self.position }
    }
}

impl Identifier {
    pub fn new(name: String, position: Position) -> (r: Self)
        ensures
            r.name == name,
            r.position == position,
    {
        Self { name, position }
    }
}

impl Clone for Identifier {
    fn clone(&self) -> (r: Self)
        ensures
            r == *self,
    {
        Identifier { name: self.name.clone(), position: self.position }
    }
}

impl PartialEq for Identifier {
    fn eq(&self, other: &Identifier) -> (r: bool) {
        self.name == other.name
    }
}

impl vstd::std_specs::cmp::PartialEqSpecImpl for Identifier {
    open spec fn obeys_eq_spec() -> bool {
        true
    }

    open spec fn eq_spec(&self, other: &Identifier) -> bool {
        self.name@ == other.name@
    }
}

/// A binary operator.
#[derive(Debug, Clone, Copy, PartialEq, Eq, Structural)]
pub enum Operator {
    Add,
    Subtract,
    Multiply,
    Divide,
}

/// The operator that a token stands for, if any.
pub open spec fn operator_of(t: SpecTokenType) -> Option<Operator> {
    match t {
        SpecTokenType::Plus => Some(Operator::Add),
        SpecTokenType::Minus => Some(Operator::Subtract),
        SpecTokenType::Asterisk => Some(Operator::Multiply),
        SpecTokenType::Slash => Some(Operator::Divide),
        _ => None,
    }
}

impl Operator {
    /// The operator that a token stands for; `None` for any other token.
    pub fn from_token_type(token_type: &TokenType) -> (r: Option<Operator>)
        ensures
            r == operator_of(token_type@),
    {
        match token_type {
            TokenType::Plus => Some(Operator::Add),
            TokenType::Minus => Some(Operator::Subtract),
            TokenType::Asterisk => Some(Operator::Multiply),
            TokenType::Slash => Some(Operator::Divide),
            _ => None,
        }
    }
}

/// An expression; each node owns its children.
#[derive(Debug)]
pub enum Expression {
    IntegerLiteral(i32),
    StringLiteral(String),
    /// A variable reference, with its type once resolved.
    Identifier(Type, Identifier),
    BinaryOperation {
        left: Box<Expression>,
        operator: Operator,
        position: Position,
        right: Box<Expression>,
        ty: Type,
    },
    FunctionCall { identifier: Identifier, arguments: Vec<Expression>, ty: Type },
}

/// The mathematical value of an [`Expression`].
pub enum SpecExpression {
    IntegerLiteral(i32),
    StringLiteral(Seq<char>),
    Identifier(SpecType, SpecIdentifier),
    BinaryOperation {
        left: Box<SpecExpression>,
        operator: Operator,
        position: Position,
        right: Box<SpecExpression>,
        ty: SpecType,
    },
    FunctionCall { identifier: SpecIdentifier, arguments: Seq<SpecExpression>, ty: SpecType },
}

impl View for Expression {
    type V = SpecExpression;

    open spec fn view(&self) -> SpecExpression
        decreases self, 1int,
    {
        match self {
            Expression::IntegerLiteral(v) => SpecExpression::IntegerLiteral(*v),
            Expression::StringLiteral(s) => SpecExpression::StringLiteral(s@),
            Expression::Identifier(t, id) => SpecExpression::Identifier(t@, id@),
            Expression::BinaryOperation { left, operator, position, right, ty } => {
                SpecExpression::BinaryOperation {
                    left: Box::new((**left).view()),
                    operator: *operator,
                    position: *position,
                    right: Box::new((**right).view()),
                    ty: ty@,
                }
            },
            Expression::FunctionCall { identifier, arguments, ty } => {
                SpecExpression::FunctionCall {
                    identifier: identifier@,
                    arguments: expression_views(arguments@),
                    ty: ty@,
                }
            },
        }
    }
}

/// The views of a sequence of expressions.
pub open spec fn expression_views(es: Seq<Expression>) -> Seq<SpecExpression>
    decreases es, 0int,
{
    if es.len() == 0 {
        Seq::empty()
    } else {
        expression_views(es.drop_last()).push(es.last().view())
    }
}

/// Viewing a sequence of expressions grown by one.
pub proof fn lemma_expression_views_push(es: Seq<Expression>, e: Expression)
    ensures
        expression_views(es.push(e)) == expression_views(es).push(e@),
{
    assert(es.push(e).drop_last() =~= es);
}

/// Each element of the views is the view of an element.
pub proof fn lemma_expression_views_index(es: Seq<Expression>, k: int)
    requires
        0 <= k < es.len(),
    ensures
        expression_views(es).len() == es.len(),
        expression_views(es)[k] == es[k]@,
    decreases es.len(),
{
    if k < es.len() - 1 {
        lemma_expression_views_index(es.drop_last(), k);
    }
    lemma_expression_views_len(es);
    lemma_expression_views_len(es.drop_last());
    assert(expression_views(es) == expression_views(es.drop_last()).push(es.last()@));
}

/// There are as many views as expressions.
pub proof fn lemma_expression_views_len(es: Seq<Expression>)
    ensures
        expression_views(es).len() == es.len(),
    decreases es.len(),
{
    if es.len() > 0 {
        lemma_expression_views_len(es.drop_last());
        assert(expression_views(es) == expression_views(es.drop_last()).push(es.last()@));
    }
}

impl SpecExpression {
    /// The type that an expression carries.
    pub open spec fn ty(self) -> SpecType {
        match self {
            SpecExpression::IntegerLiteral(_) => SpecType::Integer,
            SpecExpression::StringLiteral(_) => SpecType::String,
            SpecExpression::Identifier(t, _) => t,
            SpecExpression::BinaryOperation { ty, .. } => ty,
            SpecExpression::FunctionCall { ty, .. } => ty,
        }
    }
}

impl Expression {
    /// The type of the expression: fixed for literals, the attached one otherwise.
    pub fn ty(&self) -> (r: Type)
        ensures
            r@ == self@.ty(),
    {
        match self {
            Expression::IntegerLiteral(_) => Type::Integer,
            Expression::StringLiteral(_) => Type::String,
            Expression::Identifier(t, _) => t.clone(),
            Expression::BinaryOperation { ty, .. } => ty.clone(),
            Expression::FunctionCall { ty, .. } => ty.clone(),
        }
    }
}

/// A statement; a program is a sequence of them.
#[derive(Debug)]
pub enum Statement {
    /// `let identifier (: type)? = value`; `position` is that of the token
    /// after the identifier.
    Let { identifier: Identifier, value: Expression, ty: Type, position: Position },
    /// `return value?`; `position` is that of the `return` keyword.
    Return { value: Option<Expression>, position: Position },
    Expression(Expression),
}

/// The mathematical value of a [`Statement`].
pub enum SpecStatement {
    Let { identifier: SpecIdentifier, value: SpecExpression, ty: SpecType, position: Position },
    Return { value: Option<SpecExpression>, position: Position },
    Expression(SpecExpression),
}

impl View for Statement {
    type V = SpecStatement;

    open spec fn view(&self) -> SpecStatement {
        match self {
            Statement::Let { identifier, value, ty, position } => SpecStatement::Let {
                identifier: identifier@,
                value: value@,
                ty: ty@,
                position: *position,
            },
            Statement::Return { value, position } => SpecStatement::Return {
                value: match value {
                    Some(e) => Some(e@),
                    None => None,
                },
                position: *position,
            },
            Statement::Expression(e) => SpecStatement::Expression(e@),
        }
    }
}

/// The views of a sequence of statements.
pub open spec fn statement_views(ss: Seq<Statement>) -> Seq<SpecStatement> {
    ss.map_values(|s: Statement| s@)
}

} // verus!
