use vstd::prelude::*;

use crate::ast::Operator;
use crate::position::Position;
use crate::token::SpecTokenType;
use crate::token::TokenType;
use crate::types::SpecType;
use crate::types::Type;
use crate::value::SpecValue;
use crate::value::Value;

verus! {

/// What went wrong, in any stage of the pipeline.
#[derive(Debug)]
pub enum ErrorType {
    UnexpectedEOF,
    UnexpectedCharacter(char),
    /// A string literal ended before its closing quote.
    ExpectedCharacter(char),
    InvalidNumber(String),
    UnexpectedToken(TokenType),
    ExpectedToken(TokenType),
    ExpectedAnyIdentifier,
    UnableToParseStatement(TokenType),
    UnableToParseExpression(TokenType),
    UnableToResolveType(String),
    TypeMismatch(Type, Type),
    VariableAlreadyDeclared(String),
    InvalidBinaryOperation(Value, Operator, Value),
    UnknownVariable(String),
    UnknownFunction(String),
    UnableToInferType,
    /// The number of parameters, then the number of arguments given.
    InvalidNumberOfArguments(usize, usize),
}

/// The mathematical value of an [`ErrorType`].
pub enum SpecErrorType {
    UnexpectedEOF,
    UnexpectedCharacter(char),
    ExpectedCharacter(char),
    InvalidNumber(Seq<char>),
    UnexpectedToken(SpecTokenType),
    ExpectedToken(SpecTokenType),
    ExpectedAnyIdentifier,
    UnableToParseStatement(SpecTokenType),
    UnableToParseExpression(SpecTokenType),
    UnableToResolveType(Seq<char>),
    TypeMismatch(SpecType, SpecType),
    VariableAlreadyDeclared(Seq<char>),
    InvalidBinaryOperation(SpecValue, Operator, SpecValue),
    UnknownVariable(Seq<char>),
    UnknownFunction(Seq<char>),
    UnableToInferType,
    InvalidNumberOfArguments(usize, usize),
}

impl View for ErrorType {
    type V = SpecErrorType;

    open spec fn view(&self) -> SpecErrorType {
        match self {
            ErrorType::UnexpectedEOF => SpecErrorType::UnexpectedEOF,
            ErrorType::UnexpectedCharacter(c) => SpecErrorType::UnexpectedCharacter(*c),
            ErrorType::ExpectedCharacter(c) => SpecErrorType::ExpectedCharacter(*c),
            ErrorType::InvalidNumber(s) => SpecErrorType::InvalidNumber(s@),
            ErrorType::UnexpectedToken(t) => SpecErrorType::UnexpectedToken(t@),
            ErrorType::ExpectedToken(t) => SpecErrorType::ExpectedToken(t@),
            ErrorType::ExpectedAnyIdentifier => SpecErrorType::ExpectedAnyIdentifier,
            ErrorType::UnableToParseStatement(t) => SpecErrorType::UnableToParseStatement(t@),
            ErrorType::UnableToParseExpression(t) => SpecErrorType::UnableToParseExpression(t@),
            ErrorType::UnableToResolveType(s) => SpecErrorType::UnableToResolveType(s@),
            ErrorType::TypeMismatch(a, b) => SpecErrorType::TypeMismatch(a@, b@),
            ErrorType::VariableAlreadyDeclared(s) => SpecErrorType::VariableAlreadyDeclared(s@),
            ErrorType::InvalidBinaryOperation(l, o, r) => SpecErrorType::InvalidBinaryOperation(
                l@,
                *o,
                r@,
            ),
            ErrorType::UnknownVariable(s) => SpecErrorType::UnknownVariable(s@),
            ErrorType::UnknownFunction(s) => SpecErrorType::UnknownFunction(s@),
            ErrorType::UnableToInferType => SpecErrorType::UnableToInferType,
            ErrorType::InvalidNumberOfArguments(a, b) => SpecErrorType::InvalidNumberOfArguments(
                *a,
                *b,
            ),
        }
    }
}

/// An error and the source position it points at.
#[derive(Debug)]
pub struct Error {
    pub error_type: ErrorType,
    pub position: Position,
}

/// The mathematical value of an [`Error`].
pub struct SpecError {
    pub error_type: SpecErrorType,
    pub position: Position,
}

impl View for Error {
    type V = SpecError;

    open spec fn view(&self) -> SpecError {
        SpecError { error_type: self.error_type@, position: self.position }
    }
}

impl Error {
    pub fn new(error_type: ErrorType, position: Position) -> (r: Self)
        ensures
            r.error_type == error_type,
            r.position == position,
    {
        Self { error_type, position }
    }
}

/// A failed result with the given error.
pub open spec fn fail<T>(error_type: SpecErrorType, position: Position) -> Result<T, SpecError> {
    Err(SpecError { error_type, position })
}

/// The view of a result whose two sides have views.
pub open spec fn result_view<T: View, E: View>(r: Result<T, E>) -> Result<T::V, E::V> {
    match r {
        Ok(v) => Ok(v@),
        Err(e) => Err(e@),
    }
}

} // verus!
