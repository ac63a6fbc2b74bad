//! A small expression language: a lexer, a recursive-descent parser, a type
//! resolver and a tree-walking interpreter, each stated and proved against a
//! mathematical description of its result.

use vstd::prelude::*;

pub mod ast;
pub mod environment;
pub mod error;
pub mod function;
pub mod interpreter;
pub mod laws;
pub mod lexer;
pub mod parser;
pub mod position;
pub mod resolver;
pub mod stream;
pub mod text;
pub mod token;
pub mod types;
pub mod value;

use crate::ast::SpecStatement;
use crate::ast::Statement;
use crate::error::Error;
use crate::error::result_view;
use crate::error::SpecError;
use crate::interpreter::Flow;
use crate::interpreter::Interpreter;
use crate::interpreter::Output;
use crate::interpreter::run_from;
use crate::interpreter::SpecFlow;
use crate::interpreter::ValueEnv;
use crate::lexer::lex_spec;
use crate::lexer::Lexer;
use crate::lexer::tokens_result_view;
use crate::parser::AST;
use crate::parser::parse_from;
use crate::parser::statements_result_view;
use crate::resolver::resolve_from;
use crate::resolver::TypeEnv;
use crate::resolver::TypeResolver;
use crate::token::Token;

verus! {

/// The statements of a source text, or its first lexical or syntax error.
pub open spec fn parse_source(s: Seq<char>) -> Result<Seq<SpecStatement>, SpecError> {
    match lex_spec(s) {
        Ok(ts) => parse_from(ts, 0),
        Err(e) => Err(e),
    }
}

/// The resolved statements of a source text, or its first error up to and
/// including type resolution.
pub open spec fn check_source(s: Seq<char>) -> Result<Seq<SpecStatement>, SpecError> {
    match parse_source(s) {
        Ok(ss) => resolve_from(TypeEnv::empty(), ss, 0),
        Err(e) => Err(e),
    }
}

/// What running a source text gives: how the run ended, the variables and
/// the lines written, including those written before a statement failed. An
/// error in an earlier stage ends it before anything runs.
pub open spec fn execute_source(s: Seq<char>) -> (Result<SpecFlow, SpecError>, ValueEnv, Output) {
    match check_source(s) {
        Ok(ss) => run_from(ValueEnv::empty(), ss, 0),
        Err(e) => (Err(e), ValueEnv::empty(), Output::empty()),
    }
}

/// Turns source text into tokens.
pub fn lex(input: String) -> (r: Result<Vec<Token>, Error>)
    ensures
        tokens_result_view(r) == lex_spec(input@),
{
    let mut lexer = Lexer::new(input);
    lexer.parse()
}

/// Lexes and parses source text.
pub fn parse(input: String) -> (r: Result<Vec<Statement>, Error>)
    ensures
        statements_result_view(r) == parse_source(input@),
{
    match lex(input) {
        Ok(tokens) => {
            let mut ast = AST::new(tokens);
            ast.parse()
        },
        Err(error) => Err(error),
    }
}

/// Lexes, parses and resolves the types of source text.
pub fn check(input: String) -> (r: Result<Vec<Statement>, Error>)
    ensures
        statements_result_view(r) == check_source(input@),
{
    match parse(input) {
        Ok(statements) => {
            let mut resolver = TypeResolver::new();
            resolver.visit_statements(statements)
        },
        Err(error) => Err(error),
    }
}

/// Runs source text through every stage. The interpreter is returned with
/// the variables and what the program wrote, beside how the run ended.
pub fn compile(input: String) -> (r: (Interpreter, Result<Flow, Error>))
    ensures
        ({
            let (outcome, env, out) = execute_source(input@);
            &&& result_view(r.1) == outcome
            &&& r.0.env() == env
            &&& r.0.lines() == out
        }),
{
    let mut interpreter = Interpreter::new();
    match check(input) {
        Ok(statements) => {
            let result = interpreter.visit_statements(statements);
            proof {
                assert(Output::empty() + interpreter.lines() =~= interpreter.lines());
            }
            (interpreter, result)
        },
        Err(error) => (interpreter, Err(error)),
    }
}

} // verus!
