use vstd::prelude::*;

use crate::ast::Expression;
use crate::ast::expression_views;
use crate::ast::Identifier;
use crate::ast::lemma_expression_views_push;
use crate::ast::Operator;
use crate::ast::operator_of;
use crate::ast::SpecExpression;
use crate::ast::SpecIdentifier;
use crate::ast::SpecStatement;
use crate::ast::Statement;
use crate::ast::statement_views;
use crate::error::Error;
use crate::error::ErrorType;
use crate::error::fail;
use crate::error::result_view;
use crate::error::SpecError;
use crate::error::SpecErrorType;
use crate::position::Position;
use crate::stream::Stream;
use crate::text::text_is;
use crate::token::Keyword;
use crate::token::SpecToken;
use crate::token::SpecTokenType;
use crate::token::Token;
use crate::token::token_views;
use crate::token::TokenType;
use crate::types::SpecType;
use crate::types::Type;

verus! {

/// Whether the token at `i` exists and has the given kind.
pub open spec fn token_is(ts: Seq<SpecToken>, i: int, kind: SpecTokenType) -> bool {
    0 <= i < ts.len() && ts[i].token_type == kind
}

/// An expression, or the error it failed with.
pub type ExpressionOutcome = (Result<SpecExpression, SpecError>, int);

/// An argument list, or the error it failed with.
pub type ArgumentsOutcome = (Result<Seq<SpecExpression>, SpecError>, int);

/// A statement, or the error it failed with.
pub type StatementOutcome = (Result<SpecStatement, SpecError>, int);

/// Parses an expression at token `i`: a primary, then, if an operator follows,
/// that operator and a whole expression on its right. `last` is the position
/// reported when the tokens run out. The result comes with the index after
/// what was read; an unexpected first token is not consumed.
pub open spec fn parse_expression_spec(
    ts: Seq<SpecToken>,
    i: int,
    last: Position,
) -> ExpressionOutcome
    decreases ts.len() - i, 0int,
{
    if i < 0 || i >= ts.len() {
        (fail(SpecErrorType::UnexpectedEOF, last), i)
    } else {
        let t = ts[i];
        match t.token_type {
            SpecTokenType::Identifier(name) => {
                let id = SpecIdentifier { name, position: t.position };
                if token_is(ts, i + 1, SpecTokenType::OpenParenthesis) {
                    let (args, j) = parse_arguments_spec(ts, i + 2, t.position);
                    match args {
                        Ok(a) => {
                            let call = SpecExpression::FunctionCall {
                                identifier: id,
                                arguments: a,
                                ty: SpecType::Unresolved(None),
                            };
                            if i < j <= ts.len() {
                                parse_operation_spec(ts, j, call, t.position)
                            } else {
                                (Ok(call), j)
                            }
                        },
                        Err(e) => (Err(e), j),
                    }
                } else {
                    parse_operation_spec(
                        ts,
                        i + 1,
                        SpecExpression::Identifier(SpecType::Unresolved(None), id),
                        t.position,
                    )
                }
            },
            SpecTokenType::IntegerLiteral(v) => parse_operation_spec(
                ts,
                i + 1,
                SpecExpression::IntegerLiteral(v),
                t.position,
            ),
            SpecTokenType::StringLiteral(s) => parse_operation_spec(
                ts,
                i + 1,
                SpecExpression::StringLiteral(s),
                t.position,
            ),
            other => (fail(SpecErrorType::UnexpectedToken(other), t.position), i),
        }
    }
}

/// After the primary `left` that ends before token `j`: if an operator
/// follows, the binary operation of `left` and the expression after it, at
/// `position`; otherwise `left` itself.
pub open spec fn parse_operation_spec(
    ts: Seq<SpecToken>,
    j: int,
    left: SpecExpression,
    position: Position,
) -> ExpressionOutcome
    decreases ts.len() - j, 2int,
{
    if 0 <= j < ts.len() && operator_of(ts[j].token_type) is Some {
        let (right, k) = parse_expression_spec(ts, j + 1, position);
        match right {
            Ok(r) => (
                Ok(
                    SpecExpression::BinaryOperation {
                        left: Box::new(left),
                        operator: operator_of(ts[j].token_type)->0,
                        position,
                        right: Box::new(r),
                        ty: SpecType::Unresolved(None),
                    },
                ),
                k,
            ),
            Err(e) => (Err(e), k),
        }
    } else {
        (Ok(left), j)
    }
}

/// The arguments of a call from token `i` on, through the closing
/// parenthesis. A comma after an argument is skipped when present.
pub open spec fn parse_arguments_spec(
    ts: Seq<SpecToken>,
    i: int,
    position: Position,
) -> ArgumentsOutcome
    decreases ts.len() - i, 1int,
{
    if i < 0 || i > ts.len() {
        (Ok(Seq::empty()), i)
    } else if token_is(ts, i, SpecTokenType::CloseParenthesis) {
        (Ok(Seq::empty()), i + 1)
    } else {
        let (arg, j) = parse_expression_spec(ts, i, position);
        match arg {
            Ok(a) => {
                let k = if token_is(ts, j, SpecTokenType::Comma) {
                    j + 1
                } else {
                    j
                };
                if i < k <= ts.len() {
                    let (rest, m) = parse_arguments_spec(ts, k, position);
                    match rest {
                        Ok(more) => (Ok(seq![a] + more), m),
                        Err(e) => (Err(e), m),
                    }
                } else {
                    (Ok(seq![a]), k)
                }
            },
            Err(e) => (Err(e), j),
        }
    }
}

/// The type that a type name in a declaration denotes.
pub open spec fn type_named(name: Seq<char>) -> SpecType {
    if name == seq!['I', 'n', 't', 'e', 'g', 'e', 'r'] {
        SpecType::Integer
    } else if name == seq!['S', 't', 'r', 'i', 'n', 'g'] {
        SpecType::String
    } else {
        SpecType::Unresolved(Some(name))
    }
}

/// A `let` statement whose value parsed as `value`.
pub open spec fn let_outcome(
    identifier: SpecIdentifier,
    value: ExpressionOutcome,
    ty: SpecType,
    position: Position,
) -> StatementOutcome {
    match value.0 {
        Ok(v) => (Ok(SpecStatement::Let { identifier, value: v, ty, position }), value.1),
        Err(e) => (Err(e), value.1),
    }
}

/// The rest of a `let` statement from token `i`, just after the keyword at
/// `last`: an identifier, an optional `: type`, `=` and an expression.
pub open spec fn parse_let_spec(ts: Seq<SpecToken>, i: int, last: Position) -> StatementOutcome {
    if i < 0 || i >= ts.len() {
        (fail(SpecErrorType::ExpectedAnyIdentifier, last), i)
    } else if !(ts[i].token_type is Identifier) {
        (fail(SpecErrorType::ExpectedAnyIdentifier, ts[i].position), i + 1)
    } else {
        let id = SpecIdentifier {
            name: ts[i].token_type->Identifier_0,
            position: ts[i].position,
        };
        let k = i + 1;
        if k >= ts.len() {
            (fail(SpecErrorType::UnexpectedEOF, id.position), k)
        } else {
            let t = ts[k];
            match t.token_type {
                SpecTokenType::Colon => {
                    if k + 1 >= ts.len() {
                        (fail(SpecErrorType::UnexpectedEOF, t.position), k + 1)
                    } else if !(ts[k + 1].token_type is Identifier) {
                        (fail(SpecErrorType::ExpectedAnyIdentifier, ts[k + 1].position), k + 2)
                    } else if k + 2 >= ts.len() {
                        (fail(SpecErrorType::ExpectedToken(SpecTokenType::Equals), t.position), k + 2)
                    } else if ts[k + 2].token_type != SpecTokenType::Equals {
                        (
                            fail(
                                SpecErrorType::ExpectedToken(SpecTokenType::Equals),
                                ts[k + 2].position,
                            ),
                            k + 3,
                        )
                    } else {
                        let_outcome(
                            id,
                            parse_expression_spec(ts, k + 3, t.position),
                            type_named(ts[k + 1].token_type->Identifier_0),
                            t.position,
                        )
                    }
                },
                SpecTokenType::Equals => let_outcome(
                    id,
                    parse_expression_spec(ts, k + 1, t.position),
                    SpecType::Unresolved(None),
                    t.position,
                ),
                other => (fail(SpecErrorType::UnexpectedToken(other), t.position), k + 1),
            }
        }
    }
}

/// The rest of a `return` statement from token `i`, just after the keyword at
/// `position`: its value, or no value where no expression can be read.
pub open spec fn parse_return_spec(
    ts: Seq<SpecToken>,
    i: int,
    position: Position,
) -> StatementOutcome {
    let (value, j) = parse_expression_spec(ts, i, position);
    match value {
        Ok(v) => (Ok(SpecStatement::Return { value: Some(v), position }), j),
        Err(_) => (Ok(SpecStatement::Return { value: None, position }), j),
    }
}

/// The statement that starts at token `i`.
pub open spec fn parse_statement_spec(ts: Seq<SpecToken>, i: int) -> StatementOutcome {
    let t = ts[i];
    match t.token_type {
        SpecTokenType::Keyword(Keyword::Let) => parse_let_spec(ts, i + 1, t.position),
        SpecTokenType::Keyword(Keyword::Return) => parse_return_spec(ts, i + 1, t.position),
        _ => {
            let (e, j) = parse_expression_spec(ts, i, t.position);
            match e {
                Ok(e) => (Ok(SpecStatement::Expression(e)), j),
                Err(err) => (Err(err), j),
            }
        },
    }
}

/// The statements from token `i` to the end, or the first syntax error.
pub open spec fn parse_from(ts: Seq<SpecToken>, i: int) -> Result<Seq<SpecStatement>, SpecError>
    decreases ts.len() - i,
{
    if i < 0 || i >= ts.len() {
        Ok(Seq::empty())
    } else {
        let (st, j) = parse_statement_spec(ts, i);
        match st {
            Ok(st) => if i < j <= ts.len() {
                match parse_from(ts, j) {
                    Ok(rest) => Ok(seq![st] + rest),
                    Err(e) => Err(e),
                }
            } else {
                Ok(seq![st])
            },
            Err(e) => Err(e),
        }
    }
}

/// The view of the parser's result.
pub open spec fn statements_result_view(r: Result<Vec<Statement>, Error>) -> Result<
    Seq<SpecStatement>,
    SpecError,
> {
    match r {
        Ok(ss) => Ok(statement_views(ss@)),
        Err(e) => Err(e@),
    }
}

/// The arguments read so far, in front of those still to come.
pub open spec fn prepend_arguments(prefix: Seq<SpecExpression>, rest: ArgumentsOutcome) -> ArgumentsOutcome {
    match rest.0 {
        Ok(more) => (Ok(prefix + more), rest.1),
        Err(e) => (Err(e), rest.1),
    }
}

/// The statements read so far, in front of those still to come.
pub open spec fn prepend_statements(
    prefix: Seq<SpecStatement>,
    rest: Result<Seq<SpecStatement>, SpecError>,
) -> Result<Seq<SpecStatement>, SpecError> {
    match rest {
        Ok(more) => Ok(prefix + more),
        Err(e) => Err(e),
    }
}

/// Builds statements from tokens by recursive descent.
pub struct AST {
    tokens: Stream<Token>,
}

impl AST {
    /// The tokens being read.
    pub closed spec fn toks(&self) -> Seq<SpecToken> {
        token_views(self.tokens.items())
    }

    /// The index of the next token.
    pub closed spec fn pos(&self) -> int {
        self.tokens.pos()
    }

    pub closed spec fn wf(&self) -> bool {
        self.tokens.wf()
    }

    /// A parser at the first of `tokens`.
    pub fn new(tokens: Vec<Token>) -> (r: Self)
        ensures
            r.wf(),
            r.toks() == token_views(tokens@),
            r.pos() == 0,
    {
        Self { tokens: Stream::new(tokens) }
    }

    /// The kind of the next token, if any.
    fn peek_type(&self) -> (r: Option<TokenType>)
        requires
            self.wf(),
        ensures
            0 <= self.pos() < self.toks().len() ==> r is Some && r->0@ == self.toks()[self.pos()].token_type,
            self.pos() >= self.toks().len() ==> r is None,
    {
        match self.tokens.peek() {
            Some(token) => Some(token.token_type),
            None => None,
        }
    }

    /// Parses an expression (see [`parse_expression_spec`]).
    fn parse_expression(&mut self, last_position: Position) -> (r: Result<Expression, Error>)
        requires
            old(self).wf(),
        ensures
            final(self).wf(),
            final(self).toks() == old(self).toks(),
            old(self).pos() <= final(self).pos() <= final(self).toks().len(),
            r is Ok ==> final(self).pos() > old(self).pos(),
            (result_view(r), final(self).pos()) == parse_expression_spec(
                old(self).toks(),
                old(self).pos(),
                last_position,
            ),
        decreases old(self).toks().len() - old(self).pos(),
    {
        let ghost ts = self.toks();
        let ghost i = self.pos();
        let Some(token) = self.tokens.consume() else {
            return Err(Error::new(ErrorType::UnexpectedEOF, last_position));
        };
        let position = token.position;
        let expression = match token.token_type {
            TokenType::Identifier(value) => {
                let identifier = Identifier::new(value, position);
                let is_call = match self.peek_type() {
                    Some(TokenType::OpenParenthesis) => true,
                    _ => false,
                };
                if is_call {
                    // A function call: arguments up to the closing parenthesis.
                    self.tokens.consume();
                    let ghost goal = parse_arguments_spec(ts, i + 2, position);
                    let mut arguments: Vec<Expression> = Vec::new();
                    proof {
                        assert(expression_views(arguments@) + Seq::empty() =~= Seq::empty());
                    }
                    loop
                        invariant_except_break
                            goal == prepend_arguments(
                                expression_views(arguments@),
                                parse_arguments_spec(ts, self.pos(), position),
                            ),
                        invariant
                            self.wf(),
                            self.toks() == ts,
                            ts == old(self).toks(),
                            i == old(self).pos(),
                            0 <= i,
                            i + 2 <= self.pos() <= ts.len(),
                            goal == parse_arguments_spec(ts, i + 2, position),
                            ts[i].token_type is Identifier,
                            ts[i].position == position,
                            token_is(ts, i + 1, SpecTokenType::OpenParenthesis),
                        ensures
                            i + 2 < self.pos() <= ts.len(),
                            goal == (Ok::<_, SpecError>(expression_views(arguments@)), self.pos()),
                        decreases ts.len() - self.pos(),
                    {
                        let ghost cur = self.pos();
                        let closes = match self.peek_type() {
                            Some(TokenType::CloseParenthesis) => true,
                            _ => false,
                        };
                        if closes {
                            self.tokens.consume();
                            proof {
                                assert(expression_views(arguments@) + Seq::empty()
                                    =~= expression_views(arguments@));
                            }
                            break;
                        }
                        let argument = match self.parse_expression(position) {
                            Ok(argument) => argument,
                            Err(error) => {
                                assert(parse_arguments_spec(ts, cur, position) == (
                                    Err::<Seq<SpecExpression>, _>(error@),
                                    self.pos(),
                                ));
                                assert(goal == (
                                    Err::<Seq<SpecExpression>, _>(error@),
                                    self.pos(),
                                ));
                                assert(parse_expression_spec(ts, i, last_position) == (
                                    Err::<SpecExpression, _>(error@),
                                    self.pos(),
                                ));
                                return Err(error);
                            },
                        };
                        let ghost j = self.pos();
                        let ghost before_args = arguments@;
                        let ghost before = expression_views(arguments@);
                        let ghost av = argument@;
                        let ghost av_exp = argument;
                        arguments.push(argument);
                        proof {
                            lemma_expression_views_push(before_args, av_exp);
                        }
                        let comma = match self.peek_type() {
                            Some(TokenType::Comma) => true,
                            _ => false,
                        };
                        if comma {
                            self.tokens.consume();
                        }
                        proof {
                            let rest = parse_arguments_spec(ts, self.pos(), position);
                            if let Ok(more) = rest.0 {
                                assert(before + (seq![av] + more) =~= before.push(av) + more);
                            }
                        }
                    }
                    let call = Expression::FunctionCall {
                        identifier,
                        arguments,
                        ty: Type::default(),
                    };
                    call
                } else {
                    Expression::Identifier(Type::Unresolved(None), identifier)
                }
            },
            TokenType::IntegerLiteral(value) => Expression::IntegerLiteral(value),
            TokenType::StringLiteral(value) => Expression::StringLiteral(value),
            other => {
                // Not the start of an expression: leave the token to the caller.
                self.tokens.unconsume();
                return Err(Error::new(ErrorType::UnexpectedToken(other), position));
            },
        };
        assert(parse_expression_spec(ts, i, last_position) == parse_operation_spec(
            ts,
            self.pos(),
            expression@,
            position,
        ));
        let operator = match self.peek_type() {
            Some(token_type) => Operator::from_token_type(&token_type),
            None => None,
        };
        if let Some(operator) = operator {
            self.tokens.consume();
            let right = match self.parse_expression(position) {
                Ok(right) => right,
                Err(error) => return Err(error),
            };
            return Ok(
                Expression::BinaryOperation {
                    left: Box::new(expression),
                    operator,
                    position,
                    right: Box::new(right),
                    ty: Type::default(),
                },
            );
        }
        Ok(expression)
    }
}

impl AST {
    /// Reads an identifier; `last_position` is reported at the end of the tokens.
    fn parse_identifier(&mut self, last_position: Position) -> (r: Result<Identifier, Error>)
        requires
            old(self).wf(),
        ensures
            final(self).wf(),
            final(self).toks() == old(self).toks(),
            ({
                let ts = old(self).toks();
                let i = old(self).pos();
                if i >= ts.len() {
                    &&& final(self).pos() == i
                    &&& r is Err
                    &&& r->Err_0@ == SpecError {
                        error_type: SpecErrorType::ExpectedAnyIdentifier,
                        position: last_position,
                    }
                } else {
                    &&& final(self).pos() == i + 1
                    &&& match ts[i].token_type {
                        SpecTokenType::Identifier(name) => r is Ok && r->Ok_0@ == SpecIdentifier {
                            name,
                            position: ts[i].position,
                        },
                        _ => r is Err && r->Err_0@ == SpecError {
                            error_type: SpecErrorType::ExpectedAnyIdentifier,
                            position: ts[i].position,
                        },
                    }
                }
            }),
    {
        let Some(token) = self.tokens.consume() else {
            return Err(Error::new(ErrorType::ExpectedAnyIdentifier, last_position));
        };
        match token.token_type {
            TokenType::Identifier(name) => Ok(Identifier::new(name, token.position)),
            _ => Err(Error::new(ErrorType::ExpectedAnyIdentifier, token.position)),
        }
    }

    /// Reads a type name: `Integer` and `String` are known, any other name is
    /// left for the resolver.
    fn parse_type_identifier(&mut self, last_position: Position) -> (r: Result<Type, Error>)
        requires
            old(self).wf(),
        ensures
            final(self).wf(),
            final(self).toks() == old(self).toks(),
            ({
                let ts = old(self).toks();
                let i = old(self).pos();
                if i >= ts.len() {
                    &&& final(self).pos() == i
                    &&& r is Err
                    &&& r->Err_0@ == SpecError {
                        error_type: SpecErrorType::UnexpectedEOF,
                        position: last_position,
                    }
                } else {
                    &&& final(self).pos() == i + 1
                    &&& match ts[i].token_type {
                        SpecTokenType::Identifier(name) => r is Ok && r->Ok_0@ == type_named(name),
                        _ => r is Err && r->Err_0@ == SpecError {
                            error_type: SpecErrorType::ExpectedAnyIdentifier,
                            position: ts[i].position,
                        },
                    }
                }
            }),
    {
        let Some(token) = self.tokens.consume() else {
            return Err(Error::new(ErrorType::UnexpectedEOF, last_position));
        };
        match token.token_type {
            TokenType::Identifier(name) => {
                proof {
                    reveal_strlit("Integer");
                    reveal_strlit("String");
                    assert("Integer"@ =~= seq!['I', 'n', 't', 'e', 'g', 'e', 'r']);
                    assert("String"@ =~= seq!['S', 't', 'r', 'i', 'n', 'g']);
                }
                if text_is(&name, "Integer") {
                    Ok(Type::Integer)
                } else if text_is(&name, "String") {
                    Ok(Type::String)
                } else {
                    Ok(Type::Unresolved(Some(name)))
                }
            },
            _ => Err(Error::new(ErrorType::ExpectedAnyIdentifier, token.position)),
        }
    }

    /// Parses a `let` statement after its keyword (see [`parse_let_spec`]).
    fn parse_let_statement(&mut self, last_position: Position) -> (r: Result<Statement, Error>)
        requires
            old(self).wf(),
        ensures
            final(self).wf(),
            final(self).toks() == old(self).toks(),
            old(self).pos() <= final(self).pos() <= final(self).toks().len(),
            r is Ok ==> final(self).pos() > old(self).pos(),
            (result_view(r), final(self).pos()) == parse_let_spec(
                old(self).toks(),
                old(self).pos(),
                last_position,
            ),
    {
        let identifier = match self.parse_identifier(last_position) {
            Ok(identifier) => identifier,
            Err(error) => return Err(error),
        };
        let Some(token) = self.tokens.consume() else {
            return Err(Error::new(ErrorType::UnexpectedEOF, identifier.position));
        };
        let position = token.position;
        let ty = match token.token_type {
            TokenType::Colon => {
                let value = match self.parse_type_identifier(position) {
                    Ok(value) => value,
                    Err(error) => return Err(error),
                };
                // The type must be followed by an equals sign.
                let Some(equals) = self.tokens.consume() else {
                    return Err(Error::new(ErrorType::ExpectedToken(TokenType::Equals), position));
                };
                match equals.token_type {
                    TokenType::Equals => {},
                    _ => {
                        return Err(
                            Error::new(ErrorType::ExpectedToken(TokenType::Equals), equals.position),
                        );
                    },
                }
                value
            },
            TokenType::Equals => Type::Unresolved(None),
            other => return Err(Error::new(ErrorType::UnexpectedToken(other), position)),
        };
        let value = match self.parse_expression(position) {
            Ok(value) => value,
            Err(error) => return Err(error),
        };
        Ok(Statement::Let { identifier, value, ty, position })
    }

    /// Parses a `return` statement after its keyword; a value that cannot be
    /// parsed leaves the statement without one.
    fn parse_return_statement(&mut self, last_position: Position) -> (r: Result<Statement, Error>)
        requires
            old(self).wf(),
        ensures
            final(self).wf(),
            final(self).toks() == old(self).toks(),
            old(self).pos() <= final(self).pos() <= final(self).toks().len(),
            r is Ok,
            (result_view(r), final(self).pos()) == parse_return_spec(
                old(self).toks(),
                old(self).pos(),
                last_position,
            ),
    {
        let value = match self.parse_expression(last_position) {
            Ok(value) => Some(value),
            Err(_) => None,
        };
        Ok(Statement::Return { value, position: last_position })
    }

    /// Parses the remaining tokens into statements; stops at the first error.
    pub fn parse(&mut self) -> (r: Result<Vec<Statement>, Error>)
        requires
            old(self).wf(),
        ensures
            final(self).wf(),
            statements_result_view(r) == parse_from(old(self).toks(), old(self).pos()),
    {
        let ghost ts = self.toks();
        let ghost goal = parse_from(ts, self.pos());
        let mut statements: Vec<Statement> = Vec::new();
        proof {
            assert(statement_views(statements@) =~= Seq::empty());
            assert(Seq::<SpecStatement>::empty() + Seq::empty() =~= Seq::<SpecStatement>::empty());
        }
        loop
            invariant
                self.wf(),
                self.toks() == ts,
                ts == old(self).toks(),
                goal == parse_from(old(self).toks(), old(self).pos()),
                goal == prepend_statements(statement_views(statements@), parse_from(ts, self.pos())),
            ensures
                self.pos() >= ts.len(),
            decreases ts.len() - self.pos(),
        {
            let ghost i = self.pos();
            let Some(token) = self.tokens.peek() else {
                break;
            };
            let statement = match token.token_type {
                TokenType::Keyword(Keyword::Let) => {
                    self.tokens.consume();
                    match self.parse_let_statement(token.position) {
                        Ok(statement) => statement,
                        Err(error) => return Err(error),
                    }
                },
                TokenType::Keyword(Keyword::Return) => {
                    self.tokens.consume();
                    match self.parse_return_statement(token.position) {
                        Ok(statement) => statement,
                        Err(error) => return Err(error),
                    }
                },
                _ => match self.parse_expression(token.position) {
                    Ok(expression) => Statement::Expression(expression),
                    Err(error) => return Err(error),
                },
            };
            assert(parse_statement_spec(ts, i) == (
                Ok::<_, SpecError>(statement@),
                self.pos(),
            ));
            let ghost before = statement_views(statements@);
            let ghost sv = statement@;
            statements.push(statement);
            proof {
                assert(statement_views(statements@) =~= before.push(sv));
                if let Ok(more) = parse_from(ts, self.pos()) {
                    assert(before + (seq![sv] + more) =~= before.push(sv) + more);
                }
            }
        }
        proof {
            assert(statement_views(statements@) + Seq::empty() =~= statement_views(statements@));
        }
        Ok(statements)
    }
}

} // verus!
