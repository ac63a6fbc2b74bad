use vstd::prelude::*;

use crate::ast::Expression;
use crate::ast::expression_views;
use crate::ast::Identifier;
use crate::ast::lemma_expression_views_index;
use crate::ast::lemma_expression_views_len;
use crate::ast::lemma_expression_views_push;
use crate::ast::SpecExpression;
use crate::ast::SpecIdentifier;
use crate::ast::SpecStatement;
use crate::ast::Statement;
use crate::ast::statement_views;
use crate::environment::Environment;
use crate::error::Error;
use crate::error::ErrorType;
use crate::error::fail;
use crate::error::result_view;
use crate::error::SpecError;
use crate::error::SpecErrorType;
use crate::function::builtin_signature;
use crate::function::BuiltinFunctions;
use crate::function::type_views;
use crate::parser::prepend_statements;
use crate::parser::statements_result_view;
use crate::position::Position;
use crate::types::SpecType;
use crate::types::Type;

verus! {

/// The types of the variables declared so far, by name.
pub type TypeEnv = Map<Seq<char>, SpecType>;

/// The index of the first argument whose type differs from its parameter's,
/// from index `k` on; a parameter of type `Any` takes any argument.
pub open spec fn first_mismatch(args: Seq<SpecExpression>, params: Seq<SpecType>, k: int) -> Option<
    int,
>
    decreases args.len() - k,
{
    if k < 0 || k >= args.len() {
        None
    } else if params[k] != SpecType::Any && args[k].ty() != params[k] {
        Some(k)
    } else {
        first_mismatch(args, params, k + 1)
    }
}

/// Resolves the types in an expression: literals keep their type, a variable
/// takes the type it was declared with, both sides of a binary operation
/// must have the same type, which the operation takes, and a call must name a
/// builtin and match its parameters, taking its return type.
pub open spec fn resolve_expression_spec(env: TypeEnv, e: SpecExpression) -> Result<
    SpecExpression,
    SpecError,
>
    decreases e, 1int,
{
    match e {
        SpecExpression::IntegerLiteral(_) => Ok(e),
        SpecExpression::StringLiteral(_) => Ok(e),
        SpecExpression::Identifier(_, id) => if env.contains_key(id.name) {
            Ok(SpecExpression::Identifier(env[id.name], id))
        } else {
            fail(SpecErrorType::UnknownVariable(id.name), id.position)
        },
        SpecExpression::BinaryOperation { left, operator, position, right, .. } => {
            match resolve_expression_spec(env, *left) {
                Err(er) => Err(er),
                Ok(l) => match resolve_expression_spec(env, *right) {
                    Err(er) => Err(er),
                    Ok(r) => if l.ty() != r.ty() {
                        fail(SpecErrorType::TypeMismatch(l.ty(), r.ty()), position)
                    } else {
                        Ok(
                            SpecExpression::BinaryOperation {
                                left: Box::new(l),
                                operator,
                                position,
                                right: Box::new(r),
                                ty: l.ty(),
                            },
                        )
                    },
                },
            }
        },
        SpecExpression::FunctionCall { identifier, arguments, .. } => {
            match resolve_arguments_spec(env, arguments) {
                Err(er) => Err(er),
                Ok(args) => match builtin_signature(identifier.name) {
                    None => fail(SpecErrorType::UnknownFunction(identifier.name), identifier.position),
                    Some(sig) => if args.len() != sig.parameters.len() {
                        fail(
                            SpecErrorType::InvalidNumberOfArguments(
                                sig.parameters.len() as usize,
                                args.len() as usize,
                            ),
                            identifier.position,
                        )
                    } else {
                        match first_mismatch(args, sig.parameters, 0) {
                            Some(k) => fail(
                                SpecErrorType::TypeMismatch(args[k].ty(), sig.parameters[k]),
                                identifier.position,
                            ),
                            None => Ok(
                                SpecExpression::FunctionCall {
                                    identifier,
                                    arguments: args,
                                    ty: sig.return_type,
                                },
                            ),
                        }
                    },
                },
            }
        },
    }
}

/// Resolves a list of expressions in order; the first error wins.
pub open spec fn resolve_arguments_spec(env: TypeEnv, args: Seq<SpecExpression>) -> Result<
    Seq<SpecExpression>,
    SpecError,
>
    decreases args, 0int,
{
    if args.len() == 0 {
        Ok(Seq::empty())
    } else {
        match resolve_arguments_spec(env, args.drop_last()) {
            Err(er) => Err(er),
            Ok(rs) => match resolve_expression_spec(env, args.last()) {
                Ok(r) => Ok(rs.push(r)),
                Err(er) => Err(er),
            },
        }
    }
}

/// Resolves a `let` statement: the value first, then the declared type, which
/// must be known; an omitted type is inferred from the value, and a declared
/// one must equal the value's. The variable is then recorded with its type.
pub open spec fn resolve_let_spec(
    env: TypeEnv,
    identifier: SpecIdentifier,
    value: SpecExpression,
    ty: SpecType,
    position: Position,
) -> Result<(SpecStatement, TypeEnv), SpecError> {
    match resolve_expression_spec(env, value) {
        Err(er) => Err(er),
        Ok(v) => match ty {
            SpecType::Unresolved(Some(name)) => fail(
                SpecErrorType::UnableToResolveType(name),
                position,
            ),
            _ => if ty == SpecType::Unresolved(None) && v.ty() == SpecType::Unresolved(None) {
                fail(SpecErrorType::UnableToInferType, position)
            } else {
                let t = if ty == SpecType::Unresolved(None) {
                    v.ty()
                } else {
                    ty
                };
                if t != v.ty() {
                    fail(SpecErrorType::TypeMismatch(t, v.ty()), position)
                } else {
                    Ok(
                        (
                            SpecStatement::Let { identifier, value: v, ty: t, position },
                            env.insert(identifier.name, t),
                        ),
                    )
                }
            },
        },
    }
}

/// Resolves one statement, with the variable types after it.
pub open spec fn resolve_statement_spec(env: TypeEnv, s: SpecStatement) -> Result<
    (SpecStatement, TypeEnv),
    SpecError,
> {
    match s {
        SpecStatement::Let { identifier, value, ty, position } => resolve_let_spec(
            env,
            identifier,
            value,
            ty,
            position,
        ),
        SpecStatement::Return { value, position } => match value {
            None => Ok((SpecStatement::Return { value: None, position }, env)),
            Some(e) => match resolve_expression_spec(env, e) {
                Ok(r) => Ok((SpecStatement::Return { value: Some(r), position }, env)),
                Err(er) => Err(er),
            },
        },
        SpecStatement::Expression(e) => match resolve_expression_spec(env, e) {
            Ok(r) => Ok((SpecStatement::Expression(r), env)),
            Err(er) => Err(er),
        },
    }
}

/// The variable types after resolving the statements from index `k` on: up
/// to the first error, which records nothing.
pub open spec fn resolved_env(env: TypeEnv, ss: Seq<SpecStatement>, k: int) -> TypeEnv
    decreases ss.len() - k,
{
    if k < 0 || k >= ss.len() {
        env
    } else {
        match resolve_statement_spec(env, ss[k]) {
            Err(_) => env,
            Ok((_, next)) => resolved_env(next, ss, k + 1),
        }
    }
}

/// Resolves the statements from index `k` on, each with the variable types
/// that the ones before it recorded; the first error wins.
pub open spec fn resolve_from(env: TypeEnv, ss: Seq<SpecStatement>, k: int) -> Result<
    Seq<SpecStatement>,
    SpecError,
>
    decreases ss.len() - k,
{
    if k < 0 || k >= ss.len() {
        Ok(Seq::empty())
    } else {
        match resolve_statement_spec(env, ss[k]) {
            Err(er) => Err(er),
            Ok((st, next)) => match resolve_from(next, ss, k + 1) {
                Ok(rest) => Ok(seq![st] + rest),
                Err(er) => Err(er),
            },
        }
    }
}

/// Resolves unresolved or omitted types and checks the types of operations
/// and calls.
pub struct TypeResolver {
    variables: Environment<Type>,
    builtin_functions: BuiltinFunctions,
}

impl TypeResolver {
    /// The types of the variables declared so far.
    pub closed spec fn env(&self) -> TypeEnv {
        self.variables@
    }

    /// A resolver that knows no variables yet.
    pub fn new() -> (r: Self)
        ensures
            r.env() == TypeEnv::empty(),
    {
        TypeResolver { variables: Environment::new(), builtin_functions: BuiltinFunctions::new() }
    }

    /// Resolves an expression (see [`resolve_expression_spec`]).
    pub fn visit_expression(&self, expression: &Expression) -> (r: Result<Expression, Error>)
        ensures
            result_view(r) == resolve_expression_spec(self.env(), expression@),
        decreases expression,
    {
        match expression {
            Expression::IntegerLiteral(value) => Ok(Expression::IntegerLiteral(*value)),
            Expression::StringLiteral(value) => Ok(Expression::StringLiteral(value.clone())),
            Expression::BinaryOperation { left, operator, position, right, .. } => {
                let left = match self.visit_expression(left) {
                    Ok(left) => left,
                    Err(error) => return Err(error),
                };
                let right = match self.visit_expression(right) {
                    Ok(right) => right,
                    Err(error) => return Err(error),
                };
                let left_type = left.ty();
                let right_type = right.ty();
                if left_type != right_type {
                    return Err(Error::new(ErrorType::TypeMismatch(left_type, right_type), *position));
                }
                Ok(
                    Expression::BinaryOperation {
                        left: Box::new(left),
                        operator: *operator,
                        position: *position,
                        right: Box::new(right),
                        ty: left_type,
                    },
                )
            },
            Expression::Identifier(_, identifier) => {
                // The type of a variable is the one it was declared with.
                match self.variables.get(&identifier.name) {
                    Some(resolved_type) => Ok(
                        Expression::Identifier(resolved_type.clone(), identifier.clone()),
                    ),
                    None => Err(
                        Error::new(
                            ErrorType::UnknownVariable(identifier.name.clone()),
                            identifier.position,
                        ),
                    ),
                }
            },
            Expression::FunctionCall { identifier, arguments, .. } => {
                let ghost env = self.env();
                let mut expressions: Vec<Expression> = Vec::new();
                let mut i: usize = 0;
                while i < arguments.len()
                    invariant
                        i <= arguments@.len(),
                        env == self.env(),
                        expression is FunctionCall,
                        expression->identifier == *identifier,
                        expression->arguments == *arguments,
                        resolve_arguments_spec(
                            env,
                            expression_views(arguments@.subrange(0, i as int)),
                        ) == Ok::<_, SpecError>(expression_views(expressions@)),
                    decreases arguments@.len() - i,
                {
                    proof {
                        vstd::std_specs::vec::axiom_vec_index_decreases(*arguments, i as int);
                        assert(decreases_to!(*expression => *arguments));
                        assert(decreases_to!(*expression => arguments[i as int]));
                    }
                    let argument = match self.visit_expression(&arguments[i]) {
                        Ok(argument) => argument,
                        Err(error) => {
                            proof {
                                self.lemma_arguments_step(arguments@, i as int);
                            }
                            assert(resolve_arguments_spec(env, expression_views(arguments@))
                                == Err::<Seq<SpecExpression>, _>(error@)) by {
                                self.lemma_arguments_error_stays(arguments@, i as int + 1);
                            }
                            return Err(error);
                        },
                    };
                    proof {
                        self.lemma_arguments_step(arguments@, i as int);
                    }
                    let ghost before = expressions@;
                    let ghost a = argument;
                    expressions.push(argument);
                    proof {
                        lemma_expression_views_push(before, a);
                    }
                    i = i + 1;
                }
                proof {
                    assert(arguments@.subrange(0, arguments@.len() as int) =~= arguments@);
                }
                let function = match self.builtin_functions.get(identifier.name.as_str()) {
                    Some(function) => function,
                    None => {
                        return Err(
                            Error::new(
                                ErrorType::UnknownFunction(identifier.name.clone()),
                                identifier.position,
                            ),
                        );
                    },
                };
                let parameters = function.arguments();
                proof {
                    lemma_expression_views_len(expressions@);
                    assert(type_views(parameters@).len() == parameters@.len());
                }
                if expressions.len() != parameters.len() {
                    return Err(
                        Error::new(
                            ErrorType::InvalidNumberOfArguments(
                                parameters.len(),
                                expressions.len(),
                            ),
                            identifier.position,
                        ),
                    );
                }
                let ghost args = expression_views(expressions@);
                let ghost params = type_views(parameters@);
                let mut index: usize = 0;
                while index < expressions.len()
                    invariant
                        expression is FunctionCall,
                        expression->identifier == *identifier,
                        expression->arguments == *arguments,
                        env == self.env(),
                        resolve_arguments_spec(env, expression_views(arguments@)) == Ok::<
                            _,
                            SpecError,
                        >(args),
                        builtin_signature(identifier.name@) is Some,
                        params == builtin_signature(identifier.name@)->0.parameters,
                        index <= expressions@.len(),
                        expressions@.len() == parameters@.len(),
                        args == expression_views(expressions@),
                        params == type_views(parameters@),
                        first_mismatch(args, params, 0) == first_mismatch(args, params, index as int),
                    decreases expressions@.len() - index,
                {
                    proof {
                        lemma_expression_views_index(expressions@, index as int);
                    }
                    let expected_type = parameters[index].clone();
                    let actual_type = expressions[index].ty();
                    // A parameter of type `Any` takes any argument.
                    let skip = match expected_type {
                        Type::Any => true,
                        _ => false,
                    };
                    if !skip && actual_type != expected_type {
                        return Err(
                            Error::new(
                                ErrorType::TypeMismatch(actual_type, expected_type),
                                identifier.position,
                            ),
                        );
                    }
                    index = index + 1;
                }
                Ok(
                    Expression::FunctionCall {
                        identifier: identifier.clone(),
                        arguments: expressions,
                        ty: function.return_type(),
                    },
                )
            },
        }
    }

    /// One more argument resolved, or the error it gives.
    proof fn lemma_arguments_step(&self, arguments: Seq<Expression>, i: int)
        requires
            0 <= i < arguments.len(),
        ensures
            resolve_arguments_spec(self.env(), expression_views(arguments.subrange(0, i + 1)))
                == match resolve_arguments_spec(
                self.env(),
                expression_views(arguments.subrange(0, i)),
            ) {
                Err(er) => Err(er),
                Ok(rs) => match resolve_expression_spec(self.env(), arguments[i]@) {
                    Ok(r) => Ok(rs.push(r)),
                    Err(er) => Err(er),
                },
            },
    {
        assert(arguments.subrange(0, i + 1) =~= arguments.subrange(0, i).push(arguments[i]));
        lemma_expression_views_push(arguments.subrange(0, i), arguments[i]);
        assert(expression_views(arguments.subrange(0, i + 1)).drop_last() =~= expression_views(
            arguments.subrange(0, i),
        ));
    }

    /// Once an argument fails, the whole list fails with its error.
    proof fn lemma_arguments_error_stays(&self, arguments: Seq<Expression>, i: int)
        requires
            0 < i <= arguments.len(),
            resolve_arguments_spec(self.env(), expression_views(arguments.subrange(0, i))) is Err,
        ensures
            resolve_arguments_spec(self.env(), expression_views(arguments))
                == resolve_arguments_spec(self.env(), expression_views(arguments.subrange(0, i))),
        decreases arguments.len() - i,
    {
        if i < arguments.len() {
            self.lemma_arguments_step(arguments, i);
            self.lemma_arguments_error_stays(arguments, i + 1);
        } else {
            assert(arguments.subrange(0, i) =~= arguments);
        }
    }
}

impl TypeResolver {
    /// A declared type, unless it names a type that is not known.
    pub fn resolve_type(ty: &Type, last_position: Position) -> (r: Result<Type, Error>)
        ensures
            match ty@ {
                SpecType::Unresolved(Some(name)) => r is Err && r->Err_0@ == SpecError {
                    error_type: SpecErrorType::UnableToResolveType(name),
                    position: last_position,
                },
                _ => r is Ok && r->Ok_0@ == ty@,
            },
    {
        match ty {
            Type::Unresolved(Some(declared_name)) => Err(
                Error::new(ErrorType::UnableToResolveType(declared_name.clone()), last_position),
            ),
            _ => Ok(ty.clone()),
        }
    }

    /// Resolves a `let` statement and records the variable's type (see
    /// [`resolve_let_spec`]).
    pub fn visit_let_statement(
        &mut self,
        identifier: &Identifier,
        value: &Expression,
        ty: &Type,
        position: Position,
    ) -> (r: Result<Statement, Error>)
        ensures
            match resolve_let_spec(old(self).env(), identifier@, value@, ty@, position) {
                Ok((st, env)) => r is Ok && r->Ok_0@ == st && final(self).env() == env,
                Err(e) => r is Err && r->Err_0@ == e && final(self).env() == old(self).env(),
            },
    {
        let value = match self.visit_expression(value) {
            Ok(value) => value,
            Err(error) => return Err(error),
        };
        let mut resolved_type = match Self::resolve_type(ty, position) {
            Ok(resolved_type) => resolved_type,
            Err(error) => return Err(error),
        };
        let value_type = value.ty();
        // An omitted type is inferred from the value.
        let inferred = match resolved_type {
            Type::Unresolved(None) => true,
            _ => false,
        };
        if inferred {
            let value_inferred = match value_type {
                Type::Unresolved(None) => true,
                _ => false,
            };
            if value_inferred {
                return Err(Error::new(ErrorType::UnableToInferType, position));
            }
            resolved_type = value_type.clone();
        }
        if resolved_type != value_type {
            return Err(Error::new(ErrorType::TypeMismatch(resolved_type, value_type), position));
        }
        self.variables.insert(identifier.clone(), resolved_type.clone());
        Ok(Statement::Let { identifier: identifier.clone(), value, ty: resolved_type, position })
    }

    /// Resolves one statement (see [`resolve_statement_spec`]).
    pub fn visit_statement(&mut self, statement: &Statement) -> (r: Result<Statement, Error>)
        ensures
            match resolve_statement_spec(old(self).env(), statement@) {
                Ok((st, env)) => r is Ok && r->Ok_0@ == st && final(self).env() == env,
                Err(e) => r is Err && r->Err_0@ == e && final(self).env() == old(self).env(),
            },
    {
        match statement {
            Statement::Let { identifier, value, ty, position } => self.visit_let_statement(
                identifier,
                value,
                ty,
                *position,
            ),
            Statement::Return { value, position } => {
                let value = match value {
                    Some(value) => match self.visit_expression(value) {
                        Ok(value) => Some(value),
                        Err(error) => return Err(error),
                    },
                    None => None,
                };
                Ok(Statement::Return { value, position: *position })
            },
            Statement::Expression(expression) => match self.visit_expression(expression) {
                Ok(expression) => Ok(Statement::Expression(expression)),
                Err(error) => Err(error),
            },
        }
    }

    /// Resolves statements in order, each seeing the variables declared
    /// before it; stops at the first error (see [`resolve_from`]).
    pub fn visit_statements(&mut self, statements: Vec<Statement>) -> (r: Result<
        Vec<Statement>,
        Error,
    >)
        ensures
            statements_result_view(r) == resolve_from(
                old(self).env(),
                statement_views(statements@),
                0,
            ),
            final(self).env() == resolved_env(old(self).env(), statement_views(statements@), 0),
    {
        let ghost ss = statement_views(statements@);
        let ghost goal = resolve_from(self.env(), ss, 0);
        let mut results: Vec<Statement> = Vec::new();
        let mut i: usize = 0;
        proof {
            assert(statement_views(results@) + Seq::empty() =~= Seq::<SpecStatement>::empty());
        }
        while i < statements.len()
            invariant
                i <= statements@.len(),
                ss == statement_views(statements@),
                goal == resolve_from(old(self).env(), ss, 0),
                goal == prepend_statements(statement_views(results@), resolve_from(self.env(), ss, i as int)),
                resolved_env(old(self).env(), ss, 0) == resolved_env(self.env(), ss, i as int),
            decreases statements@.len() - i,
        {
            let result = match self.visit_statement(&statements[i]) {
                Ok(result) => result,
                Err(error) => return Err(error),
            };
            let ghost before = statement_views(results@);
            let ghost rv = result@;
            results.push(result);
            proof {
                assert(statement_views(results@) =~= before.push(rv));
                if let Ok(more) = resolve_from(self.env(), ss, i + 1) {
                    assert(before + (seq![rv] + more) =~= before.push(rv) + more);
                }
            }
            i = i + 1;
        }
        proof {
            assert(statement_views(results@) + Seq::empty() =~= statement_views(results@));
        }
        Ok(results)
    }
}

} // verus!
