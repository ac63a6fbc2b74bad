use vstd::prelude::*;

use crate::ast::Expression;
use crate::ast::expression_views;
use crate::ast::lemma_expression_views_push;
use crate::ast::SpecExpression;
use crate::ast::SpecStatement;
use crate::ast::Statement;
use crate::ast::statement_views;
use crate::environment::Environment;
use crate::error::Error;
use crate::error::ErrorType;
use crate::error::fail;
use crate::error::result_view;
use crate::error::SpecError;
use crate::error::SpecErrorType;
use crate::function::builtin_signature;
use crate::function::BuiltinFunctions;
use crate::function::print_output;
use crate::function::text_views;
use crate::function::value_views;
use crate::value::apply_operator;
use crate::value::option_value_view;
use crate::value::SpecValue;
use crate::value::Value;

verus! {

/// The values of the variables bound so far, by name.
pub type ValueEnv = Map<Seq<char>, SpecValue>;

/// The lines written so far.
pub type Output = Seq<Seq<char>>;

/// How a statement or a sequence of statements ended, when it did not fail.
#[derive(Debug)]
pub enum Flow {
    /// Every statement ran.
    Completed,
    /// A `return` stopped the run, with its value if it had one.
    Returned(Option<Value>),
}

/// The mathematical value of a [`Flow`].
pub enum SpecFlow {
    Completed,
    Returned(Option<SpecValue>),
}

impl View for Flow {
    type V = SpecFlow;

    open spec fn view(&self) -> SpecFlow {
        match self {
            Flow::Completed => SpecFlow::Completed,
            Flow::Returned(v) => SpecFlow::Returned(option_value_view(*v)),
        }
    }
}

/// Evaluates an expression: its value or error, and the lines that calls to
/// `print` wrote on the way, left operand first.
pub open spec fn eval_spec(env: ValueEnv, e: SpecExpression) -> (Result<SpecValue, SpecError>, Output)
    decreases e, 1int,
{
    match e {
        SpecExpression::IntegerLiteral(v) => (Ok(SpecValue::Integer(v)), Seq::empty()),
        SpecExpression::StringLiteral(s) => (Ok(SpecValue::String(s)), Seq::empty()),
        SpecExpression::Identifier(_, id) => if env.contains_key(id.name) {
            (Ok(env[id.name]), Seq::empty())
        } else {
            (fail(SpecErrorType::UnknownVariable(id.name), id.position), Seq::empty())
        },
        SpecExpression::BinaryOperation { left, operator, position, right, .. } => {
            let (l, out1) = eval_spec(env, *left);
            match l {
                Err(er) => (Err(er), out1),
                Ok(lv) => {
                    let (r, out2) = eval_spec(env, *right);
                    match r {
                        Err(er) => (Err(er), out1 + out2),
                        Ok(rv) => match apply_operator(lv, operator, rv) {
                            Some(v) => (Ok(v), out1 + out2),
                            None => (
                                fail(SpecErrorType::InvalidBinaryOperation(lv, operator, rv), position),
                                out1 + out2,
                            ),
                        },
                    }
                },
            }
        },
        SpecExpression::FunctionCall { identifier, arguments, .. } => {
            let (vals, out) = eval_arguments_spec(env, arguments);
            match vals {
                Err(er) => (Err(er), out),
                Ok(vs) => if builtin_signature(identifier.name) is Some {
                    (Ok(SpecValue::Void), out + print_output(vs))
                } else {
                    (fail(SpecErrorType::UnknownFunction(identifier.name), identifier.position), out)
                },
            }
        },
    }
}

/// Evaluates expressions in order; the first error wins.
pub open spec fn eval_arguments_spec(env: ValueEnv, args: Seq<SpecExpression>) -> (
    Result<Seq<SpecValue>, SpecError>,
    Output,
)
    decreases args, 0int,
{
    if args.len() == 0 {
        (Ok(Seq::empty()), Seq::empty())
    } else {
        let (r, out) = eval_arguments_spec(env, args.drop_last());
        match r {
            Err(er) => (Err(er), out),
            Ok(vs) => {
                let (v, out2) = eval_spec(env, args.last());
                match v {
                    Ok(v) => (Ok(vs.push(v)), out + out2),
                    Err(er) => (Err(er), out + out2),
                }
            },
        }
    }
}

/// Runs one statement: how it ended, the variables after it and the lines it
/// wrote. A `let` of a name that is already bound fails.
pub open spec fn exec_statement_spec(env: ValueEnv, s: SpecStatement) -> (
    Result<SpecFlow, SpecError>,
    ValueEnv,
    Output,
) {
    match s {
        SpecStatement::Let { identifier, value, .. } => if env.contains_key(identifier.name) {
            (
                fail(SpecErrorType::VariableAlreadyDeclared(identifier.name), identifier.position),
                env,
                Seq::empty(),
            )
        } else {
            let (v, out) = eval_spec(env, value);
            match v {
                Ok(v) => (Ok(SpecFlow::Completed), env.insert(identifier.name, v), out),
                Err(er) => (Err(er), env, out),
            }
        },
        SpecStatement::Return { value, .. } => match value {
            None => (Ok(SpecFlow::Returned(None)), env, Seq::empty()),
            Some(e) => {
                let (v, out) = eval_spec(env, e);
                match v {
                    Ok(v) => (Ok(SpecFlow::Returned(Some(v))), env, out),
                    Err(er) => (Err(er), env, out),
                }
            },
        },
        SpecStatement::Expression(e) => {
            let (v, out) = eval_spec(env, e);
            match v {
                Ok(_) => (Ok(SpecFlow::Completed), env, out),
                Err(er) => (Err(er), env, out),
            }
        },
    }
}

/// Runs the statements from index `k` on, until one fails or returns.
pub open spec fn run_from(env: ValueEnv, ss: Seq<SpecStatement>, k: int) -> (
    Result<SpecFlow, SpecError>,
    ValueEnv,
    Output,
)
    decreases ss.len() - k,
{
    if k < 0 || k >= ss.len() {
        (Ok(SpecFlow::Completed), env, Seq::empty())
    } else {
        let (r, next, out) = exec_statement_spec(env, ss[k]);
        match r {
            Ok(SpecFlow::Completed) => {
                let (r2, last, out2) = run_from(next, ss, k + 1);
                (r2, last, out + out2)
            },
            _ => (r, next, out),
        }
    }
}

/// Evaluates resolved statements against an environment of variables,
/// collecting what `print` writes.
pub struct Interpreter {
    variables: Environment<Value>,
    builtin_functions: BuiltinFunctions,
    output: Vec<String>,
}

impl Interpreter {
    /// The values of the variables bound so far.
    pub closed spec fn env(&self) -> ValueEnv {
        self.variables@
    }

    /// The lines written so far.
    pub closed spec fn lines(&self) -> Output {
        text_views(self.output@)
    }

    /// An interpreter with no variables that has written nothing.
    pub fn new() -> (r: Self)
        ensures
            r.env() == ValueEnv::empty(),
            r.lines() == Output::empty(),
    {
        let r = Interpreter {
            variables: Environment::new(),
            builtin_functions: BuiltinFunctions::new(),
            output: Vec::new(),
        };
        proof {
            assert(r.lines() =~= Output::empty());
        }
        r
    }

    /// The variables, in the order they were bound.
    pub fn variables(&self) -> (r: &Environment<Value>)
        ensures
            r@ == self.env(),
    {
        &self.variables
    }

    /// The lines written so far.
    pub fn output(&self) -> (r: &Vec<String>)
        ensures
            text_views(r@) == self.lines(),
    {
        &self.output
    }

    /// Evaluates an expression (see [`eval_spec`]).
    pub fn visit_expression(&mut self, expression: &Expression) -> (r: Result<Value, Error>)
        ensures
            final(self).env() == old(self).env(),
            result_view(r) == eval_spec(old(self).env(), expression@).0,
            final(self).lines() == old(self).lines() + eval_spec(old(self).env(), expression@).1,
        decreases expression,
    {
        let ghost lines0 = self.lines();
        match expression {
            Expression::IntegerLiteral(value) => {
                proof {
                    assert(lines0 + Output::empty() =~= lines0);
                }
                Ok(Value::Integer(*value))
            },
            Expression::StringLiteral(value) => {
                proof {
                    assert(lines0 + Output::empty() =~= lines0);
                }
                Ok(Value::String(value.clone()))
            },
            Expression::BinaryOperation { left, operator, position, right, .. } => {
                let left = match self.visit_expression(left) {
                    Ok(left) => left,
                    Err(error) => return Err(error),
                };
                let ghost lines1 = self.lines();
                let right = match self.visit_expression(right) {
                    Ok(right) => right,
                    Err(error) => {
                        proof {
                            assert(self.lines() =~= lines0 + (lines1.subrange(
                                lines0.len() as int,
                                lines1.len() as int,
                            ) + self.lines().subrange(lines1.len() as int, self.lines().len() as int)));
                        }
                        return Err(error);
                    },
                };
                proof {
                    assert(self.lines() =~= lines0 + (lines1.subrange(
                        lines0.len() as int,
                        lines1.len() as int,
                    ) + self.lines().subrange(lines1.len() as int, self.lines().len() as int)));
                }
                match left.binary_operation(*operator, right.clone()) {
                    Some(value) => Ok(value),
                    None => Err(
                        Error::new(ErrorType::InvalidBinaryOperation(left, *operator, right), *position),
                    ),
                }
            },
            Expression::Identifier(_, identifier) => {
                proof {
                    assert(lines0 + Output::empty() =~= lines0);
                }
                match self.variables.get(&identifier.name) {
                    Some(value) => Ok(value.clone()),
                    None => Err(
                        Error::new(
                            ErrorType::UnknownVariable(identifier.name.clone()),
                            identifier.position,
                        ),
                    ),
                }
            },
            Expression::FunctionCall { identifier, arguments, .. } => {
                let ghost env = self.env();
                let mut values: Vec<Value> = Vec::new();
                let mut i: usize = 0;
                proof {
                    assert(arguments@.subrange(0, 0) =~= Seq::<Expression>::empty());
                    assert(expression_views(Seq::<Expression>::empty()) =~= Seq::empty());
                    assert(value_views(values@) =~= Seq::empty());
                    assert(self.lines().subrange(lines0.len() as int, lines0.len() as int)
                        =~= Output::empty());
                    assert(self.lines().subrange(0, lines0.len() as int) =~= lines0);
                }
                while i < arguments.len()
                    invariant
                        i <= arguments@.len(),
                        env == self.env(),
                        env == old(self).env(),
                        lines0 == old(self).lines(),
                        expression is FunctionCall,
                        expression->identifier == *identifier,
                        expression->arguments == *arguments,
                        eval_arguments_spec(env, expression_views(arguments@.subrange(0, i as int)))
                            == (Ok::<_, SpecError>(value_views(values@)), self.lines().subrange(
                            lines0.len() as int,
                            self.lines().len() as int,
                        )),
                        lines0.len() <= self.lines().len(),
                        self.lines().subrange(0, lines0.len() as int) == lines0,
                    decreases arguments@.len() - i,
                {
                    proof {
                        vstd::std_specs::vec::axiom_vec_index_decreases(*arguments, i as int);
                        assert(decreases_to!(*expression => arguments[i as int]));
                        lemma_arguments_step(env, arguments@, i as int);
                    }
                    let ghost lines1 = self.lines();
                    let value = match self.visit_expression(&arguments[i]) {
                        Ok(value) => value,
                        Err(error) => {
                            proof {
                                assert(self.lines() =~= lines0 + (lines1.subrange(
                                    lines0.len() as int,
                                    lines1.len() as int,
                                ) + self.lines().subrange(
                                    lines1.len() as int,
                                    self.lines().len() as int,
                                )));
                                lemma_arguments_error_stays(env, arguments@, i as int + 1);
                            }
                            return Err(error);
                        },
                    };
                    proof {
                        assert(self.lines().subrange(lines0.len() as int, self.lines().len() as int)
                            =~= lines1.subrange(lines0.len() as int, lines1.len() as int)
                            + self.lines().subrange(lines1.len() as int, self.lines().len() as int));
                        assert(self.lines().subrange(0, lines0.len() as int) =~= lines0);
                    }
                    let ghost before = values@;
                    let ghost vv = value@;
                    values.push(value);
                    proof {
                        assert(value_views(values@) =~= value_views(before).push(vv));
                    }
                    i = i + 1;
                }
                proof {
                    assert(arguments@.subrange(0, arguments@.len() as int) =~= arguments@);
                }
                match self.builtin_functions.get(identifier.name.as_str()) {
                    Some(function) => {
                        let ghost lines1 = self.lines();
                        let ghost vs = value_views(values@);
                        let result = function.call(values, &mut self.output);
                        proof {
                            assert(self.lines() =~= lines0 + (lines1.subrange(
                                lines0.len() as int,
                                lines1.len() as int,
                            ) + print_output(vs)));
                        }
                        Ok(result)
                    },
                    None => {
                        proof {
                            assert(self.lines() =~= lines0 + self.lines().subrange(
                                lines0.len() as int,
                                self.lines().len() as int,
                            ));
                        }
                        Err(
                            Error::new(
                                ErrorType::UnknownFunction(identifier.name.clone()),
                                identifier.position,
                            ),
                        )
                    },
                }
            },
        }
    }
}

/// One more argument evaluated, or the error it gives.
proof fn lemma_arguments_step(env: ValueEnv, arguments: Seq<Expression>, i: int)
    requires
        0 <= i < arguments.len(),
    ensures
        eval_arguments_spec(env, expression_views(arguments.subrange(0, i + 1))) == ({
            let (r, out) = eval_arguments_spec(env, expression_views(arguments.subrange(0, i)));
            match r {
                Err(er) => (Err(er), out),
                Ok(vs) => {
                    let (v, out2) = eval_spec(env, arguments[i]@);
                    match v {
                        Ok(v) => (Ok(vs.push(v)), out + out2),
                        Err(er) => (Err(er), out + out2),
                    }
                },
            }
        }),
{
    assert(arguments.subrange(0, i + 1) =~= arguments.subrange(0, i).push(arguments[i]));
    lemma_expression_views_push(arguments.subrange(0, i), arguments[i]);
    assert(expression_views(arguments.subrange(0, i + 1)).drop_last() =~= expression_views(
        arguments.subrange(0, i),
    ));
}

/// Once an argument fails, the whole list fails with its error and output.
proof fn lemma_arguments_error_stays(env: ValueEnv, arguments: Seq<Expression>, i: int)
    requires
        0 < i <= arguments.len(),
        eval_arguments_spec(env, expression_views(arguments.subrange(0, i))).0 is Err,
    ensures
        eval_arguments_spec(env, expression_views(arguments)) == eval_arguments_spec(
            env,
            expression_views(arguments.subrange(0, i)),
        ),
    decreases arguments.len() - i,
{
    if i < arguments.len() {
        lemma_arguments_step(env, arguments, i);
        lemma_arguments_error_stays(env, arguments, i + 1);
    } else {
        assert(arguments.subrange(0, i) =~= arguments);
    }
}

impl Interpreter {
    /// Runs one statement (see [`exec_statement_spec`]).
    pub fn visit_statement(&mut self, statement: &Statement) -> (r: Result<Flow, Error>)
        ensures
            ({
                let (outcome, env, out) = exec_statement_spec(old(self).env(), statement@);
                &&& result_view(r) == outcome
                &&& final(self).env() == env
                &&& final(self).lines() == old(self).lines() + out
            }),
    {
        match statement {
            Statement::Let { identifier, value, .. } => {
                // A variable may be declared only once.
                if self.variables.contains(&identifier.name) {
                    proof {
                        assert(self.lines() + Output::empty() =~= self.lines());
                    }
                    return Err(
                        Error::new(
                            ErrorType::VariableAlreadyDeclared(identifier.name.clone()),
                            identifier.position,
                        ),
                    );
                }
                let value = match self.visit_expression(value) {
                    Ok(value) => value,
                    Err(error) => return Err(error),
                };
                self.variables.insert(identifier.clone(), value);
                Ok(Flow::Completed)
            },
            Statement::Return { value, .. } => {
                let value = match value {
                    Some(value) => match self.visit_expression(value) {
                        Ok(value) => Some(value),
                        Err(error) => return Err(error),
                    },
                    None => {
                        proof {
                            assert(self.lines() + Output::empty() =~= self.lines());
                        }
                        None
                    },
                };
                Ok(Flow::Returned(value))
            },
            Statement::Expression(expression) => match self.visit_expression(expression) {
                Ok(_) => Ok(Flow::Completed),
                Err(error) => Err(error),
            },
        }
    }

    /// Runs statements in order until one fails or returns (see
    /// [`run_from`]). A `return` ends the run without an error.
    pub fn visit_statements(&mut self, statements: Vec<Statement>) -> (r: Result<Flow, Error>)
        ensures
            ({
                let (outcome, env, out) = run_from(old(self).env(), statement_views(statements@), 0);
                &&& result_view(r) == outcome
                &&& final(self).env() == env
                &&& final(self).lines() == old(self).lines() + out
            }),
    {
        let ghost ss = statement_views(statements@);
        let ghost goal = run_from(self.env(), ss, 0);
        let mut i: usize = 0;
        proof {
            assert(self.lines() + goal.2 =~= old(self).lines() + goal.2);
        }
        while i < statements.len()
            invariant
                i <= statements@.len(),
                ss == statement_views(statements@),
                goal == run_from(old(self).env(), ss, 0),
                goal.0 == run_from(self.env(), ss, i as int).0,
                goal.1 == run_from(self.env(), ss, i as int).1,
                old(self).lines() + goal.2 == self.lines() + run_from(self.env(), ss, i as int).2,
            decreases statements@.len() - i,
        {
            let ghost lines1 = self.lines();
            let ghost env1 = self.env();
            let flow = match self.visit_statement(&statements[i]) {
                Ok(flow) => flow,
                Err(error) => return Err(error),
            };
            match flow {
                Flow::Completed => {},
                Flow::Returned(_) => return Ok(flow),
            }
            proof {
                let out = exec_statement_spec(env1, ss[i as int]).2;
                let rest = run_from(self.env(), ss, i + 1).2;
                assert(lines1 + (out + rest) =~= (lines1 + out) + rest);
            }
            i = i + 1;
        }
        proof {
            assert(self.lines() + Output::empty() =~= self.lines());
        }
        Ok(Flow::Completed)
    }
}

} // verus!
