use vstd::prelude::*;

use crate::ast::SpecExpression;
use crate::ast::SpecIdentifier;
use crate::ast::SpecStatement;
use crate::check_source;
use crate::error::SpecError;
use crate::error::SpecErrorType;
use crate::execute_source;
use crate::interpreter::eval_spec;
use crate::interpreter::exec_statement_spec;
use crate::interpreter::Output;
use crate::interpreter::run_from;
use crate::interpreter::SpecFlow;
use crate::interpreter::ValueEnv;
use crate::lexer::at;
use crate::lexer::in_number;
use crate::lexer::lex_from;
use crate::lexer::lex_spec;
use crate::lexer::literal_value;
use crate::lexer::run_end;
use crate::lexer::starts_number;
use crate::position::Position;
use crate::resolver::resolve_expression_spec;
use crate::resolver::TypeEnv;
use crate::text::ascii_digits;
use crate::text::decimal_text;
use crate::text::decimal_value;
use crate::text::digit_char;
use crate::text::digits_text;
use crate::token::SpecToken;
use crate::token::SpecTokenType;
use crate::types::SpecType;
use crate::value::display_of;
use crate::value::SpecValue;

verus! {

/// The digit for `d` is an ASCII digit worth `d`.
proof fn lemma_digit_char(d: int)
    requires
        0 <= d < 10,
    ensures
        '0' <= digit_char(d) <= '9',
        digit_char(d) as int - '0' as int == d,
{
    if d == 0 {
    } else if d == 1 {
    } else if d == 2 {
    } else if d == 3 {
    } else if d == 4 {
    } else if d == 5 {
    } else if d == 6 {
    } else if d == 7 {
    } else if d == 8 {
    } else {
    }
}

/// The decimal digits of a number are ASCII digits and denote that number.
proof fn lemma_digits_text(n: nat)
    ensures
        digits_text(n).len() >= 1,
        ascii_digits(digits_text(n)),
        decimal_value(digits_text(n)) == n,
    decreases n,
{
    if n >= 10 {
        lemma_digits_text(n / 10);
        lemma_digit_char((n % 10) as int);
        let s = digits_text(n);
        assert(s.drop_last() =~= digits_text(n / 10));
        assert(decimal_value(s) == decimal_value(s.drop_last()) * 10 + (s.last() as int
            - '0' as int));
        assert(n == (n / 10) * 10 + n % 10) by (nonlinear_arith);
    } else {
        lemma_digit_char(n as int);
        let s = digits_text(n);
        assert(s.drop_last() =~= Seq::<char>::empty());
        assert(decimal_value(s) == decimal_value(s.drop_last()) * 10 + (s.last() as int
            - '0' as int));
    }
}

/// A run over characters that all pass reaches the end of the text.
proof fn lemma_run_end_whole(s: Seq<char>, i: int, p: spec_fn(char) -> bool)
    requires
        0 <= i <= s.len(),
        forall|k: int| i <= k < s.len() ==> p(#[trigger] s[k]),
    ensures
        run_end(s, i, p) == s.len(),
    decreases s.len() - i,
{
    if i < s.len() {
        lemma_run_end_whole(s, i + 1, p);
    }
}

/// Lexing the decimal text of a non-negative `i32` gives one integer literal
/// of that value, and writing that value out again gives the same text.
pub proof fn lemma_integer_literal_round_trip(n: int)
    requires
        0 <= n <= i32::MAX,
    ensures
        lex_spec(decimal_text(n)) == Ok::<_, SpecError>(
            seq![
                SpecToken {
                    token_type: SpecTokenType::IntegerLiteral(n as i32),
                    position: at(decimal_text(n).len() as int, 0),
                },
            ],
        ),
        display_of(SpecValue::Integer(n as i32)) == decimal_text(n),
{
    let s = decimal_text(n);
    lemma_digits_text(n as nat);
    assert forall|k: int| 1 <= k < s.len() implies in_number()(#[trigger] s[k]) by {
        assert('0' <= s[k] <= '9');
    }
    lemma_run_end_whole(s, 1, in_number());
    assert(s.subrange(0, s.len() as int) =~= s);
    assert('0' <= s[0] <= '9');
    assert(starts_number(s[0]));
    assert(literal_value(s) == Some(n as i32));
    assert(lex_from(s, s.len() as int, s.len() as int, 0) == Ok::<_, SpecError>(
        Seq::<SpecToken>::empty(),
    ));
    assert(seq![
        SpecToken {
            token_type: SpecTokenType::IntegerLiteral(n as i32),
            position: at(s.len() as int, 0),
        },
    ] + Seq::<SpecToken>::empty() =~= seq![
        SpecToken {
            token_type: SpecTokenType::IntegerLiteral(n as i32),
            position: at(s.len() as int, 0),
        },
    ]);
}

/// A variable that has not been declared is refused by the resolver with
/// the error `UnknownVariable`, at the place it is referred to.
pub proof fn lemma_unknown_variable_refused(env: TypeEnv, ty: SpecType, id: SpecIdentifier)
    requires
        !env.contains_key(id.name),
    ensures
        resolve_expression_spec(env, SpecExpression::Identifier(ty, id)) == Err::<
            SpecExpression,
            _,
        >(SpecError { error_type: SpecErrorType::UnknownVariable(id.name), position: id.position }),
{
}

/// An error found while checking a source text, such as a reference to an
/// undeclared variable, is the error of the whole run: the program is never
/// interpreted.
pub proof fn lemma_check_errors_stop_the_run(s: Seq<char>)
    requires
        check_source(s) is Err,
    ensures
        execute_source(s) == (
            Err::<SpecFlow, _>(check_source(s)->Err_0),
            ValueEnv::empty(),
            Output::empty(),
        ),
{
}

/// Running `a` and then `b` from index `k` of `a`, when `a` completes, is
/// running `a` and then `b` from where `a` left the variables.
proof fn lemma_run_split(env: ValueEnv, a: Seq<SpecStatement>, b: Seq<SpecStatement>, k: int)
    requires
        0 <= k <= a.len(),
        run_from(env, a, k).0 == Ok::<_, SpecError>(SpecFlow::Completed),
    ensures
        run_from(env, a + b, k) == ({
            let (_, mid, out1) = run_from(env, a, k);
            let (r, last, out2) = run_from(mid, a + b, a.len() as int);
            (r, last, out1 + out2)
        }),
    decreases a.len() - k,
{
    if k == a.len() {
        let (r, last, out2) = run_from(env, a + b, k);
        assert(Seq::<Seq<char>>::empty() + out2 =~= out2);
    } else {
        assert((a + b)[k] == a[k]);
        let (_, next, out) = exec_statement_spec(env, a[k]);
        lemma_run_split(next, a, b, k + 1);
        let (_, mid, out1) = run_from(next, a, k + 1);
        let (r, last, out2) = run_from(mid, a + b, a.len() as int);
        assert(out + (out1 + out2) =~= (out + out1) + out2);
    }
}

/// A `return` halts a run: once the statements before it complete, the
/// statements after it never run, and the run ends as the `return` does,
/// without an error unless computing its value fails.
pub proof fn lemma_return_halts(
    env: ValueEnv,
    before: Seq<SpecStatement>,
    value: Option<SpecExpression>,
    position: Position,
    after: Seq<SpecStatement>,
)
    requires
        run_from(env, before, 0).0 == Ok::<_, SpecError>(SpecFlow::Completed),
    ensures
        ({
            let ret = SpecStatement::Return { value, position };
            let (_, mid, out1) = run_from(env, before, 0);
            let (r, last, out2) = exec_statement_spec(mid, ret);
            &&& run_from(env, before + seq![ret] + after, 0) == (r, last, out1 + out2)
            &&& (value is None || eval_spec(mid, value->0).0 is Ok) ==> r is Ok
        }),
{
    let ret = SpecStatement::Return { value, position };
    let b = seq![ret] + after;
    assert(before + seq![ret] + after =~= before + b);
    lemma_run_split(env, before, b, 0);
    assert((before + b)[before.len() as int] == ret);
}

} // verus!
