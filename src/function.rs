use vstd::prelude::*;

use crate::text::text_is;
use crate::types::SpecType;
use crate::types::Type;
use crate::value::display_of;
use crate::value::SpecValue;
use crate::value::Value;

verus! {

/// The name of the one builtin function.
pub open spec fn print_name() -> Seq<char> {
    seq!['p', 'r', 'i', 'n', 't']
}

/// The parameter types and the return type of a function.
pub struct Signature {
    pub parameters: Seq<SpecType>,
    pub return_type: SpecType,
}

/// The signature of the builtin function called `name`, if there is one:
/// `print` takes one argument of any type and returns nothing.
pub open spec fn builtin_signature(name: Seq<char>) -> Option<Signature> {
    if name == print_name() {
        Some(Signature { parameters: seq![SpecType::Any], return_type: SpecType::Void })
    } else {
        None
    }
}

/// The lines that `print` writes for its arguments: one for each.
pub open spec fn print_output(args: Seq<SpecValue>) -> Seq<Seq<char>> {
    args.map_values(|v: SpecValue| display_of(v))
}

/// The views of a sequence of strings.
pub open spec fn text_views(lines: Seq<String>) -> Seq<Seq<char>> {
    lines.map_values(|s: String| s@)
}

/// The views of a sequence of types.
pub open spec fn type_views(types: Seq<Type>) -> Seq<SpecType> {
    types.map_values(|t: Type| t@)
}

/// The views of a sequence of values.
pub open spec fn value_views(values: Seq<Value>) -> Seq<SpecValue> {
    values.map_values(|v: Value| v@)
}

/// The table of builtin functions.
pub struct BuiltinFunctions;

impl BuiltinFunctions {
    pub fn new() -> (r: Self) {
        BuiltinFunctions
    }

    /// The builtin function called `name`, if there is one.
    pub fn get(&self, name: &str) -> (r: Option<PrintFunction>)
        ensures
            r is Some <==> builtin_signature(name@) is Some,
    {
        proof {
            reveal_strlit("print");
            assert("print"@ =~= print_name());
        }
        let name = String::from_str(name);
        if text_is(&name, "print") {
            Some(PrintFunction)
        } else {
            None
        }
    }
}

/// The builtin `print`: writes each argument's text on a line of its own.
pub struct PrintFunction;

impl PrintFunction {
    /// Calls the function: the text of each argument is added to `output`,
    /// and the result is `Void`.
    pub fn call(&self, arguments: Vec<Value>, output: &mut Vec<String>) -> (r: Value)
        ensures
            r@ == SpecValue::Void,
            text_views(final(output)@) == text_views(old(output)@) + print_output(
                value_views(arguments@),
            ),
    {
        let ghost start = text_views(output@);
        let mut i: usize = 0;
        while i < arguments.len()
            invariant
                i <= arguments@.len(),
                text_views(output@) == start + print_output(
                    value_views(arguments@.subrange(0, i as int)),
                ),
            decreases arguments@.len() - i,
        {
            let ghost before = output@;
            output.push(arguments[i].display());
            proof {
                let done = arguments@.subrange(0, i as int);
                let next = arguments@.subrange(0, i + 1);
                assert(value_views(next) =~= value_views(done).push(arguments@[i as int]@));
                assert(print_output(value_views(next)) =~= print_output(value_views(done)).push(
                    display_of(arguments@[i as int]@),
                ));
                assert(text_views(output@) =~= text_views(before).push(
                    display_of(arguments@[i as int]@),
                ));
            }
            i = i + 1;
        }
        proof {
            assert(arguments@.subrange(0, arguments@.len() as int) =~= arguments@);
        }
        Value::Void
    }

    /// The return type.
    pub fn return_type(&self) -> (r: Type)
        ensures
            r@ == builtin_signature(print_name())->0.return_type,
    {
        Type::Void
    }

    /// The parameter types.
    pub fn arguments(&self) -> (r: Vec<Type>)
        ensures
            type_views(r@) == builtin_signature(print_name())->0.parameters,
    {
        let r = vec![Type::Any];
        proof {
            assert(type_views(r@) =~= seq![SpecType::Any]);
        }
        r
    }
}

} // verus!
