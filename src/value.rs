use vstd::prelude::*;

use crate::ast::Operator;
use crate::text::decimal_text;
use crate::text::integer_text;

verus! {

/// A value computed while a program runs.
#[derive(Debug)]
pub enum Value {
    Integer(i32),
    String(String),
    Void,
}

/// The mathematical value of a [`Value`].
pub enum SpecValue {
    Integer(i32),
    String(Seq<char>),
    Void,
}

impl View for Value {
    type V = SpecValue;

    open spec fn view(&self) -> SpecValue {
        match self {
            Value::Integer(v) => SpecValue::Integer(*v),
            Value::String(s) => SpecValue::String(s@),
            Value::Void => SpecValue::Void,
        }
    }
}

impl Clone for Value {
    fn clone(&self) -> (r: Self)
        ensures
            r == *self,
    {
        match self {
            Value::Integer(v) => Value::Integer(*v),
            Value::String(s) => Value::String(s.clone()),
            Value::Void => Value::Void,
        }
    }
}

impl PartialEq for Value {
    fn eq(&self, other: &Value) -> (r: bool) {
        match (self, other) {
            (Value::Integer(a), Value::Integer(b)) => *a == *b,
            (Value::String(a), Value::String(b)) => *a == *b,
            (Value::Void, Value::Void) => true,
            _ => false,
        }
    }
}

impl vstd::std_specs::cmp::PartialEqSpecImpl for Value {
    open spec fn obeys_eq_spec() -> bool {
        true
    }

    open spec fn eq_spec(&self, other: &Value) -> bool {
        self@ == other@
    }
}

/// An operator applied to two integers: `None` when the result does not fit in
/// `i32`, or on division by zero. Division rounds toward zero.
pub open spec fn integer_operation(a: i32, operator: Operator, b: i32) -> Option<i32> {
    match operator {
        Operator::Add => a.checked_add(b),
        Operator::Subtract => a.checked_sub(b),
        Operator::Multiply => a.checked_mul(b),
        Operator::Divide => a.checked_div(b),
    }
}

/// An operator applied to two values. Integers combine arithmetically; two
/// strings are concatenated whatever the operator; any other pair of values
/// has no result.
pub open spec fn apply_operator(left: SpecValue, operator: Operator, right: SpecValue) -> Option<
    SpecValue,
> {
    match (left, right) {
        (SpecValue::Integer(a), SpecValue::Integer(b)) => match integer_operation(a, operator, b) {
            Some(v) => Some(SpecValue::Integer(v)),
            None => None,
        },
        (SpecValue::String(a), SpecValue::String(b)) => Some(SpecValue::String(a + b)),
        _ => None,
    }
}

/// The text that `print` writes for a value.
pub open spec fn display_of(v: SpecValue) -> Seq<char> {
    match v {
        SpecValue::Integer(n) => decimal_text(n as int),
        SpecValue::String(s) => s,
        SpecValue::Void => seq!['v', 'o', 'i', 'd'],
    }
}

/// The views of an optional value.
pub open spec fn option_value_view(v: Option<Value>) -> Option<SpecValue> {
    match v {
        Some(v) => Some(v@),
        None => None,
    }
}

impl Value {
    /// Applies `operator` to this value and `right`; `None` when the values
    /// cannot be combined (see [`apply_operator`]).
    pub fn binary_operation(&self, operator: Operator, right: Value) -> (r: Option<Value>)
        ensures
            option_value_view(r) == apply_operator(self@, operator, right@),
    {
        match operator {
            Operator::Add => self.add(right),
            Operator::Subtract => self.sub(right),
            Operator::Divide => self.divide(right),
            Operator::Multiply => self.multiply(right),
        }
    }

    /// Concatenates two strings.
    fn concatenate(left: &String, right: &String) -> (r: String)
        ensures
            r@ == left@ + right@,
    {
        let mut joined = left.clone();
        joined.append(right.as_str());
        joined
    }

    pub fn add(&self, right: Value) -> (r: Option<Value>)
        ensures
            option_value_view(r) == apply_operator(self@, Operator::Add, right@),
    {
        match (self, &right) {
            (Value::Integer(a), Value::Integer(b)) => match a.checked_add(*b) {
                Some(v) => Some(Value::Integer(v)),
                None => None,
            },
            (Value::String(a), Value::String(b)) => Some(Value::String(Self::concatenate(a, b))),
            _ => None,
        }
    }

    pub fn sub(&self, right: Value) -> (r: Option<Value>)
        ensures
            option_value_view(r) == apply_operator(self@, Operator::Subtract, right@),
    {
        match (self, &right) {
            (Value::Integer(a), Value::Integer(b)) => match a.checked_sub(*b) {
                Some(v) => Some(Value::Integer(v)),
                None => None,
            },
            (Value::String(a), Value::String(b)) => Some(Value::String(Self::concatenate(a, b))),
            _ => None,
        }
    }

    pub fn divide(&self, right: Value) -> (r: Option<Value>)
        ensures
            option_value_view(r) == apply_operator(self@, Operator::Divide, right@),
    {
        match (self, &right) {
            (Value::Integer(a), Value::Integer(b)) => match a.checked_div(*b) {
                Some(v) => Some(Value::Integer(v)),
                None => None,
            },
            (Value::String(a), Value::String(b)) => Some(Value::String(Self::concatenate(a, b))),
            _ => None,
        }
    }

    pub fn multiply(&self, right: Value) -> (r: Option<Value>)
        ensures
            option_value_view(r) == apply_operator(self@, Operator::Multiply, right@),
    {
        match (self, &right) {
            (Value::Integer(a), Value::Integer(b)) => match a.checked_mul(*b) {
                Some(v) => Some(Value::Integer(v)),
                None => None,
            },
            (Value::String(a), Value::String(b)) => Some(Value::String(Self::concatenate(a, b))),
            _ => None,
        }
    }

    /// The text that `print` writes for this value.
    pub fn display(&self) -> (r: String)
        ensures
            r@ == display_of(self@),
    {
        match self {
            Value::Integer(n) => integer_text(*n),
            Value::String(s) => s.clone(),
            Value::Void => {
                let mut text = String::new();
                crate::text::push_char(&mut text, 'v');
                crate::text::push_char(&mut text, 'o');
                crate::text::push_char(&mut text, 'i');
                crate::text::push_char(&mut text, 'd');
                text
            },
        }
    }
}

} // verus!
