use vstd::prelude::*;

verus! {

/// The static type of an expression or a variable.
#[derive(Debug)]
pub enum Type {
    /// A type not yet known: `Some(name)` names a type that was written but is
    /// not known, `None` asks for the type to be inferred.
    Unresolved(Option<String>),
    /// Accepted by a builtin parameter in place of any type.
    Any,
    Void,
    Integer,
    String,
}

/// The mathematical value of a [`Type`].
pub enum SpecType {
    Unresolved(Option<Seq<char>>),
    Any,
    Void,
    Integer,
    String,
}

impl View for Type {
    type V = SpecType;

    open spec fn view(&self) -> SpecType {
        match self {
            Type::Unresolved(None) => SpecType::Unresolved(None),
            Type::Unresolved(Some(name)) => SpecType::Unresolved(Some(name@)),
            Type::Any => SpecType::Any,
            Type::Void => SpecType::Void,
            Type::Integer => SpecType::Integer,
            Type::String => SpecType::String,
        }
    }
}

impl Clone for Type {
    fn clone(&self) -> (r: Self)
        ensures
            r == *self,
    {
        match self {
            Type::Unresolved(None) => Type::Unresolved(None),
            Type::Unresolved(Some(name)) => Type::Unresolved(Some(name.clone())),
            Type::Any => Type::Any,
            Type::Void => Type::Void,
            Type::Integer => Type::Integer,
            Type::String => Type::String,
        }
    }
}

impl Default for Type {
    /// A type still to be inferred.
    fn default() -> (r: Self)
        ensures
            r@ == SpecType::Unresolved(None),
    {
        Type::Unresolved(None)
    }
}

impl PartialEq for Type {
    fn eq(&self, other: &Type) -> (r: bool) {
        match (self, other) {
            (Type::Unresolved(None), Type::Unresolved(None)) => true,
            (Type::Unresolved(Some(a)), Type::Unresolved(Some(b))) => *a == *b,
            (Type::Any, Type::Any) => true,
            (Type::Void, Type::Void) => true,
            (Type::Integer, Type::Integer) => true,
            (Type::String, Type::String) => true,
            _ => false,
        }
    }
}

impl vstd::std_specs::cmp::PartialEqSpecImpl for Type {
    open spec fn obeys_eq_spec() -> bool {
        true
    }

    open spec fn eq_spec(&self, other: &Type) -> bool {
        self@ == other@
    }
}

} // verus!
