//! Named bindings of a statement's `with` block.
use vstd::prelude::*;

use crate::expr::{ArgOrExpr, Expr, ToQuery};
use crate::value::IntoValue;

verus! {

/// A named value or sub-expression, bound once for a statement.
#[derive(Debug)]
pub struct With {
    pub name: String,
    /// Must be set before the binding is rendered.
    pub x: Option<ArgOrExpr>,
}

impl With {
    /// A binding named `name` with nothing bound yet.
    pub fn new(name: &str) -> (r: With)
        ensures
            r.name@ == name@,
            r.x is None,
    {
        With { name: String::from_str(name), x: None }
    }

    /// Binds the sub-expression `expr`, replacing what was bound.
    pub fn expr<T: ToQuery>(self, expr: T) -> (r: With)
        ensures
            r.name == self.name,
            r.x == Some(ArgOrExpr::Expr(Box::new(expr.node()))),
    {
        With { name: self.name, x: Some(ArgOrExpr::Expr(Box::new(expr.into_expr()))) }
    }

    /// Binds the value `value`, replacing what was bound.
    pub fn value<V: IntoValue>(self, value: V) -> (r: With)
        ensures
            r.name == self.name,
            r.x is Some && r.x->Some_0 is Arg,
            r.x->Some_0->Arg_0.kind@ == value.value_tag(),
            r.x->Some_0->Arg_0.inner == value.value_payload(),
    {
        With { name: self.name, x: Some(ArgOrExpr::Arg(value.into_value())) }
    }
}

/// A binding of `name` to `value`.
pub fn with<V: IntoValue>(name: &str, value: V) -> (r: With)
    ensures
        r.name@ == name@,
        r.x is Some && r.x->Some_0 is Arg,
        r.x->Some_0->Arg_0.kind@ == value.value_tag(),
        r.x->Some_0->Arg_0.inner == value.value_payload(),
{
    With::new(name).value(value)
}

/// A binding of `name` to the sub-expression `expr`.
pub fn with_expr<T: ToQuery>(name: &str, expr: T) -> (r: With)
    ensures
        r.name@ == name@,
        r.x == Some(ArgOrExpr::Expr(Box::new(expr.node()))),
{
    With::new(name).expr(expr)
}

} // verus!
