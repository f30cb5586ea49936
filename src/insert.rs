//! `insert` statements and their conflict clause.
use vstd::prelude::*;

use crate::expr::{ArgOrExpr, Expr, ToQuery};
use crate::value::IntoValue;
use crate::with::With;

verus! {

/// `unless conflict [on field else (expr)]`.
#[derive(Debug)]
pub struct OnConflict {
    pub field: Option<String>,
    pub else_expr: Option<Box<Expr>>,
}

/// A bare `unless conflict` clause.
pub fn on_conflict() -> (r: OnConflict)
    ensures
        r.field is None,
        r.else_expr is None,
{
    OnConflict::new()
}

/// An `unless conflict` clause that does nothing on a conflict.
pub fn do_nothing() -> (r: OnConflict)
    ensures
        r.field is None,
        r.else_expr is None,
{
    OnConflict::new().do_nothing()
}

impl OnConflict {
    pub fn new() -> (r: OnConflict)
        ensures
            r.field is None,
            r.else_expr is None,
    {
        OnConflict { field: None, else_expr: None }
    }

    /// Drops the `else` expression.
    pub fn do_nothing(self) -> (r: OnConflict)
        ensures
            r.field == self.field,
            r.else_expr is None,
    {
        OnConflict { field: self.field, else_expr: None }
    }

    /// The property whose exclusive constraint is watched.
    pub fn field(self, field: &str) -> (r: OnConflict)
        ensures
            r.field is Some && r.field->Some_0@ == field@,
            r.else_expr == self.else_expr,
    {
        OnConflict { field: Some(String::from_str(field)), else_expr: self.else_expr }
    }

    /// What to evaluate in place of the insert on a conflict.
    pub fn else_expr<T: ToQuery>(self, expr: T) -> (r: OnConflict)
        ensures
            r.field == self.field,
            r.else_expr == Some(Box::new(expr.node())),
    {
        OnConflict { field: self.field, else_expr: Some(Box::new(expr.into_expr())) }
    }
}

impl Default for OnConflict {
    fn default() -> (r: OnConflict)
        ensures
            r.field is None,
            r.else_expr is None,
    {
        OnConflict::new()
    }
}

/// `insert target { field := value, ... }`.
#[derive(Debug)]
pub struct InsertBuilder {
    pub target: String,
    pub withs: Vec<With>,
    pub values: Vec<(String, ArgOrExpr)>,
    pub on_conflict: Option<OnConflict>,
}

/// Inserts an object of type `target`.
pub fn insert(target: &str) -> (r: InsertBuilder)
    ensures
        r.target@ == target@,
        r.withs@.len() == 0,
        r.values@.len() == 0,
        r.on_conflict is None,
{
    InsertBuilder::new(target)
}

impl InsertBuilder {
    pub fn new(target: &str) -> (r: InsertBuilder)
        ensures
            r.target@ == target@,
            r.withs@.len() == 0,
            r.values@.len() == 0,
            r.on_conflict is None,
    {
        InsertBuilder {
            target: String::from_str(target),
            withs: Vec::new(),
            values: Vec::new(),
            on_conflict: None,
        }
    }

    /// Appends a binding to the statement's `with` block.
    pub fn with(self, with: With) -> (r: InsertBuilder)
        ensures
            r == (InsertBuilder { withs: r.withs, ..self }),
            r.withs@ == self.withs@.push(with),
    {
        let mut withs = self.withs;
        withs.push(with);
        InsertBuilder { withs, ..self }
    }

    /// Appends `field := <tag>$n`, binding `v`.
    pub fn set<V: IntoValue>(self, field: &str, v: V) -> (r: InsertBuilder)
        ensures
            r == (InsertBuilder { values: r.values, ..self }),
            r.values@.len() == self.values@.len() + 1,
            r.values@.drop_last() == self.values@,
            r.values@.last().0@ == field@,
            r.values@.last().1 is Arg,
            r.values@.last().1->Arg_0.kind@ == v.value_tag(),
            r.values@.last().1->Arg_0.inner == v.value_payload(),
    {
        let mut values = self.values;
        values.push((String::from_str(field), ArgOrExpr::Arg(v.into_value())));
        assert(values@.drop_last() =~= self.values@);
        InsertBuilder { values, ..self }
    }

    /// Appends `field := (expr)`.
    pub fn set_expr<T: ToQuery>(self, field: &str, v: T) -> (r: InsertBuilder)
        ensures
            r == (InsertBuilder { values: r.values, ..self }),
            r.values@.len() == self.values@.len() + 1,
            r.values@.drop_last() == self.values@,
            r.values@.last().0@ == field@,
            r.values@.last().1 == ArgOrExpr::Expr(Box::new(v.node())),
    {
        let mut values = self.values;
        values.push((String::from_str(field), ArgOrExpr::Expr(Box::new(v.into_expr()))));
        assert(values@.drop_last() =~= self.values@);
        InsertBuilder { values, ..self }
    }

    /// Sets the conflict clause, replacing any earlier one.
    pub fn on_conflict(self, on_conflict: OnConflict) -> (r: InsertBuilder)
        ensures
            r == (InsertBuilder { on_conflict: Some(on_conflict), ..self }),
    {
        InsertBuilder { on_conflict: Some(on_conflict), ..self }
    }
}

} // verus!
