//! `update` statements.
use vstd::prelude::*;

use crate::expr::{ArgOrExpr, Expr, ToQuery};
use crate::filter::Filter;
use crate::value::IntoValue;
use crate::with::With;

verus! {

/// `update target filter ... set { field := value, ... }`.
#[derive(Debug)]
pub struct UpdateBuilder {
    pub target: String,
    pub withs: Vec<With>,
    pub filter: Option<Filter>,
    pub values: Vec<(String, ArgOrExpr)>,
}

/// Updates objects of type `target`.
pub fn update(target: &str) -> (r: UpdateBuilder)
    ensures
        r.target@ == target@,
        r.withs@.len() == 0,
        r.filter is None,
        r.values@.len() == 0,
{
    UpdateBuilder::new(target)
}

impl UpdateBuilder {
    pub fn new(target: &str) -> (r: UpdateBuilder)
        ensures
            r.target@ == target@,
            r.withs@.len() == 0,
            r.filter is None,
            r.values@.len() == 0,
    {
        UpdateBuilder {
            target: String::from_str(target),
            withs: Vec::new(),
            filter: None,
            values: Vec::new(),
        }
    }

    /// Appends a binding to the statement's `with` block.
    pub fn with(self, with: With) -> (r: UpdateBuilder)
        ensures
            r == (UpdateBuilder { withs: r.withs, ..self }),
            r.withs@ == self.withs@.push(with),
    {
        let mut withs = self.withs;
        withs.push(with);
        UpdateBuilder { withs, ..self }
    }

    /// Sets the filter, replacing any earlier one.
    pub fn filter(self, filter: Filter) -> (r: UpdateBuilder)
        ensures
            r == (UpdateBuilder { filter: Some(filter), ..self }),
    {
        UpdateBuilder { filter: Some(filter), ..self }
    }

    /// Appends `field := <tag>$n`, binding `value`.
    pub fn set<V: IntoValue>(self, field: &str, value: V) -> (r: UpdateBuilder)
        ensures
            r == (UpdateBuilder { values: r.values, ..self }),
            r.values@.len() == self.values@.len() + 1,
            r.values@.drop_last() == self.values@,
            r.values@.last().0@ == field@,
            r.values@.last().1 is Arg,
            r.values@.last().1->Arg_0.kind@ == value.value_tag(),
            r.values@.last().1->Arg_0.inner == value.value_payload(),
    {
        let mut values = self.values;
        values.push((String::from_str(field), ArgOrExpr::Arg(value.into_value())));
        assert(values@.drop_last() =~= self.values@);
        UpdateBuilder { values, ..self }
    }

    /// Appends `field := <tag>$n` when `opt_value` holds a value; otherwise
    /// leaves the statement as it is.
    pub fn set_opt<V: IntoValue>(self, field: &str, opt_value: Option<V>) -> (r: UpdateBuilder)
        ensures
            opt_value is None ==> r == self,
            opt_value is Some ==> {
                &&& r == (UpdateBuilder { values: r.values, ..self })
                &&& r.values@.len() == self.values@.len() + 1
                &&& r.values@.drop_last() == self.values@
                &&& r.values@.last().0@ == field@
                &&& r.values@.last().1 is Arg
                &&& r.values@.last().1->Arg_0.kind@ == opt_value->Some_0.value_tag()
                &&& r.values@.last().1->Arg_0.inner == opt_value->Some_0.value_payload()
            },
    {
        match opt_value {
            Some(v) => self.set(field, v),
            None => self,
        }
    }

    /// Appends `field := (expr)`.
    pub fn set_expr<T: ToQuery>(self, field: &str, expr: T) -> (r: UpdateBuilder)
        ensures
            r == (UpdateBuilder { values: r.values, ..self }),
            r.values@.len() == self.values@.len() + 1,
            r.values@.drop_last() == self.values@,
            r.values@.last().0@ == field@,
            r.values@.last().1 == ArgOrExpr::Expr(Box::new(expr.node())),
    {
        let mut values = self.values;
        values.push((String::from_str(field), ArgOrExpr::Expr(Box::new(expr.into_expr()))));
        assert(values@.drop_last() =~= self.values@);
        UpdateBuilder { values, ..self }
    }
}

} // verus!
