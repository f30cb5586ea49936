//! `select` statements.
use vstd::prelude::*;

use crate::expr::{Expr, ToQuery};
use crate::field::Field;
use crate::filter::Filter;
use crate::order_by::OrderBy;
use crate::with::With;

verus! {

/// `select [distinct] target { shape }`, or `select target (expr)`, with an
/// optional filter, ordering and pagination.
#[derive(Debug)]
pub struct SelectBuilder {
    pub target: String,
    pub fields: Vec<Field>,
    pub withs: Vec<With>,
    pub filter: Option<Filter>,
    pub skip: Option<usize>,
    pub take: Option<usize>,
    pub orders: Vec<OrderBy>,
    pub distinct: bool,
    /// Takes the place of the shape when set.
    pub expr: Option<Box<Expr>>,
}

/// Selects `target` with the shape `fields`.
pub fn select(target: &str, fields: Vec<Field>) -> (r: SelectBuilder)
    ensures
        r.target@ == target@,
        r.fields == fields,
        r.withs@.len() == 0,
        r.filter is None,
        r.skip is None,
        r.take is None,
        r.orders@.len() == 0,
        !r.distinct,
        r.expr is None,
{
    SelectBuilder::new(target, fields)
}

/// Selects the value of `expr`.
pub fn select_expr<T: ToQuery>(expr: T) -> (r: SelectBuilder)
    ensures
        r.target@.len() == 0,
        r.fields@.len() == 0,
        r.withs@.len() == 0,
        r.filter is None,
        r.skip is None,
        r.take is None,
        r.orders@.len() == 0,
        !r.distinct,
        r.expr == Some(Box::new(expr.node())),
{
    proof {
        reveal_strlit("");
    }
    SelectBuilder::new("", Vec::new()).expr(expr)
}

impl SelectBuilder {
    pub fn new(target: &str, fields: Vec<Field>) -> (r: SelectBuilder)
        ensures
            r.target@ == target@,
            r.fields == fields,
            r.withs@.len() == 0,
            r.filter is None,
            r.skip is None,
            r.take is None,
            r.orders@.len() == 0,
            !r.distinct,
            r.expr is None,
    {
        SelectBuilder {
            target: String::from_str(target),
            fields,
            withs: Vec::new(),
            filter: None,
            skip: None,
            take: None,
            orders: Vec::new(),
            distinct: false,
            expr: None,
        }
    }

    /// Appends a binding to the statement's `with` block.
    pub fn with(self, with: With) -> (r: SelectBuilder)
        ensures
            r == (SelectBuilder { withs: r.withs, ..self }),
            r.withs@ == self.withs@.push(with),
    {
        let mut withs = self.withs;
        withs.push(with);
        SelectBuilder { withs, ..self }
    }

    pub fn distinct(self, distinct: bool) -> (r: SelectBuilder)
        ensures
            r == (SelectBuilder { distinct, ..self }),
    {
        SelectBuilder { distinct, ..self }
    }

    /// Selects `expr` in place of the shape.
    pub fn expr<T: ToQuery>(self, expr: T) -> (r: SelectBuilder)
        ensures
            r == (SelectBuilder { expr: Some(Box::new(expr.node())), ..self }),
    {
        SelectBuilder { expr: Some(Box::new(expr.into_expr())), ..self }
    }

    /// Sets the filter, replacing any earlier one.
    pub fn filter(self, filter: Filter) -> (r: SelectBuilder)
        ensures
            r == (SelectBuilder { filter: Some(filter), ..self }),
    {
        SelectBuilder { filter: Some(filter), ..self }
    }

    /// Skips the first `n` results; 0 writes no `offset` clause. The count is
    /// bound as an `int32`.
    pub fn skip(self, n: usize) -> (r: SelectBuilder)
        requires
            n <= i32::MAX,
        ensures
            r == (SelectBuilder { skip: Some(n), ..self }),
    {
        SelectBuilder { skip: Some(n), ..self }
    }

    /// Takes at most `n` results; the `limit` clause is written for every `n`, 0
    /// too. The count is bound as an `int32`.
    pub fn take(self, n: usize) -> (r: SelectBuilder)
        requires
            n <= i32::MAX,
        ensures
            r == (SelectBuilder { take: Some(n), ..self }),
    {
        SelectBuilder { take: Some(n), ..self }
    }

    /// Appends an ordering key.
    pub fn order_by(self, ord: OrderBy) -> (r: SelectBuilder)
        ensures
            r == (SelectBuilder { orders: r.orders, ..self }),
            r.orders@ == self.orders@.push(ord),
    {
        let mut orders = self.orders;
        orders.push(ord);
        SelectBuilder { orders, ..self }
    }
}

} // verus!
