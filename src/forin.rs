//! `for ... in ... union (...)` statements.
use vstd::prelude::*;

use crate::expr::{Expr, ToQuery};
use crate::with::With;

verus! {

/// `for elem in arr union (expr)`.
#[derive(Debug)]
pub struct ForInBuilder {
    pub arr: String,
    pub elem: String,
    pub withs: Vec<With>,
    /// Must be set before the statement is rendered.
    pub expr: Option<Box<Expr>>,
}

/// A loop over the set `arr_name`, each element named `elem_name`.
pub fn forin(arr_name: &str, elem_name: &str) -> (r: ForInBuilder)
    ensures
        r.arr@ == arr_name@,
        r.elem@ == elem_name@,
        r.withs@.len() == 0,
        r.expr is None,
{
    ForInBuilder::new(arr_name, elem_name)
}

impl ForInBuilder {
    pub fn new(arr_name: &str, elem_name: &str) -> (r: ForInBuilder)
        ensures
            r.arr@ == arr_name@,
            r.elem@ == elem_name@,
            r.withs@.len() == 0,
            r.expr is None,
    {
        ForInBuilder {
            arr: String::from_str(arr_name),
            elem: String::from_str(elem_name),
            withs: Vec::new(),
            expr: None,
        }
    }

    /// Appends a binding to the statement's `with` block.
    pub fn with(self, with: With) -> (r: ForInBuilder)
        ensures
            r.arr == self.arr,
            r.elem == self.elem,
            r.withs@ == self.withs@.push(with),
            r.expr == self.expr,
    {
        let mut withs = self.withs;
        withs.push(with);
        ForInBuilder { arr: self.arr, elem: self.elem, withs, expr: self.expr }
    }

    /// Sets the loop body, replacing any earlier one.
    pub fn expr<T: ToQuery>(self, expr: T) -> (r: ForInBuilder)
        ensures
            r.arr == self.arr,
            r.elem == self.elem,
            r.withs == self.withs,
            r.expr == Some(Box::new(expr.node())),
    {
        ForInBuilder {
            arr: self.arr,
            elem: self.elem,
            withs: self.withs,
            expr: Some(Box::new(expr.into_expr())),
        }
    }
}

} // verus!
