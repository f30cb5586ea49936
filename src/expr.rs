//! The closed set of renderable nodes and the capability they share.
use vstd::prelude::*;

use crate::field::Field;
use crate::filter::Filter;
use crate::forin::ForInBuilder;
use crate::group::GroupBuilder;
use crate::insert::{InsertBuilder, OnConflict};
use crate::order_by::OrderBy;
use crate::render::{complete, pieces};
use crate::select::SelectBuilder;
use crate::text::{payloads, text_of, Context};
use crate::update::UpdateBuilder;
use crate::value::Value;
use crate::with::With;

verus! {

/// Any node that renders to query text; a sub-expression slot holds one.
#[derive(Debug)]
pub enum Expr {
    Raw(Raw),
    Select(SelectBuilder),
    Insert(InsertBuilder),
    Update(UpdateBuilder),
    ForIn(ForInBuilder),
    Group(GroupBuilder),
    Filter(Filter),
    With(With),
    OrderBy(OrderBy),
    Field(Field),
    OnConflict(OnConflict),
}

/// What an assignment or a binding holds: a bound value, or a sub-expression
/// rendered in parentheses.
#[derive(Debug)]
pub enum ArgOrExpr {
    Arg(Value),
    Expr(Box<Expr>),
}

/// Trusted text, written out as it is after the indent; it binds nothing.
#[derive(Debug)]
pub struct Raw {
    pub text: String,
}

/// A `Raw` node holding `text`.
pub fn raw(text: &str) -> (r: Raw)
    ensures
        r.text@ == text@,
{
    Raw::new(text)
}

impl Raw {
    pub fn new(text: &str) -> (r: Raw)
        ensures
            r.text@ == text@,
    {
        Raw { text: String::from_str(text) }
    }
}

/// A backlink path, `target.<property[is is]`.
pub fn backlink(target: &str, property: &str, is: &str) -> (r: String)
    ensures
        r@ == target@ + ".<"@ + property@ + "[is "@ + is@ + "]"@,
{
    let mut r = String::from_str(target);
    r.append(".<");
    r.append(property);
    r.append("[is ");
    r.append(is);
    r.append("]");
    r
}

/// A type that knows the name it has in the database schema.
pub trait TypeName {
    fn schema_name() -> &'static str;
}

/// A node that can be rendered on its own or placed into a sub-expression slot.
pub trait ToQuery: Sized {
    /// This node seen as an expression.
    spec fn node(&self) -> Expr;

    fn into_expr(self) -> (r: Expr)
        ensures
            r == self.node(),
    ;

    /// Renders the node at `indent`, binding its values into `ctx` after those
    /// already there. Every binding must hold something and every loop a body
    /// (`Expr::is_complete` tests this); the node is consumed, so it renders once.
    fn to_query_with_indent(self, ctx: &mut Context, indent: usize) -> (r: String)
        requires
            complete(self.node()),
        ensures
            r@ == text_of(pieces(self.node(), indent as nat), old(ctx)@.len()),
            final(ctx)@ == old(ctx)@ + payloads(pieces(self.node(), indent as nat)),
    {
        let e = self.into_expr();
        e.render_text(ctx, indent)
    }

    /// Renders the node at indent 0 with a fresh context: the query text and
    /// its parameters.
    fn to_query(self) -> (r: (String, Context))
        requires
            complete(self.node()),
        ensures
            r.0@ == text_of(pieces(self.node(), 0), 0),
            r.1@ == payloads(pieces(self.node(), 0)),
    {
        let mut ctx = Context::new();
        let e = self.into_expr();
        let q = e.render_text(&mut ctx, 0);
        assert(ctx@ =~= payloads(pieces(self.node(), 0)));
        (q, ctx)
    }
}

impl ToQuery for Expr {
    open spec fn node(&self) -> Expr {
        *self
    }

    fn into_expr(self) -> (r: Expr) {
        self
    }
}

impl ToQuery for Raw {
    open spec fn node(&self) -> Expr {
        Expr::Raw(*self)
    }

    fn into_expr(self) -> (r: Expr) {
        Expr::Raw(self)
    }
}

impl ToQuery for SelectBuilder {
    open spec fn node(&self) -> Expr {
        Expr::Select(*self)
    }

    fn into_expr(self) -> (r: Expr) {
        Expr::Select(self)
    }
}

impl ToQuery for InsertBuilder {
    open spec fn node(&self) -> Expr {
        Expr::Insert(*self)
    }

    fn into_expr(self) -> (r: Expr) {
        Expr::Insert(self)
    }
}

impl ToQuery for UpdateBuilder {
    open spec fn node(&self) -> Expr {
        Expr::Update(*self)
    }

    fn into_expr(self) -> (r: Expr) {
        Expr::Update(self)
    }
}

impl ToQuery for ForInBuilder {
    open spec fn node(&self) -> Expr {
        Expr::ForIn(*self)
    }

    fn into_expr(self) -> (r: Expr) {
        Expr::ForIn(self)
    }
}

impl ToQuery for GroupBuilder {
    open spec fn node(&self) -> Expr {
        Expr::Group(*self)
    }

    fn into_expr(self) -> (r: Expr) {
        Expr::Group(self)
    }
}

impl ToQuery for Filter {
    open spec fn node(&self) -> Expr {
        Expr::Filter(*self)
    }

    fn into_expr(self) -> (r: Expr) {
        Expr::Filter(self)
    }
}

impl ToQuery for With {
    open spec fn node(&self) -> Expr {
        Expr::With(*self)
    }

    fn into_expr(self) -> (r: Expr) {
        Expr::With(self)
    }
}

impl ToQuery for OrderBy {
    open spec fn node(&self) -> Expr {
        Expr::OrderBy(*self)
    }

    fn into_expr(self) -> (r: Expr) {
        Expr::OrderBy(self)
    }
}

impl ToQuery for Field {
    open spec fn node(&self) -> Expr {
        Expr::Field(*self)
    }

    fn into_expr(self) -> (r: Expr) {
        Expr::Field(self)
    }
}

impl ToQuery for OnConflict {
    open spec fn node(&self) -> Expr {
        Expr::OnConflict(*self)
    }

    fn into_expr(self) -> (r: Expr) {
        Expr::OnConflict(self)
    }
}

} // verus!
