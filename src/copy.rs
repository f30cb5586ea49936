//! Deep copies of statement trees: a copy renders the same text, binds the
//! same values and can be rendered exactly when the original can.
use vstd::prelude::*;

use crate::expr::{ArgOrExpr, Expr, Raw};
use crate::field::{Field, FieldType};
use crate::filter::{AndOr, Condition, Filter, Operand};
use crate::forin::ForInBuilder;
use crate::group::GroupBuilder;
use crate::insert::{InsertBuilder, OnConflict};
use crate::order_by::OrderBy;
use crate::render::{
    complete, complete_field, complete_fields, complete_values, complete_with, complete_withs,
    pieces, pieces_assigned, pieces_assignments, pieces_children, pieces_field, pieces_filter,
    pieces_operand, pieces_ops, pieces_shape, pieces_with, pieces_withs,
};
use crate::select::SelectBuilder;
use crate::text::Piece;
use crate::update::UpdateBuilder;
use crate::value::Value;
use crate::with::With;

verus! {

impl Clone for Value {
    fn clone(&self) -> (r: Value)
        ensures
            r == *self,
    {
        Value { inner: self.inner.clone(), kind: self.kind.clone() }
    }
}

impl Clone for Condition {
    fn clone(&self) -> (r: Condition)
        ensures
            r == *self,
    {
        Condition { before: self.before.clone(), arg: self.arg.clone(), after: self.after.clone() }
    }
}

impl Clone for OrderBy {
    fn clone(&self) -> (r: OrderBy)
        ensures
            r == *self,
    {
        OrderBy { by: self.by.clone(), direction: self.direction }
    }
}

impl Clone for Raw {
    fn clone(&self) -> (r: Raw)
        ensures
            r == *self,
    {
        Raw { text: self.text.clone() }
    }
}

fn copy_strings(v: &Vec<String>) -> (r: Vec<String>)
    ensures
        r@ == v@,
{
    let mut r: Vec<String> = Vec::new();
    let mut k: usize = 0;
    while k < v.len()
        invariant
            k <= v@.len(),
            r@ == v@.take(k as int),
        decreases v@.len() - k,
    {
        r.push(v[k].clone());
        k = k + 1;
        assert(r@ =~= v@.take(k as int));
    }
    assert(v@.take(k as int) =~= v@);
    r
}

fn copy_orders(v: &Vec<OrderBy>) -> (r: Vec<OrderBy>)
    ensures
        r@ == v@,
{
    let mut r: Vec<OrderBy> = Vec::new();
    let mut k: usize = 0;
    while k < v.len()
        invariant
            k <= v@.len(),
            r@ == v@.take(k as int),
        decreases v@.len() - k,
    {
        r.push(v[k].clone());
        k = k + 1;
        assert(r@ =~= v@.take(k as int));
    }
    assert(v@.take(k as int) =~= v@);
    r
}

impl Clone for GroupBuilder {
    fn clone(&self) -> (r: GroupBuilder)
        ensures
            r.target == self.target,
            r.fields == self.fields,
            r.by@ == self.by@,
            r.using@ == self.using@,
    {
        GroupBuilder {
            target: self.target.clone(),
            fields: self.fields.clone(),
            by: copy_strings(&self.by),
            using: copy_strings(&self.using),
        }
    }
}

/// `a` renders as `b` at every indent, and can be rendered exactly when `b` can.
pub open spec fn same_expr(a: Expr, b: Expr) -> bool {
    &&& forall|i: nat| #[trigger] pieces(a, i) == pieces(b, i)
    &&& complete(a) == complete(b)
}

pub open spec fn same_field(a: Field, b: Field) -> bool {
    &&& forall|i: nat| #[trigger] pieces_field(a, i) == pieces_field(b, i)
    &&& complete_field(a) == complete_field(b)
}

pub open spec fn same_fields(a: Seq<Field>, b: Seq<Field>) -> bool {
    &&& a.len() == b.len()
    &&& forall|k: int| 0 <= k < a.len() ==> same_field(#[trigger] a[k], b[k])
}

pub open spec fn same_filter(a: Filter, b: Filter) -> bool {
    &&& forall|i: nat, w: bool| #[trigger] pieces_filter(a, i, w) == pieces_filter(b, i, w)
    &&& a.qs@.len() == b.qs@.len()
}

pub open spec fn same_operand(a: (AndOr, Operand), b: (AndOr, Operand)) -> bool {
    &&& a.0 == b.0
    &&& forall|first: bool, j: AndOr, i: nat, w: bool| #[trigger]
        pieces_operand(a.1, first, j, i, w) == pieces_operand(b.1, first, j, i, w)
}

pub open spec fn same_ops(a: Seq<(AndOr, Operand)>, b: Seq<(AndOr, Operand)>) -> bool {
    &&& a.len() == b.len()
    &&& forall|k: int| 0 <= k < a.len() ==> same_operand(#[trigger] a[k], b[k])
}

pub open spec fn same_with(a: With, b: With) -> bool {
    &&& forall|i: nat| #[trigger] pieces_with(a, i) == pieces_with(b, i)
    &&& complete_with(a) == complete_with(b)
}

pub open spec fn same_withs(a: Seq<With>, b: Seq<With>) -> bool {
    &&& a.len() == b.len()
    &&& forall|k: int| 0 <= k < a.len() ==> same_with(#[trigger] a[k], b[k])
}

pub open spec fn arg_complete(a: ArgOrExpr) -> bool {
    match a {
        ArgOrExpr::Arg(_) => true,
        ArgOrExpr::Expr(x) => complete(*x),
    }
}

pub open spec fn same_arg(a: ArgOrExpr, b: ArgOrExpr) -> bool {
    &&& forall|i: nat| #[trigger] pieces_assigned(a, i) == pieces_assigned(b, i)
    &&& arg_complete(a) == arg_complete(b)
}

pub open spec fn same_values(a: Seq<(String, ArgOrExpr)>, b: Seq<(String, ArgOrExpr)>) -> bool {
    &&& a.len() == b.len()
    &&& forall|k: int|
        0 <= k < a.len() ==> (#[trigger] a[k]).0 == b[k].0 && same_arg(a[k].1, b[k].1)
}

proof fn lemma_same_fields(a: Seq<Field>, b: Seq<Field>)
    requires
        same_fields(a, b),
    ensures
        forall|i: nat| #[trigger] pieces_children(a, i) == pieces_children(b, i),
        forall|i: nat| #[trigger] pieces_shape(a, i) == pieces_shape(b, i),
        complete_fields(a) == complete_fields(b),
    decreases a.len(),
{
    if a.len() > 0 {
        let (a0, b0) = (a.drop_last(), b.drop_last());
        assert(same_fields(a0, b0)) by {
            assert forall|k: int| 0 <= k < a0.len() implies same_field(#[trigger] a0[k], b0[k]) by {
                assert(a0[k] == a[k] && b0[k] == b[k]);
            }
        }
        lemma_same_fields(a0, b0);
        assert(same_field(a[a.len() - 1], b[b.len() - 1]));
        assert(a.last() == a[a.len() - 1] && b.last() == b[b.len() - 1]);
        assert(a[0] == a.first() && b[0] == b.first());
        assert(same_field(a[0], b[0]));
        assert forall|i: nat| #[trigger] pieces_children(a, i) == pieces_children(b, i) by {
            assert(pieces_children(a0, i) == pieces_children(b0, i));
            assert(pieces_field(a.last(), i) == pieces_field(b.last(), i));
            assert(pieces_field(a[0], i) == pieces_field(b[0], i));
        }
        assert forall|i: nat| #[trigger] pieces_shape(a, i) == pieces_shape(b, i) by {
            assert(pieces_shape(a0, i) == pieces_shape(b0, i));
            assert(pieces_field(a.last(), i) == pieces_field(b.last(), i));
        }
    }
}

proof fn lemma_same_ops(a: Seq<(AndOr, Operand)>, b: Seq<(AndOr, Operand)>)
    requires
        same_ops(a, b),
    ensures
        forall|i: nat, w: bool| #[trigger] pieces_ops(a, i, w) == pieces_ops(b, i, w),
    decreases a.len(),
{
    if a.len() > 0 {
        let (a0, b0) = (a.drop_last(), b.drop_last());
        assert(same_ops(a0, b0)) by {
            assert forall|k: int| 0 <= k < a0.len() implies same_operand(#[trigger] a0[k], b0[k]) by {
                assert(a0[k] == a[k] && b0[k] == b[k]);
            }
        }
        lemma_same_ops(a0, b0);
        assert(a.last() == a[a.len() - 1] && b.last() == b[b.len() - 1]);
        assert(same_operand(a[a.len() - 1], b[b.len() - 1]));
        assert forall|i: nat, w: bool| #[trigger] pieces_ops(a, i, w) == pieces_ops(b, i, w) by {
            assert(pieces_ops(a0, i, w) == pieces_ops(b0, i, w));
            assert(pieces_operand(a.last().1, a.len() == 1, a.last().0, i, w) == pieces_operand(
                b.last().1,
                a.len() == 1,
                a.last().0,
                i,
                w,
            ));
        }
    }
}

proof fn lemma_same_withs(a: Seq<With>, b: Seq<With>)
    requires
        same_withs(a, b),
    ensures
        forall|i: nat| #[trigger] pieces_withs(a, i) == pieces_withs(b, i),
        complete_withs(a) == complete_withs(b),
    decreases a.len(),
{
    if a.len() > 0 {
        let (a0, b0) = (a.drop_last(), b.drop_last());
        assert(same_withs(a0, b0)) by {
            assert forall|k: int| 0 <= k < a0.len() implies same_with(#[trigger] a0[k], b0[k]) by {
                assert(a0[k] == a[k] && b0[k] == b[k]);
            }
        }
        lemma_same_withs(a0, b0);
        assert(a.last() == a[a.len() - 1] && b.last() == b[b.len() - 1]);
        assert(same_with(a[a.len() - 1], b[b.len() - 1]));
        assert(same_with(a[0], b[0]));
        assert forall|i: nat| #[trigger] pieces_withs(a, i) == pieces_withs(b, i) by {
            assert(pieces_withs(a0, i) == pieces_withs(b0, i));
            assert(pieces_with(a.last(), crate::text::nest(i)) == pieces_with(
                b.last(),
                crate::text::nest(i),
            ));
            assert(pieces_with(a[0], crate::text::nest(i)) == pieces_with(
                b[0],
                crate::text::nest(i),
            ));
        }
    }
}

proof fn lemma_same_values(a: Seq<(String, ArgOrExpr)>, b: Seq<(String, ArgOrExpr)>)
    requires
        same_values(a, b),
    ensures
        forall|i: nat| #[trigger] pieces_assignments(a, i) == pieces_assignments(b, i),
        complete_values(a) == complete_values(b),
    decreases a.len(),
{
    if a.len() > 0 {
        let (a0, b0) = (a.drop_last(), b.drop_last());
        assert(same_values(a0, b0)) by {
            assert forall|k: int| 0 <= k < a0.len() implies (#[trigger] a0[k]).0 == b0[k].0
                && same_arg(a0[k].1, b0[k].1) by {
                assert(a0[k] == a[k] && b0[k] == b[k]);
            }
        }
        lemma_same_values(a0, b0);
        assert(a.last() == a[a.len() - 1] && b.last() == b[b.len() - 1]);
        assert(same_arg(a.last().1, b.last().1));
        assert forall|i: nat| #[trigger] pieces_assignments(a, i) == pieces_assignments(b, i) by {
            assert(pieces_assignments(a0, i) == pieces_assignments(b0, i));
            assert(pieces_assigned(a.last().1, i) == pieces_assigned(b.last().1, i));
        }
    }
}

fn copy_expr(e: &Expr) -> (r: Expr)
    ensures
        same_expr(r, *e),
    decreases e,
{
    match e {
        Expr::Raw(x) => Expr::Raw(x.clone()),
        Expr::Select(s) => {
            let r = Expr::Select(copy_select(s));
            assert forall|i: nat| #[trigger] pieces(r, i) == pieces(*e, i) by {
                assert(crate::render::pieces_select(r->Select_0, i) == crate::render::pieces_select(*s, i));
            }
            r
        },
        Expr::Insert(s) => {
            let r = Expr::Insert(copy_insert(s));
            assert forall|i: nat| #[trigger] pieces(r, i) == pieces(*e, i) by {
                assert(crate::render::pieces_insert(r->Insert_0, i) == crate::render::pieces_insert(*s, i));
            }
            r
        },
        Expr::Update(s) => {
            let r = Expr::Update(copy_update(s));
            assert forall|i: nat| #[trigger] pieces(r, i) == pieces(*e, i) by {
                assert(crate::render::pieces_update(r->Update_0, i) == crate::render::pieces_update(*s, i));
            }
            r
        },
        Expr::ForIn(s) => {
            let r = Expr::ForIn(copy_forin(s));
            assert forall|i: nat| #[trigger] pieces(r, i) == pieces(*e, i) by {
                assert(crate::render::pieces_forin(r->ForIn_0, i) == crate::render::pieces_forin(*s, i));
            }
            r
        },
        Expr::Group(g) => {
            let c = g.clone();
            let r = Expr::Group(c);
            assert forall|i: nat| #[trigger] pieces(r, i) == pieces(*e, i) by {
                assert(crate::value::string_views(c.using@) == crate::value::string_views(g.using@));
                assert(crate::value::string_views(c.by@) == crate::value::string_views(g.by@));
            }
            r
        },
        Expr::Filter(f) => {
            let r = Expr::Filter(copy_filter(f));
            assert forall|i: nat| #[trigger] pieces(r, i) == pieces(*e, i) by {
                assert(pieces_filter(r->Filter_0, i, false) == pieces_filter(*f, i, false));
            }
            r
        },
        Expr::With(w) => {
            let r = Expr::With(copy_with(w));
            assert forall|i: nat| #[trigger] pieces(r, i) == pieces(*e, i) by {
                assert(pieces_with(r->With_0, i) == pieces_with(*w, i));
            }
            r
        },
        Expr::OrderBy(o) => Expr::OrderBy(o.clone()),
        Expr::Field(f) => {
            let r = Expr::Field(copy_field(f));
            assert forall|i: nat| #[trigger] pieces(r, i) == pieces(*e, i) by {
                assert(pieces_field(r->Field_0, i) == pieces_field(*f, i));
            }
            r
        },
        Expr::OnConflict(c) => {
            let r = Expr::OnConflict(copy_on_conflict(c));
            assert forall|i: nat| #[trigger] pieces(r, i) == pieces(*e, i) by {
                assert(crate::render::pieces_on_conflict(r->OnConflict_0, i)
                    == crate::render::pieces_on_conflict(*c, i));
            }
            r
        },
    }
}

fn copy_name(n: &Option<String>) -> (r: Option<String>)
    ensures
        r == *n,
{
    match n {
        Some(x) => Some(x.clone()),
        None => None,
    }
}

fn copy_boxed(e: &Option<Box<Expr>>) -> (r: Option<Box<Expr>>)
    ensures
        r is Some == e is Some,
        r is Some ==> same_expr(*r->Some_0, *e->Some_0),
    decreases e,
{
    match e {
        Some(x) => Some(Box::new(copy_expr(x))),
        None => None,
    }
}

fn copy_arg(a: &ArgOrExpr) -> (r: ArgOrExpr)
    ensures
        same_arg(r, *a),
    decreases a,
{
    match a {
        ArgOrExpr::Arg(v) => ArgOrExpr::Arg(v.clone()),
        ArgOrExpr::Expr(x) => {
            let c = copy_expr(x);
            let r = ArgOrExpr::Expr(Box::new(c));
            assert forall|i: nat| #[trigger] pieces_assigned(r, i) == pieces_assigned(*a, i) by {
                assert(pieces(c, crate::text::nest(crate::text::nest(i))) == pieces(
                    **x,
                    crate::text::nest(crate::text::nest(i)),
                ));
            }
            r
        },
    }
}

fn copy_field(f: &Field) -> (r: Field)
    ensures
        same_field(r, *f),
    decreases f,
{
    let name = copy_name(&f.name);
    match &f.fields {
        FieldType::Expr(x) => {
            let c = copy_expr(x);
            let r = Field { name, fields: FieldType::Expr(Box::new(c)) };
            assert forall|i: nat| #[trigger] pieces_field(r, i) == pieces_field(*f, i) by {
                assert(pieces(c, crate::text::nest(i)) == pieces(**x, crate::text::nest(i)));
            }
            r
        },
        FieldType::Field(v) => {
            let c = copy_fields(v);
            proof {
                lemma_same_fields(c@, v@);
            }
            let r = Field { name, fields: FieldType::Field(c) };
            assert forall|i: nat| #[trigger] pieces_field(r, i) == pieces_field(*f, i) by {
                assert(pieces_children(c@, crate::text::nest(i)) == pieces_children(
                    v@,
                    crate::text::nest(i),
                ));
            }
            r
        },
        FieldType::SingleSplat => Field { name, fields: FieldType::SingleSplat },
        FieldType::DoubleSplat => Field { name, fields: FieldType::DoubleSplat },
    }
}

fn copy_fields(v: &Vec<Field>) -> (r: Vec<Field>)
    ensures
        same_fields(r@, v@),
    decreases v,
{
    let mut r: Vec<Field> = Vec::new();
    let mut k: usize = 0;
    while k < v.len()
        invariant
            k <= v@.len(),
            same_fields(r@, v@.take(k as int)),
        decreases v@.len() - k,
    {
        let c = copy_field(&v[k]);
        r.push(c);
        k = k + 1;
        assert(same_fields(r@, v@.take(k as int))) by {
            assert forall|j: int| 0 <= j < r@.len() implies same_field(
                #[trigger] r@[j],
                v@.take(k as int)[j],
            ) by {
                if j < k - 1 {
                    assert(v@.take(k as int)[j] == v@.take(k - 1)[j]);
                }
            }
        }
    }
    assert(v@.take(k as int) =~= v@);
    r
}

fn copy_filter(f: &Filter) -> (r: Filter)
    ensures
        same_filter(r, *f),
    decreases f,
{
    let func = copy_name(&f.func);
    let qs = copy_ops(&f.qs);
    proof {
        lemma_same_ops(qs@, f.qs@);
    }
    let r = Filter { not: f.not, func, qs };
    assert forall|i: nat, w: bool| #[trigger] pieces_filter(r, i, w) == pieces_filter(*f, i, w) by {
        assert(pieces_ops(qs@, i, w) == pieces_ops(f.qs@, i, w));
    }
    r
}

fn copy_operand(op: &Operand) -> (r: Operand)
    ensures
        forall|first: bool, j: AndOr, i: nat, w: bool| #[trigger]
            pieces_operand(r, first, j, i, w) == pieces_operand(*op, first, j, i, w),
    decreases op,
{
    match op {
        Operand::Leaf(c) => Operand::Leaf(c.clone()),
        Operand::Nested(g) => {
            let c = copy_filter(g);
            let r = Operand::Nested(c);
            assert forall|first: bool, j: AndOr, i: nat, w: bool| #[trigger]
                pieces_operand(r, first, j, i, w) == pieces_operand(*op, first, j, i, w) by {
                assert(pieces_filter(c, i, true) == pieces_filter(*g, i, true));
            }
            r
        },
    }
}

fn copy_ops(v: &Vec<(AndOr, Operand)>) -> (r: Vec<(AndOr, Operand)>)
    ensures
        same_ops(r@, v@),
    decreases v,
{
    let mut r: Vec<(AndOr, Operand)> = Vec::new();
    let mut k: usize = 0;
    while k < v.len()
        invariant
            k <= v@.len(),
            same_ops(r@, v@.take(k as int)),
        decreases v@.len() - k,
    {
        let op = copy_operand(&v[k].1);
        r.push((v[k].0, op));
        k = k + 1;
        assert(same_ops(r@, v@.take(k as int))) by {
            assert forall|j: int| 0 <= j < r@.len() implies same_operand(
                #[trigger] r@[j],
                v@.take(k as int)[j],
            ) by {
                if j < k - 1 {
                    assert(v@.take(k as int)[j] == v@.take(k - 1)[j]);
                }
            }
        }
    }
    assert(v@.take(k as int) =~= v@);
    r
}

fn copy_with(w: &With) -> (r: With)
    ensures
        same_with(r, *w),
    decreases w,
{
    let name = w.name.clone();
    match &w.x {
        Some(ArgOrExpr::Arg(v)) => With { name, x: Some(ArgOrExpr::Arg(v.clone())) },
        Some(ArgOrExpr::Expr(x)) => {
            let c = copy_expr(x);
            let r = With { name, x: Some(ArgOrExpr::Expr(Box::new(c))) };
            assert forall|i: nat| #[trigger] pieces_with(r, i) == pieces_with(*w, i) by {
                assert(pieces(c, crate::text::nest(i)) == pieces(**x, crate::text::nest(i)));
            }
            r
        },
        None => With { name, x: None },
    }
}

fn copy_withs(v: &Vec<With>) -> (r: Vec<With>)
    ensures
        same_withs(r@, v@),
    decreases v,
{
    let mut r: Vec<With> = Vec::new();
    let mut k: usize = 0;
    while k < v.len()
        invariant
            k <= v@.len(),
            same_withs(r@, v@.take(k as int)),
        decreases v@.len() - k,
    {
        let c = copy_with(&v[k]);
        r.push(c);
        k = k + 1;
        assert(same_withs(r@, v@.take(k as int))) by {
            assert forall|j: int| 0 <= j < r@.len() implies same_with(
                #[trigger] r@[j],
                v@.take(k as int)[j],
            ) by {
                if j < k - 1 {
                    assert(v@.take(k as int)[j] == v@.take(k - 1)[j]);
                }
            }
        }
    }
    assert(v@.take(k as int) =~= v@);
    r
}

fn copy_values(v: &Vec<(String, ArgOrExpr)>) -> (r: Vec<(String, ArgOrExpr)>)
    ensures
        same_values(r@, v@),
    decreases v,
{
    let mut r: Vec<(String, ArgOrExpr)> = Vec::new();
    let mut k: usize = 0;
    while k < v.len()
        invariant
            k <= v@.len(),
            same_values(r@, v@.take(k as int)),
        decreases v@.len() - k,
    {
        let a = copy_arg(&v[k].1);
        r.push((v[k].0.clone(), a));
        k = k + 1;
        assert(same_values(r@, v@.take(k as int))) by {
            assert forall|j: int| 0 <= j < r@.len() implies (#[trigger] r@[j]).0 == v@.take(
                k as int,
            )[j].0 && same_arg(r@[j].1, v@.take(k as int)[j].1) by {
                if j < k - 1 {
                    assert(v@.take(k as int)[j] == v@.take(k - 1)[j]);
                }
            }
        }
    }
    assert(v@.take(k as int) =~= v@);
    r
}

fn copy_filter_opt(f: &Option<Filter>) -> (r: Option<Filter>)
    ensures
        r is Some == f is Some,
        r is Some ==> same_filter(r->Some_0, f->Some_0),
    decreases f,
{
    match f {
        Some(g) => Some(copy_filter(g)),
        None => None,
    }
}

proof fn lemma_same_filter_clause(a: Option<Filter>, b: Option<Filter>, i: nat)
    requires
        a is Some == b is Some,
        a is Some ==> same_filter(a->Some_0, b->Some_0),
    ensures
        crate::render::pieces_filter_clause(a, i) == crate::render::pieces_filter_clause(b, i),
        crate::render::select_filter(a, i) == crate::render::select_filter(b, i),
{
    if a is Some {
        assert(pieces_filter(a->Some_0, i, false) == pieces_filter(b->Some_0, i, false));
    }
}

fn copy_select(s: &SelectBuilder) -> (r: SelectBuilder)
    ensures
        forall|i: nat| #[trigger]
            crate::render::pieces_select(r, i) == crate::render::pieces_select(*s, i),
        crate::render::complete_select(r) == crate::render::complete_select(*s),
    decreases s,
{
    let fields = copy_fields(&s.fields);
    let withs = copy_withs(&s.withs);
    let filter = copy_filter_opt(&s.filter);
    let expr = copy_boxed(&s.expr);
    let r = SelectBuilder {
        target: s.target.clone(),
        fields,
        withs,
        filter,
        skip: s.skip,
        take: s.take,
        orders: copy_orders(&s.orders),
        distinct: s.distinct,
        expr,
    };
    proof {
        lemma_same_fields(fields@, s.fields@);
        lemma_same_withs(withs@, s.withs@);
        assert forall|i: nat| #[trigger]
            crate::render::pieces_select(r, i) == crate::render::pieces_select(*s, i) by {
            crate::render::lemma_select_parts(r, i);
            crate::render::lemma_select_parts(*s, i);
            lemma_same_filter_clause(r.filter, s.filter, i);
            assert(pieces_withs(withs@, i) == pieces_withs(s.withs@, i));
            assert(pieces_shape(fields@, crate::text::nest(i)) == pieces_shape(
                s.fields@,
                crate::text::nest(i),
            ));
            if expr is Some {
                assert(pieces(*expr->Some_0, crate::text::nest(i)) == pieces(
                    *s.expr->Some_0,
                    crate::text::nest(i),
                ));
            }
            assert(crate::render::select_body(r.expr, r.fields@, i) == crate::render::select_body(
                s.expr,
                s.fields@,
                i,
            ));
        }
    }
    r
}

fn copy_on_conflict(c: &OnConflict) -> (r: OnConflict)
    ensures
        forall|i: nat| #[trigger]
            crate::render::pieces_on_conflict(r, i) == crate::render::pieces_on_conflict(*c, i),
        crate::render::complete_on_conflict(r) == crate::render::complete_on_conflict(*c),
    decreases c,
{
    let else_expr = copy_boxed(&c.else_expr);
    let r = OnConflict { field: copy_name(&c.field), else_expr };
    assert forall|i: nat| #[trigger]
        crate::render::pieces_on_conflict(r, i) == crate::render::pieces_on_conflict(*c, i) by {
        if else_expr is Some {
            assert(pieces(*else_expr->Some_0, crate::text::nest(i)) == pieces(
                *c.else_expr->Some_0,
                crate::text::nest(i),
            ));
        }
    }
    r
}

fn copy_insert(s: &InsertBuilder) -> (r: InsertBuilder)
    ensures
        forall|i: nat| #[trigger]
            crate::render::pieces_insert(r, i) == crate::render::pieces_insert(*s, i),
        crate::render::complete_insert(r) == crate::render::complete_insert(*s),
    decreases s,
{
    let withs = copy_withs(&s.withs);
    let values = copy_values(&s.values);
    let on_conflict = match &s.on_conflict {
        Some(c) => Some(copy_on_conflict(c)),
        None => None,
    };
    let r = InsertBuilder { target: s.target.clone(), withs, values, on_conflict };
    proof {
        lemma_same_withs(withs@, s.withs@);
        lemma_same_values(values@, s.values@);
        assert forall|i: nat| #[trigger]
            crate::render::pieces_insert(r, i) == crate::render::pieces_insert(*s, i) by {
            assert(pieces_withs(withs@, i) == pieces_withs(s.withs@, i));
            assert(pieces_assignments(values@, i) == pieces_assignments(s.values@, i));
            if on_conflict is Some {
                assert(crate::render::pieces_on_conflict(on_conflict->Some_0, i)
                    == crate::render::pieces_on_conflict(s.on_conflict->Some_0, i));
            }
        }
    }
    r
}

fn copy_update(s: &UpdateBuilder) -> (r: UpdateBuilder)
    ensures
        forall|i: nat| #[trigger]
            crate::render::pieces_update(r, i) == crate::render::pieces_update(*s, i),
        complete_withs(r.withs@) == complete_withs(s.withs@),
        complete_values(r.values@) == complete_values(s.values@),
    decreases s,
{
    let withs = copy_withs(&s.withs);
    let values = copy_values(&s.values);
    let filter = copy_filter_opt(&s.filter);
    let r = UpdateBuilder { target: s.target.clone(), withs, filter, values };
    proof {
        lemma_same_withs(withs@, s.withs@);
        lemma_same_values(values@, s.values@);
        assert forall|i: nat| #[trigger]
            crate::render::pieces_update(r, i) == crate::render::pieces_update(*s, i) by {
            assert(pieces_withs(withs@, i) == pieces_withs(s.withs@, i));
            assert(pieces_assignments(values@, i) == pieces_assignments(s.values@, i));
            lemma_same_filter_clause(filter, s.filter, i);
        }
    }
    r
}

fn copy_forin(s: &ForInBuilder) -> (r: ForInBuilder)
    ensures
        forall|i: nat| #[trigger]
            crate::render::pieces_forin(r, i) == crate::render::pieces_forin(*s, i),
        complete(Expr::ForIn(r)) == complete(Expr::ForIn(*s)),
    decreases s,
{
    let withs = copy_withs(&s.withs);
    let expr = copy_boxed(&s.expr);
    let r = ForInBuilder { arr: s.arr.clone(), elem: s.elem.clone(), withs, expr };
    proof {
        lemma_same_withs(withs@, s.withs@);
        assert forall|i: nat| #[trigger]
            crate::render::pieces_forin(r, i) == crate::render::pieces_forin(*s, i) by {
            assert(pieces_withs(withs@, i) == pieces_withs(s.withs@, i));
            if expr is Some {
                assert(pieces(*expr->Some_0, crate::text::nest(i)) == pieces(
                    *s.expr->Some_0,
                    crate::text::nest(i),
                ));
            }
        }
    }
    r
}

impl Clone for Expr {
    fn clone(&self) -> (r: Expr)
        ensures
            same_expr(r, *self),
    {
        copy_expr(self)
    }
}

impl Clone for ArgOrExpr {
    fn clone(&self) -> (r: ArgOrExpr)
        ensures
            same_arg(r, *self),
    {
        copy_arg(self)
    }
}

impl Clone for Field {
    fn clone(&self) -> (r: Field)
        ensures
            same_field(r, *self),
    {
        copy_field(self)
    }
}

impl Clone for Filter {
    fn clone(&self) -> (r: Filter)
        ensures
            same_filter(r, *self),
    {
        copy_filter(self)
    }
}

impl Clone for With {
    fn clone(&self) -> (r: With)
        ensures
            same_with(r, *self),
    {
        copy_with(self)
    }
}

impl Clone for SelectBuilder {
    fn clone(&self) -> (r: SelectBuilder)
        ensures
            same_expr(Expr::Select(r), Expr::Select(*self)),
    {
        let r = copy_select(self);
        assert forall|i: nat| #[trigger] pieces(Expr::Select(r), i) == pieces(Expr::Select(*self), i) by {
            assert(crate::render::pieces_select(r, i) == crate::render::pieces_select(*self, i));
        }
        r
    }
}

impl Clone for InsertBuilder {
    fn clone(&self) -> (r: InsertBuilder)
        ensures
            same_expr(Expr::Insert(r), Expr::Insert(*self)),
    {
        let r = copy_insert(self);
        assert forall|i: nat| #[trigger] pieces(Expr::Insert(r), i) == pieces(Expr::Insert(*self), i) by {
            assert(crate::render::pieces_insert(r, i) == crate::render::pieces_insert(*self, i));
        }
        r
    }
}

impl Clone for UpdateBuilder {
    fn clone(&self) -> (r: UpdateBuilder)
        ensures
            same_expr(Expr::Update(r), Expr::Update(*self)),
    {
        let r = copy_update(self);
        assert forall|i: nat| #[trigger] pieces(Expr::Update(r), i) == pieces(Expr::Update(*self), i) by {
            assert(crate::render::pieces_update(r, i) == crate::render::pieces_update(*self, i));
        }
        r
    }
}

impl Clone for ForInBuilder {
    fn clone(&self) -> (r: ForInBuilder)
        ensures
            same_expr(Expr::ForIn(r), Expr::ForIn(*self)),
    {
        let r = copy_forin(self);
        assert forall|i: nat| #[trigger] pieces(Expr::ForIn(r), i) == pieces(Expr::ForIn(*self), i) by {
            assert(crate::render::pieces_forin(r, i) == crate::render::pieces_forin(*self, i));
        }
        r
    }
}

impl Clone for OnConflict {
    fn clone(&self) -> (r: OnConflict)
        ensures
            same_expr(Expr::OnConflict(r), Expr::OnConflict(*self)),
    {
        let r = copy_on_conflict(self);
        assert forall|i: nat| #[trigger]
            pieces(Expr::OnConflict(r), i) == pieces(Expr::OnConflict(*self), i) by {
            assert(crate::render::pieces_on_conflict(r, i) == crate::render::pieces_on_conflict(
                *self,
                i,
            ));
        }
        r
    }
}

} // verus!
