//! What each node renders to, as pieces, and the renderer proved to write
//! exactly that text while binding exactly those values.
use vstd::prelude::*;

use crate::expr::{ArgOrExpr, Expr, Raw};
use crate::field::{Field, FieldType};
use crate::filter::{and_or_text, AndOr, Filter, Operand};
use crate::forin::ForInBuilder;
use crate::group::GroupBuilder;
use crate::insert::{InsertBuilder, OnConflict};
use crate::order_by::{direction_text, OrderBy};
use crate::select::SelectBuilder;
use crate::text::{
    deeper, lemma_concat, lemma_empty, lemma_slot_piece, lemma_text_piece, nest, payloads, push_indent, push_line, spaces, text_of, Context, Piece,
};
use crate::filter::Condition;

use edgedb_protocol::value::Value as Payload;
use crate::update::UpdateBuilder;
use crate::value::{int32_payload, int32_value, join, push_joined, string_views, Value};
use crate::with::With;

verus! {

/// Literal text.
pub open spec fn lit(s: Seq<char>) -> Seq<Piece> {
    seq![Piece::Text(s)]
}

/// `s` after `indent` spaces.
pub open spec fn line(indent: nat, s: Seq<char>) -> Seq<Piece> {
    lit(spaces(indent) + s)
}

/// A slot binding `v`.
pub open spec fn slot(v: Value) -> Seq<Piece> {
    seq![Piece::Slot(v.kind@, v.inner)]
}

/// The slot of a row count, bound as an `int32`.
pub open spec fn count_slot(n: usize) -> Seq<Piece> {
    seq![Piece::Slot("int32"@, int32_payload(n as i32))]
}

/// What `e` renders to at `indent`.
pub open spec fn pieces(e: Expr, indent: nat) -> Seq<Piece>
    decreases e,
{
    match e {
        Expr::Raw(r) => line(indent, r.text@),
        Expr::Select(s) => pieces_select(s, indent),
        Expr::Insert(s) => pieces_insert(s, indent),
        Expr::Update(s) => pieces_update(s, indent),
        Expr::ForIn(s) => pieces_forin(s, indent),
        Expr::Group(g) => pieces_group(g, indent),
        Expr::Filter(f) => pieces_filter(f, indent, false),
        Expr::With(w) => pieces_with(w, indent),
        Expr::OrderBy(o) => pieces_order(o, indent),
        Expr::Field(f) => pieces_field(f, indent),
        Expr::OnConflict(c) => pieces_on_conflict(c, indent),
    }
}

/// A shape entry: its name at `indent`, then what it holds.
pub open spec fn pieces_field(f: Field, indent: nat) -> Seq<Piece>
    decreases f,
{
    let head = match f.name {
        Some(n) => line(indent, n@),
        None => Seq::empty(),
    };
    head + match f.fields {
        FieldType::SingleSplat => lit("*,"@),
        FieldType::DoubleSplat => lit("**,"@),
        FieldType::Expr(e) => lit(" := (\n"@) + pieces(*e, nest(indent)) + lit("\n"@) + line(
            indent,
            ")"@,
        ),
        FieldType::Field(v) => if v@.len() > 0 {
            lit(": {\n"@) + pieces_children(v@, nest(indent)) + lit("\n"@) + line(indent, "},"@)
        } else {
            lit(","@)
        },
    }
}

/// Nested shape entries, one per line.
pub open spec fn pieces_children(fs: Seq<Field>, indent: nat) -> Seq<Piece>
    decreases fs,
{
    if fs.len() == 0 {
        Seq::empty()
    } else if fs.len() == 1 {
        pieces_field(fs[0], indent)
    } else {
        pieces_children(fs.drop_last(), indent) + lit("\n"@) + pieces_field(fs.last(), indent)
    }
}

/// The shape of a statement: each entry followed by a line break.
pub open spec fn pieces_shape(fs: Seq<Field>, indent: nat) -> Seq<Piece>
    decreases fs,
{
    if fs.len() == 0 {
        Seq::empty()
    } else {
        pieces_shape(fs.drop_last(), indent) + pieces_field(fs.last(), indent) + lit("\n"@)
    }
}

/// A predicate. `wrapped` is set where the predicate is an operand of
/// another: one parenthesis then opens before its first operand and one
/// closes after its last.
pub open spec fn pieces_filter(f: Filter, indent: nat, wrapped: bool) -> Seq<Piece>
    decreases f,
{
    let is_not = f.not is Some;
    let has_func = f.func is Some;
    (if is_not {
        line(indent, "not"@) + lit(" "@)
    } else {
        Seq::empty()
    }) + (if has_func {
        lit(f.func->Some_0@)
    } else {
        Seq::empty()
    }) + (if is_not || has_func {
        lit("(\n"@)
    } else {
        Seq::empty()
    }) + pieces_ops(f.qs@, indent, wrapped) + (if wrapped && f.qs@.len() > 0 {
        lit(")"@)
    } else {
        Seq::empty()
    }) + (if is_not || has_func {
        lit("\n"@) + line(indent, ")"@)
    } else {
        Seq::empty()
    })
}

/// The operands of a predicate in order; the joiner of the first is not written.
pub open spec fn pieces_ops(ops: Seq<(AndOr, Operand)>, indent: nat, wrapped: bool) -> Seq<
    Piece,
>
    decreases ops,
{
    if ops.len() == 0 {
        Seq::empty()
    } else {
        pieces_ops(ops.drop_last(), indent, wrapped) + pieces_operand(
            ops.last().1,
            ops.len() == 1,
            ops.last().0,
            indent,
            wrapped,
        )
    }
}

pub open spec fn pieces_operand(
    op: Operand,
    first: bool,
    joiner: AndOr,
    indent: nat,
    wrapped: bool,
) -> Seq<Piece>
    decreases op,
{
    let join = if first {
        Seq::empty()
    } else {
        lit(" "@) + lit(and_or_text(joiner)) + lit("\n"@)
    };
    join + match op {
        Operand::Leaf(c) => if first {
            (if wrapped {
                line(nest(indent), "("@)
            } else {
                lit(spaces(nest(indent)))
            }) + lit(c.before@) + slot(c.arg) + lit(c.after@)
        } else {
            line(nest(indent), c.before@) + slot(c.arg) + lit(c.after@)
        },
        Operand::Nested(g) => (if first && wrapped {
            line(nest(indent), "("@) + lit("\n"@)
        } else {
            Seq::empty()
        }) + pieces_filter(g, indent, true),
    }
}

/// A binding, `name := value` or `name := (expr)`.
pub open spec fn pieces_with(w: With, indent: nat) -> Seq<Piece>
    decreases w,
{
    line(indent, w.name@) + lit(" := "@) + match w.x {
        Some(ArgOrExpr::Arg(v)) => slot(v),
        Some(ArgOrExpr::Expr(e)) => lit("(\n"@) + pieces(*e, nest(indent)) + lit("\n"@) + line(
            indent,
            ")"@,
        ),
        None => Seq::empty(),
    }
}

/// A `with` block, each binding followed by a comma and a line break;
/// nothing where there is no binding.
pub open spec fn pieces_withs(ws: Seq<With>, indent: nat) -> Seq<Piece>
    decreases ws,
{
    if ws.len() == 0 {
        Seq::empty()
    } else if ws.len() == 1 {
        line(indent, "with"@) + lit("\n"@) + pieces_with(ws[0], nest(indent)) + lit(",\n"@)
    } else {
        pieces_withs(ws.drop_last(), indent) + pieces_with(ws.last(), nest(indent)) + lit(",\n"@)
    }
}

/// What an assignment binds: a slot, or a parenthesised sub-expression.
pub open spec fn pieces_assigned(a: ArgOrExpr, indent: nat) -> Seq<Piece>
    decreases a,
{
    match a {
        ArgOrExpr::Arg(v) => slot(v),
        ArgOrExpr::Expr(e) => lit("(\n"@) + pieces(*e, nest(nest(indent))) + lit("\n"@) + line(
            nest(indent),
            ")"@,
        ),
    }
}

/// The assignments of an object, each on a line of its own.
pub open spec fn pieces_assignments(vs: Seq<(String, ArgOrExpr)>, indent: nat) -> Seq<Piece>
    decreases vs,
{
    if vs.len() == 0 {
        Seq::empty()
    } else {
        pieces_assignments(vs.drop_last(), indent) + lit("\n"@) + line(nest(indent), vs.last().0@)
            + lit(" := "@) + pieces_assigned(vs.last().1, indent) + lit(","@)
    }
}

/// A `filter` clause; nothing where there is no filter or it has no operand.
pub open spec fn pieces_filter_clause(f: Option<Filter>, indent: nat) -> Seq<Piece>
    decreases f,
{
    match f {
        Some(g) => if g.qs@.len() > 0 {
            line(indent, "filter"@) + lit("\n"@) + pieces_filter(g, indent, false)
        } else {
            Seq::empty()
        },
        None => Seq::empty(),
    }
}

/// One ordering key, one level deeper than `indent`.
pub open spec fn pieces_order(o: OrderBy, indent: nat) -> Seq<Piece> {
    line(nest(indent), o.by@) + match o.direction {
        Some(d) => lit(" "@) + lit(direction_text(d)),
        None => Seq::empty(),
    }
}

/// An `order by` chain; nothing where there is no key.
pub open spec fn pieces_orders(os: Seq<OrderBy>, indent: nat) -> Seq<Piece>
    decreases os.len(),
{
    if os.len() == 0 {
        Seq::empty()
    } else if os.len() == 1 {
        lit("\n"@) + line(indent, "order by"@) + lit("\n"@) + pieces_order(os[0], indent)
    } else {
        pieces_orders(os.drop_last(), indent) + lit(" then"@) + lit("\n"@) + pieces_order(
            os.last(),
            indent,
        )
    }
}

pub open spec fn pieces_select(s: SelectBuilder, indent: nat) -> Seq<Piece>
    decreases s,
{
    pieces_withs(s.withs@, indent) + line(indent, "select "@) + (if s.distinct {
        lit("distinct "@)
    } else {
        Seq::empty()
    }) + lit(s.target@) + (match s.expr {
        Some(e) => lit(" (\n"@) + pieces(*e, nest(indent)) + lit("\n"@) + line(indent, ")"@),
        None => if s.fields@.len() > 0 {
            lit(" {\n"@) + pieces_shape(s.fields@, nest(indent)) + line(indent, "}"@)
        } else {
            Seq::empty()
        },
    }) + (match s.filter {
        Some(f) => if f.qs@.len() > 0 {
            lit("\n"@) + pieces_filter_clause(s.filter, indent)
        } else {
            Seq::empty()
        },
        None => Seq::empty(),
    }) + pieces_orders(s.orders@, indent) + pieces_paging(s.skip, s.take, indent)
}

/// The part of a `select` after its target: the sub-expression, or else the shape.
pub open spec fn select_body(expr: Option<Box<Expr>>, fields: Seq<Field>, indent: nat) -> Seq<
    Piece,
> {
    match expr {
        Some(e) => lit(" (\n"@) + pieces(*e, nest(indent)) + lit("\n"@) + line(indent, ")"@),
        None => if fields.len() > 0 {
            lit(" {\n"@) + pieces_shape(fields, nest(indent)) + line(indent, "}"@)
        } else {
            Seq::empty()
        },
    }
}

/// The `filter` clause of a `select`, on a line of its own.
pub open spec fn select_filter(filter: Option<Filter>, indent: nat) -> Seq<Piece> {
    match filter {
        Some(f) => if f.qs@.len() > 0 {
            lit("\n"@) + pieces_filter_clause(filter, indent)
        } else {
            Seq::empty()
        },
        None => Seq::empty(),
    }
}

/// `offset` where more than zero rows are skipped, then `limit` wherever a
/// count is taken, zero too.
pub open spec fn pieces_paging(skip: Option<usize>, take: Option<usize>, indent: nat) -> Seq<
    Piece,
> {
    (match skip {
        Some(n) => if n > 0 {
            lit("\n"@) + line(indent, "offset "@) + count_slot(n)
        } else {
            Seq::empty()
        },
        None => Seq::empty(),
    }) + (match take {
        Some(n) => lit("\n"@) + line(indent, "limit "@) + count_slot(n),
        None => Seq::empty(),
    })
}

pub open spec fn pieces_on_conflict(c: OnConflict, indent: nat) -> Seq<Piece>
    decreases c,
{
    line(indent, "unless conflict"@) + match (c.field, c.else_expr) {
        (Some(f), Some(e)) => lit(" on "@) + lit(f@) + lit("\n"@) + line(indent, "else"@) + lit(
            " (\n"@,
        ) + pieces(*e, nest(indent)) + lit("\n"@) + line(indent, ")"@),
        _ => Seq::empty(),
    }
}

pub open spec fn pieces_insert(s: InsertBuilder, indent: nat) -> Seq<Piece>
    decreases s,
{
    pieces_withs(s.withs@, indent) + line(indent, "insert "@) + lit(s.target@) + lit(" "@)
        + lit("{"@) + pieces_assignments(s.values@, indent) + lit("\n"@) + line(indent, "}"@)
        + match s.on_conflict {
        Some(c) => lit("\n"@) + pieces_on_conflict(c, indent),
        None => Seq::empty(),
    }
}

pub open spec fn pieces_update(s: UpdateBuilder, indent: nat) -> Seq<Piece>
    decreases s,
{
    pieces_withs(s.withs@, indent) + line(indent, "update "@) + lit(s.target@) + lit("\n"@)
        + pieces_filter_clause(s.filter, indent) + lit("\n"@) + line(indent, "set "@)
        + lit("{"@) + pieces_assignments(s.values@, indent) + lit("\n"@) + line(indent, "}"@)
}

pub open spec fn pieces_forin(s: ForInBuilder, indent: nat) -> Seq<Piece>
    decreases s,
{
    pieces_withs(s.withs@, indent) + line(indent, "for "@) + lit(s.elem@) + lit(" in "@) + lit(
        s.arr@,
    ) + lit(" union (\n"@) + match s.expr {
        Some(e) => pieces(*e, nest(indent)),
        None => Seq::empty(),
    } + lit("\n"@) + line(indent, ")"@)
}

pub open spec fn pieces_group(g: GroupBuilder, indent: nat) -> Seq<Piece> {
    line(indent, "group "@) + lit(g.target@) + (if g.fields@.len() > 0 {
        lit(" { "@) + lit(g.fields@) + lit(" }"@)
    } else {
        Seq::empty()
    }) + (if g.using@.len() > 0 {
        lit("\n"@) + line(indent, "using"@) + lit("\n"@) + line(
            nest(indent),
            join(string_views(g.using@), ", "@),
        )
    } else {
        Seq::empty()
    }) + lit("\n"@) + line(indent, "by"@) + lit("\n"@) + line(
        nest(indent),
        join(string_views(g.by@), ", "@),
    )
}

/// Every binding in `e` has something bound and every loop has a body: what
/// rendering needs.
pub open spec fn complete(e: Expr) -> bool
    decreases e,
{
    match e {
        Expr::Select(s) => complete_select(s),
        Expr::Insert(s) => complete_insert(s),
        Expr::Update(s) => complete_withs(s.withs@) && complete_values(s.values@),
        Expr::ForIn(s) => complete_withs(s.withs@) && match s.expr {
            Some(x) => complete(*x),
            None => false,
        },
        Expr::With(w) => complete_with(w),
        Expr::Field(f) => complete_field(f),
        Expr::OnConflict(c) => complete_on_conflict(c),
        _ => true,
    }
}

pub open spec fn complete_select(s: SelectBuilder) -> bool
    decreases s,
{
    &&& complete_withs(s.withs@)
    &&& complete_fields(s.fields@)
    &&& match s.expr {
        Some(x) => complete(*x),
        None => true,
    }
}

pub open spec fn complete_insert(s: InsertBuilder) -> bool
    decreases s,
{
    &&& complete_withs(s.withs@)
    &&& complete_values(s.values@)
    &&& match s.on_conflict {
        Some(c) => complete_on_conflict(c),
        None => true,
    }
}

pub open spec fn complete_on_conflict(c: OnConflict) -> bool
    decreases c,
{
    match c.else_expr {
        Some(x) => complete(*x),
        None => true,
    }
}

pub open spec fn complete_with(w: With) -> bool
    decreases w,
{
    match w.x {
        Some(ArgOrExpr::Arg(_)) => true,
        Some(ArgOrExpr::Expr(x)) => complete(*x),
        None => false,
    }
}

pub open spec fn complete_withs(ws: Seq<With>) -> bool
    decreases ws,
{
    ws.len() > 0 ==> complete_withs(ws.drop_last()) && complete_with(ws.last())
}

pub open spec fn complete_field(f: Field) -> bool
    decreases f,
{
    match f.fields {
        FieldType::Expr(x) => complete(*x),
        FieldType::Field(v) => complete_fields(v@),
        _ => true,
    }
}

pub open spec fn complete_fields(fs: Seq<Field>) -> bool
    decreases fs,
{
    fs.len() > 0 ==> complete_fields(fs.drop_last()) && complete_field(fs.last())
}

pub open spec fn complete_values(vs: Seq<(String, ArgOrExpr)>) -> bool
    decreases vs,
{
    vs.len() > 0 ==> complete_values(vs.drop_last()) && match vs.last().1 {
        ArgOrExpr::Arg(_) => true,
        ArgOrExpr::Expr(x) => complete(*x),
    }
}

/// Where a render started: the text and the parameters already there.
pub(crate) struct Origin {
    pub q: Seq<char>,
    pub c: Seq<Payload>,
}

/// `q` and `c` are what was there at `o`, followed by `done` rendered.
pub(crate) open spec fn tracks(q: Seq<char>, c: Seq<Payload>, o: Origin, done: Seq<Piece>) -> bool {
    &&& q == o.q + text_of(done, o.c.len())
    &&& c == o.c + payloads(done)
}

proof fn lemma_extend(q: Seq<char>, c: Seq<Payload>, o: Origin, done: Seq<Piece>, p: Seq<Piece>)
    requires
        tracks(q, c, o, done),
    ensures
        tracks(q + text_of(p, c.len()), c + payloads(p), o, done + p),
{
    lemma_concat(done, p, o.c.len());
    assert(q + text_of(p, c.len()) =~= o.q + text_of(done + p, o.c.len()));
    assert(c + payloads(p) =~= o.c + payloads(done + p));
}

pub(crate) proof fn lemma_assoc(a: Seq<Piece>, b: Seq<Piece>, c: Seq<Piece>)
    ensures
        a + b + c == a + (b + c),
{
    assert(a + b + c =~= a + (b + c));
}

proof fn lemma_lit(s: Seq<char>, n: nat)
    ensures
        text_of(lit(s), n) == s,
        payloads(lit(s)) == Seq::<Payload>::empty(),
{
    lemma_text_piece(s, n);
}

proof fn lemma_slot(v: Value, n: nat)
    ensures
        text_of(slot(v), n) == crate::text::placeholder(v.kind@, n),
        payloads(slot(v)) == seq![v.inner],
{
    lemma_slot_piece(v.kind@, v.inner, n);
}

/// Appends the literal `s`.
fn put(q: &mut String, ctx: &Context, s: &str, Ghost(o): Ghost<Origin>, Ghost(done): Ghost<Seq<Piece>>)
    requires
        tracks(old(q)@, ctx@, o, done),
    ensures
        tracks(final(q)@, ctx@, o, done + lit(s@)),
{
    proof {
        lemma_lit(s@, ctx@.len());
        lemma_extend(q@, ctx@, o, done, lit(s@));
    }
    q.append(s);
}

/// Appends `s` after `indent` spaces.
fn put_line(
    q: &mut String,
    ctx: &Context,
    s: &str,
    indent: usize,
    Ghost(o): Ghost<Origin>,
    Ghost(done): Ghost<Seq<Piece>>,
)
    requires
        tracks(old(q)@, ctx@, o, done),
    ensures
        tracks(final(q)@, ctx@, o, done + line(indent as nat, s@)),
{
    proof {
        lemma_lit(spaces(indent as nat) + s@, ctx@.len());
        lemma_extend(q@, ctx@, o, done, line(indent as nat, s@));
    }
    let ghost q1 = q@;
    push_line(q, s, indent);
    assert(q@ =~= q1 + (spaces(indent as nat) + s@));
}

/// Appends `indent` spaces.
fn put_indent(
    q: &mut String,
    ctx: &Context,
    indent: usize,
    Ghost(o): Ghost<Origin>,
    Ghost(done): Ghost<Seq<Piece>>,
)
    requires
        tracks(old(q)@, ctx@, o, done),
    ensures
        tracks(final(q)@, ctx@, o, done + lit(spaces(indent as nat))),
{
    proof {
        lemma_lit(spaces(indent as nat), ctx@.len());
        lemma_extend(q@, ctx@, o, done, lit(spaces(indent as nat)));
    }
    push_indent(q, indent);
}

/// Appends the entries of `parts`, joined by `, `, after `indent` spaces.
fn put_joined(
    q: &mut String,
    ctx: &Context,
    parts: &Vec<String>,
    indent: usize,
    Ghost(o): Ghost<Origin>,
    Ghost(done): Ghost<Seq<Piece>>,
)
    requires
        tracks(old(q)@, ctx@, o, done),
    ensures
        tracks(final(q)@, ctx@, o, done + line(indent as nat, join(string_views(parts@), ", "@))),
{
    let ghost t = spaces(indent as nat) + join(string_views(parts@), ", "@);
    proof {
        lemma_lit(t, ctx@.len());
        lemma_extend(q@, ctx@, o, done, lit(t));
    }
    let ghost q1 = q@;
    push_indent(q, indent);
    push_joined(q, parts, ", ");
    assert(q@ =~= q1 + t);
}

/// Binds `v` and appends its placeholder.
fn put_slot(
    q: &mut String,
    ctx: &mut Context,
    v: Value,
    Ghost(o): Ghost<Origin>,
    Ghost(done): Ghost<Seq<Piece>>,
)
    requires
        tracks(old(q)@, old(ctx)@, o, done),
    ensures
        tracks(final(q)@, final(ctx)@, o, done + slot(v)),
{
    let ghost n = ctx@.len();
    proof {
        lemma_slot(v, n);
        lemma_extend(q@, ctx@, o, done, slot(v));
    }
    let ghost c = ctx@;
    let Value { inner, kind } = v;
    ctx.bind(q, kind.as_str(), inner);
    assert(ctx@ =~= c + payloads(slot(v)));
}

proof fn lemma_complete_fields(fs: Seq<Field>, k: int)
    requires
        complete_fields(fs),
        0 <= k < fs.len(),
    ensures
        complete_field(fs[k]),
    decreases fs.len(),
{
    if k < fs.len() - 1 {
        lemma_complete_fields(fs.drop_last(), k);
    }
}

proof fn lemma_complete_withs(ws: Seq<With>, k: int)
    requires
        complete_withs(ws),
        0 <= k < ws.len(),
    ensures
        complete_with(ws[k]),
    decreases ws.len(),
{
    if k < ws.len() - 1 {
        lemma_complete_withs(ws.drop_last(), k);
    }
}

proof fn lemma_complete_values(vs: Seq<(String, ArgOrExpr)>, k: int)
    requires
        complete_values(vs),
        0 <= k < vs.len(),
    ensures
        match vs[k].1 {
            ArgOrExpr::Arg(_) => true,
            ArgOrExpr::Expr(x) => complete(*x),
        },
    decreases vs.len(),
{
    if k < vs.len() - 1 {
        lemma_complete_values(vs.drop_last(), k);
    }
}

impl Expr {
    /// Renders the expression at `indent`, binding its values into `ctx`
    /// after those already there.
    pub fn render_text(self, ctx: &mut Context, indent: usize) -> (r: String)
        requires
            complete(self),
        ensures
            r@ == text_of(pieces(self, indent as nat), old(ctx)@.len()),
            final(ctx)@ == old(ctx)@ + payloads(pieces(self, indent as nat)),
    {
        let mut q = String::new();
        let ghost o = Origin { q: q@, c: ctx@ };
        proof {
            lemma_empty(o.c.len());
            assert(q@ =~= o.q + text_of(Seq::<Piece>::empty(), o.c.len()));
            assert(ctx@ =~= o.c + payloads(Seq::<Piece>::empty()));
        }
        render_expr(self, &mut q, ctx, indent, Ghost(o), Ghost(Seq::empty()));
        assert(Seq::<Piece>::empty() + pieces(self, indent as nat) =~= pieces(self, indent as nat));
        assert(q@ =~= text_of(pieces(self, indent as nat), o.c.len()));
        q
    }
}

fn render_expr(
    e: Expr,
    q: &mut String,
    ctx: &mut Context,
    indent: usize,
    Ghost(o): Ghost<Origin>,
    Ghost(done): Ghost<Seq<Piece>>,
)
    requires
        complete(e),
        tracks(old(q)@, old(ctx)@, o, done),
    ensures
        tracks(final(q)@, final(ctx)@, o, done + pieces(e, indent as nat)),
    decreases e,
{
    match e {
        Expr::Raw(r) => put_line(q, ctx, r.text.as_str(), indent, Ghost(o), Ghost(done)),
        Expr::Select(s) => render_select(s, q, ctx, indent, Ghost(o), Ghost(done)),
        Expr::Insert(s) => render_insert(s, q, ctx, indent, Ghost(o), Ghost(done)),
        Expr::Update(s) => render_update(s, q, ctx, indent, Ghost(o), Ghost(done)),
        Expr::ForIn(s) => render_forin(s, q, ctx, indent, Ghost(o), Ghost(done)),
        Expr::Group(g) => render_group(g, q, ctx, indent, Ghost(o), Ghost(done)),
        Expr::Filter(f) => render_filter(f, q, ctx, indent, false, Ghost(o), Ghost(done)),
        Expr::With(w) => render_with(w, q, ctx, indent, Ghost(o), Ghost(done)),
        Expr::OrderBy(ob) => render_order(ob, q, ctx, indent, Ghost(o), Ghost(done)),
        Expr::Field(f) => render_field(f, q, ctx, indent, Ghost(o), Ghost(done)),
        Expr::OnConflict(c) => render_on_conflict(c, q, ctx, indent, Ghost(o), Ghost(done)),
    }
}

fn render_field(
    f: Field,
    q: &mut String,
    ctx: &mut Context,
    indent: usize,
    Ghost(o): Ghost<Origin>,
    Ghost(done): Ghost<Seq<Piece>>,
)
    requires
        complete_field(f),
        tracks(old(q)@, old(ctx)@, o, done),
    ensures
        tracks(final(q)@, final(ctx)@, o, done + pieces_field(f, indent as nat)),
    decreases f,
{
    let ghost i = indent as nat;
    let ghost mut cur = done;
    let Field { name, fields } = f;
    match name {
        Some(n) => {
            put_line(q, ctx, n.as_str(), indent, Ghost(o), Ghost(cur));
            proof {
                cur = cur + line(i, n@);
            }
        },
        None => {},
    }
    let ghost head = cur;
    match fields {
        FieldType::SingleSplat => {
            put(q, ctx, "*,", Ghost(o), Ghost(cur));
            proof {
                cur = cur + lit("*,"@);
            }
        },
        FieldType::DoubleSplat => {
            put(q, ctx, "**,", Ghost(o), Ghost(cur));
            proof {
                cur = cur + lit("**,"@);
            }
        },
        FieldType::Expr(e) => {
            let d = deeper(indent);
            put(q, ctx, " := (\n", Ghost(o), Ghost(cur));
            proof {
                cur = cur + lit(" := (\n"@);
            }
            render_expr(*e, q, ctx, d, Ghost(o), Ghost(cur));
            proof {
                cur = cur + pieces(*e, nest(i));
            }
            put(q, ctx, "\n", Ghost(o), Ghost(cur));
            proof {
                cur = cur + lit("\n"@);
            }
            put_line(q, ctx, ")", indent, Ghost(o), Ghost(cur));
            proof {
                cur = cur + line(i, ")"@);
            }
        },
        FieldType::Field(v) => {
            if v.len() > 0 {
                let d = deeper(indent);
                put(q, ctx, ": {\n", Ghost(o), Ghost(cur));
                proof {
                    cur = cur + lit(": {\n"@);
                }
                let ghost vv = v@;
                render_children(v, q, ctx, d, Ghost(o), Ghost(cur));
                proof {
                    cur = cur + pieces_children(vv, nest(i));
                }
                put(q, ctx, "\n", Ghost(o), Ghost(cur));
                proof {
                    cur = cur + lit("\n"@);
                }
                put_line(q, ctx, "},", indent, Ghost(o), Ghost(cur));
                proof {
                    cur = cur + line(i, "},"@);
                }
            } else {
                put(q, ctx, ",", Ghost(o), Ghost(cur));
                proof {
                    cur = cur + lit(","@);
                }
            }
        },
    }
    assert(cur =~= done + pieces_field(f, i));
}

fn render_children(
    v: Vec<Field>,
    q: &mut String,
    ctx: &mut Context,
    indent: usize,
    Ghost(o): Ghost<Origin>,
    Ghost(done): Ghost<Seq<Piece>>,
)
    requires
        complete_fields(v@),
        tracks(old(q)@, old(ctx)@, o, done),
    ensures
        tracks(final(q)@, final(ctx)@, o, done + pieces_children(v@, indent as nat)),
    decreases v,
{
    let ghost i = indent as nat;
    let ghost n = v@.len();
    let total = v.len();
    let mut rest = v;
    let mut k: usize = 0;
    assert(v@.take(0) =~= Seq::<Field>::empty());
    assert(done + pieces_children(v@.take(0), i) =~= done);
    while rest.len() > 0
        invariant
            n == v@.len(),
            n == total,
            k + rest@.len() == n,
            i == indent as nat,
            rest@ == v@.subrange(k as int, n as int),
            complete_fields(v@),
            tracks(q@, ctx@, o, done + pieces_children(v@.take(k as int), i)),
        decreases rest@.len(),
    {
        let ghost cur = done + pieces_children(v@.take(k as int), i);
        let f = rest.remove(0);
        assert(f == v@[k as int]);
        proof {
            lemma_complete_fields(v@, k as int);
        }
        let ghost take1 = v@.take(k + 1);
        assert(take1.drop_last() =~= v@.take(k as int));
        assert(take1.last() == f);
        if k > 0 {
            put(q, ctx, "\n", Ghost(o), Ghost(cur));
            render_field(f, q, ctx, indent, Ghost(o), Ghost(cur + lit("\n"@)));
            assert(cur + lit("\n"@) + pieces_field(f, i) =~= done + pieces_children(take1, i));
        } else {
            render_field(f, q, ctx, indent, Ghost(o), Ghost(cur));
            assert(v@.take(0) =~= Seq::<Field>::empty());
            assert(cur + pieces_field(f, i) =~= done + pieces_children(take1, i));
        }
        k = k + 1;
        assert(rest@ =~= v@.subrange(k as int, n as int));
    }
    assert(v@.take(n as int) =~= v@);
}

fn render_shape(
    v: Vec<Field>,
    q: &mut String,
    ctx: &mut Context,
    indent: usize,
    Ghost(o): Ghost<Origin>,
    Ghost(done): Ghost<Seq<Piece>>,
)
    requires
        complete_fields(v@),
        tracks(old(q)@, old(ctx)@, o, done),
    ensures
        tracks(final(q)@, final(ctx)@, o, done + pieces_shape(v@, indent as nat)),
    decreases v,
{
    let ghost i = indent as nat;
    let ghost n = v@.len();
    let total = v.len();
    let mut rest = v;
    let mut k: usize = 0;
    assert(v@.take(0) =~= Seq::<Field>::empty());
    assert(done + pieces_shape(v@.take(0), i) =~= done);
    while rest.len() > 0
        invariant
            n == v@.len(),
            n == total,
            k + rest@.len() == n,
            i == indent as nat,
            rest@ == v@.subrange(k as int, n as int),
            complete_fields(v@),
            tracks(q@, ctx@, o, done + pieces_shape(v@.take(k as int), i)),
        decreases rest@.len(),
    {
        let ghost cur = done + pieces_shape(v@.take(k as int), i);
        let f = rest.remove(0);
        assert(f == v@[k as int]);
        proof {
            lemma_complete_fields(v@, k as int);
        }
        let ghost take1 = v@.take(k + 1);
        assert(take1.drop_last() =~= v@.take(k as int));
        assert(take1.last() == f);
        render_field(f, q, ctx, indent, Ghost(o), Ghost(cur));
        put(q, ctx, "\n", Ghost(o), Ghost(cur + pieces_field(f, i)));
        assert(cur + pieces_field(f, i) + lit("\n"@) =~= done + pieces_shape(take1, i));
        k = k + 1;
        assert(rest@ =~= v@.subrange(k as int, n as int));
    }
    assert(v@.take(n as int) =~= v@);
}

fn render_filter(
    f: Filter,
    q: &mut String,
    ctx: &mut Context,
    indent: usize,
    wrapped: bool,
    Ghost(o): Ghost<Origin>,
    Ghost(done): Ghost<Seq<Piece>>,
)
    requires
        tracks(old(q)@, old(ctx)@, o, done),
    ensures
        tracks(final(q)@, final(ctx)@, o, done + pieces_filter(f, indent as nat, wrapped)),
    decreases f,
{
    let ghost i = indent as nat;
    let ghost mut cur = done;
    let Filter { not, func, qs } = f;
    let is_not = match not {
        Some(_) => true,
        None => false,
    };
    let has_func = match &func {
        Some(_) => true,
        None => false,
    };
    if is_not {
        put_line(q, ctx, "not", indent, Ghost(o), Ghost(cur));
        put(q, ctx, " ", Ghost(o), Ghost(cur + line(i, "not"@)));
        proof {
            cur = cur + line(i, "not"@) + lit(" "@);
        }
    }
    match func {
        Some(name) => {
            put(q, ctx, name.as_str(), Ghost(o), Ghost(cur));
            proof {
                cur = cur + lit(name@);
            }
        },
        None => {},
    }
    if is_not || has_func {
        put(q, ctx, "(\n", Ghost(o), Ghost(cur));
        proof {
            cur = cur + lit("(\n"@);
        }
    }
    let ghost ops = qs@;
    let n = qs.len();
    render_ops(qs, q, ctx, indent, wrapped, Ghost(o), Ghost(cur));
    proof {
        cur = cur + pieces_ops(ops, i, wrapped);
    }
    if wrapped && n > 0 {
        put(q, ctx, ")", Ghost(o), Ghost(cur));
        proof {
            cur = cur + lit(")"@);
        }
    }
    if is_not || has_func {
        put(q, ctx, "\n", Ghost(o), Ghost(cur));
        put_line(q, ctx, ")", indent, Ghost(o), Ghost(cur + lit("\n"@)));
        proof {
            cur = cur + lit("\n"@) + line(i, ")"@);
        }
    }
    assert(cur =~= done + pieces_filter(f, i, wrapped));
}

fn render_ops(
    ops: Vec<(AndOr, Operand)>,
    q: &mut String,
    ctx: &mut Context,
    indent: usize,
    wrapped: bool,
    Ghost(o): Ghost<Origin>,
    Ghost(done): Ghost<Seq<Piece>>,
)
    requires
        tracks(old(q)@, old(ctx)@, o, done),
    ensures
        tracks(final(q)@, final(ctx)@, o, done + pieces_ops(ops@, indent as nat, wrapped)),
    decreases ops,
{
    let ghost i = indent as nat;
    let ghost n = ops@.len();
    let total = ops.len();
    let mut rest = ops;
    let mut k: usize = 0;
    assert(ops@.take(0) =~= Seq::<(AndOr, Operand)>::empty());
    assert(done + pieces_ops(ops@.take(0), i, wrapped) =~= done);
    while rest.len() > 0
        invariant
            n == ops@.len(),
            n == total,
            k + rest@.len() == n,
            i == indent as nat,
            rest@ == ops@.subrange(k as int, n as int),
            tracks(q@, ctx@, o, done + pieces_ops(ops@.take(k as int), i, wrapped)),
        decreases rest@.len(),
    {
        let ghost cur = done + pieces_ops(ops@.take(k as int), i, wrapped);
        let (joiner, op) = rest.remove(0);
        assert((joiner, op) == ops@[k as int]);
        let ghost take1 = ops@.take(k + 1);
        assert(take1.drop_last() =~= ops@.take(k as int));
        assert(take1.last() == (joiner, op));
        let ghost p = pieces_operand(op, k == 0, joiner, i, wrapped);
        render_operand(op, k == 0, joiner, q, ctx, indent, wrapped, Ghost(o), Ghost(cur));
        assert(cur + p =~= done + pieces_ops(take1, i, wrapped));
        k = k + 1;
        assert(rest@ =~= ops@.subrange(k as int, n as int));
    }
    assert(ops@.take(n as int) =~= ops@);
}

fn render_operand(
    op: Operand,
    first: bool,
    joiner: AndOr,
    q: &mut String,
    ctx: &mut Context,
    indent: usize,
    wrapped: bool,
    Ghost(o): Ghost<Origin>,
    Ghost(done): Ghost<Seq<Piece>>,
)
    requires
        tracks(old(q)@, old(ctx)@, o, done),
    ensures
        tracks(
            final(q)@,
            final(ctx)@,
            o,
            done + pieces_operand(op, first, joiner, indent as nat, wrapped),
        ),
    decreases op,
{
    let ghost i = indent as nat;
    let ghost mut cur = done;
    if !first {
        put(q, ctx, " ", Ghost(o), Ghost(cur));
        put(q, ctx, joiner.as_str(), Ghost(o), Ghost(cur + lit(" "@)));
        put(q, ctx, "\n", Ghost(o), Ghost(cur + lit(" "@) + lit(and_or_text(joiner))));
        proof {
            cur = cur + lit(" "@) + lit(and_or_text(joiner)) + lit("\n"@);
        }
    }
    let ghost joined = cur;
    match op {
        Operand::Leaf(c) => {
            let d = deeper(indent);
            let Condition { before, arg, after } = c;
            if first {
                if wrapped {
                    put_line(q, ctx, "(", d, Ghost(o), Ghost(cur));
                    proof {
                        cur = cur + line(nest(i), "("@);
                    }
                } else {
                    put_indent(q, ctx, d, Ghost(o), Ghost(cur));
                    proof {
                        cur = cur + lit(spaces(nest(i)));
                    }
                }
                put(q, ctx, before.as_str(), Ghost(o), Ghost(cur));
                proof {
                    cur = cur + lit(before@);
                }
            } else {
                put_line(q, ctx, before.as_str(), d, Ghost(o), Ghost(cur));
                proof {
                    cur = cur + line(nest(i), before@);
                }
            }
            let ghost a = arg;
            put_slot(q, ctx, arg, Ghost(o), Ghost(cur));
            proof {
                cur = cur + slot(a);
            }
            put(q, ctx, after.as_str(), Ghost(o), Ghost(cur));
            proof {
                cur = cur + lit(after@);
            }
        },
        Operand::Nested(g) => {
            let ghost gg = g;
            let ghost before = cur;
            if first && wrapped {
                let d = deeper(indent);
                put_line(q, ctx, "(", d, Ghost(o), Ghost(cur));
                put(q, ctx, "\n", Ghost(o), Ghost(cur + line(nest(i), "("@)));
                proof {
                    cur = cur + line(nest(i), "("@) + lit("\n"@);
                }
            }
            let ghost open = if first && wrapped {
                line(nest(i), "("@) + lit("\n"@)
            } else {
                Seq::empty()
            };
            assert(cur =~= before + open);
            proof {
                cur = before + open;
            }
            render_filter(g, q, ctx, indent, true, Ghost(o), Ghost(cur));
            proof {
                cur = cur + pieces_filter(gg, i, true);
            }
        },
    }
    assert(cur =~= done + pieces_operand(op, first, joiner, i, wrapped));
}

fn render_with(
    w: With,
    q: &mut String,
    ctx: &mut Context,
    indent: usize,
    Ghost(o): Ghost<Origin>,
    Ghost(done): Ghost<Seq<Piece>>,
)
    requires
        complete_with(w),
        tracks(old(q)@, old(ctx)@, o, done),
    ensures
        tracks(final(q)@, final(ctx)@, o, done + pieces_with(w, indent as nat)),
    decreases w,
{
    let ghost i = indent as nat;
    let ghost mut cur = done;
    let With { name, x } = w;
    put_line(q, ctx, name.as_str(), indent, Ghost(o), Ghost(cur));
    put(q, ctx, " := ", Ghost(o), Ghost(cur + line(i, name@)));
    proof {
        cur = cur + line(i, name@) + lit(" := "@);
    }
    match x {
        Some(ArgOrExpr::Arg(v)) => {
            let ghost vv = v;
            put_slot(q, ctx, v, Ghost(o), Ghost(cur));
            proof {
                cur = cur + slot(vv);
            }
        },
        Some(ArgOrExpr::Expr(e)) => {
            let d = deeper(indent);
            put(q, ctx, "(\n", Ghost(o), Ghost(cur));
            proof {
                cur = cur + lit("(\n"@);
            }
            let ghost ee = *e;
            render_expr(*e, q, ctx, d, Ghost(o), Ghost(cur));
            proof {
                cur = cur + pieces(ee, nest(i));
            }
            put(q, ctx, "\n", Ghost(o), Ghost(cur));
            put_line(q, ctx, ")", indent, Ghost(o), Ghost(cur + lit("\n"@)));
            proof {
                cur = cur + lit("\n"@) + line(i, ")"@);
            }
        },
        None => {},
    }
    assert(cur =~= done + pieces_with(w, i));
}

fn render_withs(
    ws: Vec<With>,
    q: &mut String,
    ctx: &mut Context,
    indent: usize,
    Ghost(o): Ghost<Origin>,
    Ghost(done): Ghost<Seq<Piece>>,
)
    requires
        complete_withs(ws@),
        tracks(old(q)@, old(ctx)@, o, done),
    ensures
        tracks(final(q)@, final(ctx)@, o, done + pieces_withs(ws@, indent as nat)),
    decreases ws,
{
    let ghost i = indent as nat;
    let d = deeper(indent);
    let ghost n = ws@.len();
    let total = ws.len();
    let mut rest = ws;
    let mut k: usize = 0;
    assert(ws@.take(0) =~= Seq::<With>::empty());
    assert(done + pieces_withs(ws@.take(0), i) =~= done);
    while rest.len() > 0
        invariant
            n == ws@.len(),
            n == total,
            k + rest@.len() == n,
            i == indent as nat,
            rest@ == ws@.subrange(k as int, n as int),
            complete_withs(ws@),
            d == nest(i),
            tracks(q@, ctx@, o, done + pieces_withs(ws@.take(k as int), i)),
        decreases rest@.len(),
    {
        let ghost cur = done + pieces_withs(ws@.take(k as int), i);
        let w = rest.remove(0);
        assert(w == ws@[k as int]);
        proof {
            lemma_complete_withs(ws@, k as int);
        }
        let ghost take1 = ws@.take(k + 1);
        assert(take1.drop_last() =~= ws@.take(k as int));
        assert(take1.last() == w);
        let ghost wv = w;
        if k == 0 {
            put_line(q, ctx, "with", indent, Ghost(o), Ghost(cur));
            put(q, ctx, "\n", Ghost(o), Ghost(cur + line(i, "with"@)));
            let ghost c1 = cur + line(i, "with"@) + lit("\n"@);
            render_with(w, q, ctx, d, Ghost(o), Ghost(c1));
            put(q, ctx, ",\n", Ghost(o), Ghost(c1 + pieces_with(wv, nest(i))));
            assert(take1 =~= seq![wv]);
            assert(c1 + pieces_with(wv, nest(i)) + lit(",\n"@) =~= done + pieces_withs(take1, i));
        } else {
            render_with(w, q, ctx, d, Ghost(o), Ghost(cur));
            put(q, ctx, ",\n", Ghost(o), Ghost(cur + pieces_with(wv, nest(i))));
            assert(cur + pieces_with(wv, nest(i)) + lit(",\n"@) =~= done + pieces_withs(take1, i));
        }
        k = k + 1;
        assert(rest@ =~= ws@.subrange(k as int, n as int));
    }
    assert(ws@.take(n as int) =~= ws@);
}

fn render_assigned(
    a: ArgOrExpr,
    q: &mut String,
    ctx: &mut Context,
    indent: usize,
    Ghost(o): Ghost<Origin>,
    Ghost(done): Ghost<Seq<Piece>>,
)
    requires
        match a {
            ArgOrExpr::Arg(_) => true,
            ArgOrExpr::Expr(x) => complete(*x),
        },
        tracks(old(q)@, old(ctx)@, o, done),
    ensures
        tracks(final(q)@, final(ctx)@, o, done + pieces_assigned(a, indent as nat)),
    decreases a,
{
    let ghost i = indent as nat;
    match a {
        ArgOrExpr::Arg(v) => {
            put_slot(q, ctx, v, Ghost(o), Ghost(done));
        },
        ArgOrExpr::Expr(e) => {
            let d = deeper(indent);
            let dd = deeper(d);
            put(q, ctx, "(\n", Ghost(o), Ghost(done));
            let ghost cur = done + lit("(\n"@);
            let ghost ee = *e;
            render_expr(*e, q, ctx, dd, Ghost(o), Ghost(cur));
            put(q, ctx, "\n", Ghost(o), Ghost(cur + pieces(ee, nest(nest(i)))));
            put_line(
                q,
                ctx,
                ")",
                d,
                Ghost(o),
                Ghost(cur + pieces(ee, nest(nest(i))) + lit("\n"@)),
            );
            assert(cur + pieces(ee, nest(nest(i))) + lit("\n"@) + line(nest(i), ")"@) =~= done
                + pieces_assigned(a, i));
        },
    }
}

fn render_object(
    vs: Vec<(String, ArgOrExpr)>,
    q: &mut String,
    ctx: &mut Context,
    indent: usize,
    Ghost(o): Ghost<Origin>,
    Ghost(done): Ghost<Seq<Piece>>,
)
    requires
        complete_values(vs@),
        tracks(old(q)@, old(ctx)@, o, done),
    ensures
        tracks(
            final(q)@,
            final(ctx)@,
            o,
            done + (lit("{"@) + pieces_assignments(vs@, indent as nat) + lit("\n"@) + line(
                indent as nat,
                "}"@,
            )),
        ),
    decreases vs,
{
    let ghost i = indent as nat;
    let d = deeper(indent);
    put(q, ctx, "{", Ghost(o), Ghost(done));
    let ghost start = done + lit("{"@);
    let ghost n = vs@.len();
    let total = vs.len();
    let mut rest = vs;
    let mut k: usize = 0;
    assert(vs@.take(0) =~= Seq::<(String, ArgOrExpr)>::empty());
    assert(start + pieces_assignments(vs@.take(0), i) =~= start);
    while rest.len() > 0
        invariant
            n == vs@.len(),
            n == total,
            k + rest@.len() == n,
            i == indent as nat,
            rest@ == vs@.subrange(k as int, n as int),
            complete_values(vs@),
            d == nest(i),
            tracks(q@, ctx@, o, start + pieces_assignments(vs@.take(k as int), i)),
        decreases rest@.len(),
    {
        let ghost cur = start + pieces_assignments(vs@.take(k as int), i);
        let (field, a) = rest.remove(0);
        assert((field, a) == vs@[k as int]);
        proof {
            lemma_complete_values(vs@, k as int);
        }
        let ghost take1 = vs@.take(k + 1);
        assert(take1.drop_last() =~= vs@.take(k as int));
        assert(take1.last() == (field, a));
        put(q, ctx, "\n", Ghost(o), Ghost(cur));
        let ghost c1 = cur + lit("\n"@);
        put_line(q, ctx, field.as_str(), d, Ghost(o), Ghost(c1));
        let ghost c2 = c1 + line(nest(i), field@);
        put(q, ctx, " := ", Ghost(o), Ghost(c2));
        let ghost c3 = c2 + lit(" := "@);
        let ghost aa = a;
        render_assigned(a, q, ctx, indent, Ghost(o), Ghost(c3));
        let ghost c4 = c3 + pieces_assigned(aa, i);
        put(q, ctx, ",", Ghost(o), Ghost(c4));
        assert(c4 + lit(","@) =~= start + pieces_assignments(take1, i));
        k = k + 1;
        assert(rest@ =~= vs@.subrange(k as int, n as int));
    }
    assert(vs@.take(n as int) =~= vs@);
    let ghost body = start + pieces_assignments(vs@, i);
    put(q, ctx, "\n", Ghost(o), Ghost(body));
    put_line(q, ctx, "}", indent, Ghost(o), Ghost(body + lit("\n"@)));
    assert(body + lit("\n"@) + line(i, "}"@) =~= done + (lit("{"@) + pieces_assignments(vs@, i)
        + lit("\n"@) + line(i, "}"@)));
}

fn render_filter_clause(
    f: Option<Filter>,
    q: &mut String,
    ctx: &mut Context,
    indent: usize,
    Ghost(o): Ghost<Origin>,
    Ghost(done): Ghost<Seq<Piece>>,
)
    requires
        tracks(old(q)@, old(ctx)@, o, done),
    ensures
        tracks(final(q)@, final(ctx)@, o, done + pieces_filter_clause(f, indent as nat)),
    decreases f,
{
    let ghost i = indent as nat;
    match f {
        Some(g) => {
            if g.qs.len() > 0 {
                put_line(q, ctx, "filter", indent, Ghost(o), Ghost(done));
                put(q, ctx, "\n", Ghost(o), Ghost(done + line(i, "filter"@)));
                let ghost gg = g;
                let ghost cur = done + line(i, "filter"@) + lit("\n"@);
                render_filter(g, q, ctx, indent, false, Ghost(o), Ghost(cur));
                assert(cur + pieces_filter(gg, i, false) =~= done + pieces_filter_clause(f, i));
            } else {
                assert(done + pieces_filter_clause(f, i) =~= done);
            }
        },
        None => {
            assert(done + pieces_filter_clause(f, i) =~= done);
        },
    }
}

fn render_order(
    ob: OrderBy,
    q: &mut String,
    ctx: &mut Context,
    indent: usize,
    Ghost(o): Ghost<Origin>,
    Ghost(done): Ghost<Seq<Piece>>,
)
    requires
        tracks(old(q)@, old(ctx)@, o, done),
    ensures
        tracks(final(q)@, final(ctx)@, o, done + pieces_order(ob, indent as nat)),
{
    let ghost i = indent as nat;
    let d = deeper(indent);
    put_line(q, ctx, ob.by.as_str(), d, Ghost(o), Ghost(done));
    let ghost cur = done + line(nest(i), ob.by@);
    match ob.direction {
        Some(dir) => {
            put(q, ctx, " ", Ghost(o), Ghost(cur));
            put(q, ctx, dir.as_str(), Ghost(o), Ghost(cur + lit(" "@)));
            assert(cur + lit(" "@) + lit(direction_text(dir)) =~= done + pieces_order(ob, i));
        },
        None => {
            assert(cur =~= done + pieces_order(ob, i));
        },
    }
}

fn render_orders(
    os: Vec<OrderBy>,
    q: &mut String,
    ctx: &mut Context,
    indent: usize,
    Ghost(o): Ghost<Origin>,
    Ghost(done): Ghost<Seq<Piece>>,
)
    requires
        tracks(old(q)@, old(ctx)@, o, done),
    ensures
        tracks(final(q)@, final(ctx)@, o, done + pieces_orders(os@, indent as nat)),
{
    let ghost i = indent as nat;
    let ghost n = os@.len();
    let total = os.len();
    let mut rest = os;
    let mut k: usize = 0;
    assert(os@.take(0) =~= Seq::<OrderBy>::empty());
    assert(done + pieces_orders(os@.take(0), i) =~= done);
    while rest.len() > 0
        invariant
            n == os@.len(),
            n == total,
            k + rest@.len() == n,
            i == indent as nat,
            rest@ == os@.subrange(k as int, n as int),
            tracks(q@, ctx@, o, done + pieces_orders(os@.take(k as int), i)),
        decreases rest@.len(),
    {
        let ghost cur = done + pieces_orders(os@.take(k as int), i);
        let ob = rest.remove(0);
        assert(ob == os@[k as int]);
        let ghost take1 = os@.take(k + 1);
        assert(take1.drop_last() =~= os@.take(k as int));
        assert(take1.last() == ob);
        let ghost obv = ob;
        if k == 0 {
            put(q, ctx, "\n", Ghost(o), Ghost(cur));
            put_line(q, ctx, "order by", indent, Ghost(o), Ghost(cur + lit("\n"@)));
            put(q, ctx, "\n", Ghost(o), Ghost(cur + lit("\n"@) + line(i, "order by"@)));
            let ghost c1 = cur + lit("\n"@) + line(i, "order by"@) + lit("\n"@);
            render_order(ob, q, ctx, indent, Ghost(o), Ghost(c1));
            assert(take1 =~= seq![obv]);
            assert(c1 + pieces_order(obv, i) =~= done + pieces_orders(take1, i));
        } else {
            put(q, ctx, " then", Ghost(o), Ghost(cur));
            put(q, ctx, "\n", Ghost(o), Ghost(cur + lit(" then"@)));
            let ghost c1 = cur + lit(" then"@) + lit("\n"@);
            render_order(ob, q, ctx, indent, Ghost(o), Ghost(c1));
            assert(c1 + pieces_order(obv, i) =~= done + pieces_orders(take1, i));
        }
        k = k + 1;
        assert(rest@ =~= os@.subrange(k as int, n as int));
    }
    assert(os@.take(n as int) =~= os@);
}

fn render_paging(
    skip: Option<usize>,
    take: Option<usize>,
    q: &mut String,
    ctx: &mut Context,
    indent: usize,
    Ghost(o): Ghost<Origin>,
    Ghost(done): Ghost<Seq<Piece>>,
)
    requires
        tracks(old(q)@, old(ctx)@, o, done),
    ensures
        tracks(final(q)@, final(ctx)@, o, done + pieces_paging(skip, take, indent as nat)),
{
    let ghost i = indent as nat;
    let ghost mut cur = done;
    match skip {
        Some(n) => {
            if n > 0 {
                put(q, ctx, "\n", Ghost(o), Ghost(cur));
                put_line(q, ctx, "offset ", indent, Ghost(o), Ghost(cur + lit("\n"@)));
                proof {
                    cur = cur + lit("\n"@) + line(i, "offset "@);
                }
                let v = int32_value(n as i32);
                assert(slot(v) =~= count_slot(n));
                put_slot(q, ctx, v, Ghost(o), Ghost(cur));
                proof {
                    cur = cur + count_slot(n);
                }
            }
        },
        None => {},
    }
    match take {
        Some(n) => {
            put(q, ctx, "\n", Ghost(o), Ghost(cur));
            put_line(q, ctx, "limit ", indent, Ghost(o), Ghost(cur + lit("\n"@)));
            proof {
                cur = cur + lit("\n"@) + line(i, "limit "@);
            }
            let v = int32_value(n as i32);
            assert(slot(v) =~= count_slot(n));
            put_slot(q, ctx, v, Ghost(o), Ghost(cur));
            proof {
                cur = cur + count_slot(n);
            }
        },
        None => {},
    }
    assert(cur =~= done + pieces_paging(skip, take, i));
}

pub proof fn lemma_select_parts(s: SelectBuilder, i: nat)
    ensures
        pieces_select(s, i) == pieces_withs(s.withs@, i) + line(i, "select "@) + (if s.distinct {
            lit("distinct "@)
        } else {
            Seq::empty()
        }) + lit(s.target@) + select_body(s.expr, s.fields@, i) + select_tail(
            s.filter,
            s.orders@,
            s.skip,
            s.take,
            i,
        ),
{
    let x = pieces_withs(s.withs@, i) + line(i, "select "@) + (if s.distinct {
        lit("distinct "@)
    } else {
        Seq::empty()
    }) + lit(s.target@) + select_body(s.expr, s.fields@, i);
    let f = select_filter(s.filter, i);
    let o = pieces_orders(s.orders@, i);
    let p = pieces_paging(s.skip, s.take, i);
    lemma_assoc(x, f, o);
    lemma_assoc(x, f + o, p);
}

/// What follows the shape of a `select`: filter, ordering, pagination.
pub open spec fn select_tail(
    filter: Option<Filter>,
    orders: Seq<OrderBy>,
    skip: Option<usize>,
    take: Option<usize>,
    indent: nat,
) -> Seq<Piece> {
    select_filter(filter, indent) + pieces_orders(orders, indent) + pieces_paging(skip, take, indent)
}

fn render_select_tail(
    filter: Option<Filter>,
    orders: Vec<OrderBy>,
    skip: Option<usize>,
    take: Option<usize>,
    q: &mut String,
    ctx: &mut Context,
    indent: usize,
    Ghost(o): Ghost<Origin>,
    Ghost(done): Ghost<Seq<Piece>>,
)
    requires
        tracks(old(q)@, old(ctx)@, o, done),
    ensures
        tracks(
            final(q)@,
            final(ctx)@,
            o,
            done + select_tail(filter, orders@, skip, take, indent as nat),
        ),
{
    let ghost i = indent as nat;
    let ghost mut cur = done;
    let ghost seg = select_filter(filter, i);
    let has_filter = match &filter {
        Some(g) => g.qs.len() > 0,
        None => false,
    };
    if has_filter {
        put(q, ctx, "\n", Ghost(o), Ghost(cur));
        proof {
            cur = cur + lit("\n"@);
        }
        let ghost fl = filter;
        render_filter_clause(filter, q, ctx, indent, Ghost(o), Ghost(cur));
        proof {
            cur = cur + pieces_filter_clause(fl, i);
        }
    }
    assert(cur =~= done + seg);
    proof {
        cur = done + seg;
    }
    let ghost os = orders@;
    render_orders(orders, q, ctx, indent, Ghost(o), Ghost(cur));
    proof {
        cur = cur + pieces_orders(os, i);
    }
    render_paging(skip, take, q, ctx, indent, Ghost(o), Ghost(cur));
    proof {
        cur = cur + pieces_paging(skip, take, i);
    }
    assert(cur =~= done + select_tail(filter, os, skip, take, i));
}

fn render_select(
    s: SelectBuilder,
    q: &mut String,
    ctx: &mut Context,
    indent: usize,
    Ghost(o): Ghost<Origin>,
    Ghost(done): Ghost<Seq<Piece>>,
)
    requires
        complete_select(s),
        tracks(old(q)@, old(ctx)@, o, done),
    ensures
        tracks(final(q)@, final(ctx)@, o, done + pieces_select(s, indent as nat)),
    decreases s,
{
    let ghost i = indent as nat;
    let ghost mut cur = done;
    let SelectBuilder { target, fields, withs, filter, skip, take, orders, distinct, expr } = s;
    let ghost ws = withs@;
    render_withs(withs, q, ctx, indent, Ghost(o), Ghost(cur));
    proof {
        cur = cur + pieces_withs(ws, i);
    }
    put_line(q, ctx, "select ", indent, Ghost(o), Ghost(cur));
    proof {
        cur = cur + line(i, "select "@);
    }
    let ghost before = cur;
    if distinct {
        put(q, ctx, "distinct ", Ghost(o), Ghost(cur));
        proof {
            cur = cur + lit("distinct "@);
        }
    }
    let ghost seg = if distinct {
        lit("distinct "@)
    } else {
        Seq::empty()
    };
    assert(cur =~= before + seg);
    proof {
        cur = before + seg;
    }
    put(q, ctx, target.as_str(), Ghost(o), Ghost(cur));
    proof {
        cur = cur + lit(target@);
    }
    let d = deeper(indent);
    let ghost before = cur;
    let ghost seg = select_body(expr, fields@, i);
    match expr {
        Some(e) => {
            put(q, ctx, " (\n", Ghost(o), Ghost(cur));
            proof {
                cur = cur + lit(" (\n"@);
            }
            let ghost ee = *e;
            render_expr(*e, q, ctx, d, Ghost(o), Ghost(cur));
            proof {
                cur = cur + pieces(ee, nest(i));
            }
            put(q, ctx, "\n", Ghost(o), Ghost(cur));
            put_line(q, ctx, ")", indent, Ghost(o), Ghost(cur + lit("\n"@)));
            proof {
                cur = cur + lit("\n"@) + line(i, ")"@);
            }
        },
        None => {
            if fields.len() > 0 {
                put(q, ctx, " {\n", Ghost(o), Ghost(cur));
                proof {
                    cur = cur + lit(" {\n"@);
                }
                let ghost fs = fields@;
                render_shape(fields, q, ctx, d, Ghost(o), Ghost(cur));
                proof {
                    cur = cur + pieces_shape(fs, nest(i));
                }
                put_line(q, ctx, "}", indent, Ghost(o), Ghost(cur));
                proof {
                    cur = cur + line(i, "}"@);
                }
            }
        },
    }
    assert(cur =~= before + seg);
    proof {
        cur = before + seg;
    }
    let ghost tail = select_tail(filter, orders@, skip, take, i);
    render_select_tail(filter, orders, skip, take, q, ctx, indent, Ghost(o), Ghost(cur));
    proof {
        cur = cur + tail;
    }
    proof {
        lemma_select_parts(s, i);
        let seg = if s.distinct {
            lit("distinct "@)
        } else {
            Seq::empty()
        };
        let a = pieces_withs(s.withs@, i);
        let b = line(i, "select "@);
        let c = lit(s.target@);
        let e = select_body(s.expr, s.fields@, i);
        let t = select_tail(s.filter, s.orders@, s.skip, s.take, i);
        lemma_assoc(done, a, b);
        lemma_assoc(done, a + b, seg);
        lemma_assoc(done, a + b + seg, c);
        lemma_assoc(done, a + b + seg + c, e);
        lemma_assoc(done, a + b + seg + c + e, t);
        assert(ws == s.withs@);
        assert(tail == t);
    }
}

fn render_on_conflict(
    c: OnConflict,
    q: &mut String,
    ctx: &mut Context,
    indent: usize,
    Ghost(o): Ghost<Origin>,
    Ghost(done): Ghost<Seq<Piece>>,
)
    requires
        complete_on_conflict(c),
        tracks(old(q)@, old(ctx)@, o, done),
    ensures
        tracks(final(q)@, final(ctx)@, o, done + pieces_on_conflict(c, indent as nat)),
    decreases c,
{
    let ghost i = indent as nat;
    put_line(q, ctx, "unless conflict", indent, Ghost(o), Ghost(done));
    let ghost mut cur = done + line(i, "unless conflict"@);
    let OnConflict { field, else_expr } = c;
    match (field, else_expr) {
        (Some(f), Some(e)) => {
            let d = deeper(indent);
            put(q, ctx, " on ", Ghost(o), Ghost(cur));
            put(q, ctx, f.as_str(), Ghost(o), Ghost(cur + lit(" on "@)));
            put(q, ctx, "\n", Ghost(o), Ghost(cur + lit(" on "@) + lit(f@)));
            proof {
                cur = cur + lit(" on "@) + lit(f@) + lit("\n"@);
            }
            put_line(q, ctx, "else", indent, Ghost(o), Ghost(cur));
            put(q, ctx, " (\n", Ghost(o), Ghost(cur + line(i, "else"@)));
            proof {
                cur = cur + line(i, "else"@) + lit(" (\n"@);
            }
            let ghost ee = *e;
            render_expr(*e, q, ctx, d, Ghost(o), Ghost(cur));
            proof {
                cur = cur + pieces(ee, nest(i));
            }
            put(q, ctx, "\n", Ghost(o), Ghost(cur));
            put_line(q, ctx, ")", indent, Ghost(o), Ghost(cur + lit("\n"@)));
            proof {
                cur = cur + lit("\n"@) + line(i, ")"@);
            }
        },
        _ => {},
    }
    assert(cur =~= done + pieces_on_conflict(c, i));
}

fn render_insert(
    s: InsertBuilder,
    q: &mut String,
    ctx: &mut Context,
    indent: usize,
    Ghost(o): Ghost<Origin>,
    Ghost(done): Ghost<Seq<Piece>>,
)
    requires
        complete_insert(s),
        tracks(old(q)@, old(ctx)@, o, done),
    ensures
        tracks(final(q)@, final(ctx)@, o, done + pieces_insert(s, indent as nat)),
    decreases s,
{
    let ghost i = indent as nat;
    let ghost mut cur = done;
    let InsertBuilder { target, withs, values, on_conflict } = s;
    let ghost ws = withs@;
    render_withs(withs, q, ctx, indent, Ghost(o), Ghost(cur));
    proof {
        cur = cur + pieces_withs(ws, i);
    }
    put_line(q, ctx, "insert ", indent, Ghost(o), Ghost(cur));
    put(q, ctx, target.as_str(), Ghost(o), Ghost(cur + line(i, "insert "@)));
    put(q, ctx, " ", Ghost(o), Ghost(cur + line(i, "insert "@) + lit(target@)));
    proof {
        cur = cur + line(i, "insert "@) + lit(target@) + lit(" "@);
    }
    let ghost vs = values@;
    render_object(values, q, ctx, indent, Ghost(o), Ghost(cur));
    proof {
        cur = cur + (lit("{"@) + pieces_assignments(vs, i) + lit("\n"@) + line(i, "}"@));
    }
    match on_conflict {
        Some(c) => {
            put(q, ctx, "\n", Ghost(o), Ghost(cur));
            proof {
                cur = cur + lit("\n"@);
            }
            let ghost cc = c;
            render_on_conflict(c, q, ctx, indent, Ghost(o), Ghost(cur));
            proof {
                cur = cur + pieces_on_conflict(cc, i);
            }
        },
        None => {},
    }
    assert(cur =~= done + pieces_insert(s, i));
}

fn render_update(
    s: UpdateBuilder,
    q: &mut String,
    ctx: &mut Context,
    indent: usize,
    Ghost(o): Ghost<Origin>,
    Ghost(done): Ghost<Seq<Piece>>,
)
    requires
        complete_withs(s.withs@),
        complete_values(s.values@),
        tracks(old(q)@, old(ctx)@, o, done),
    ensures
        tracks(final(q)@, final(ctx)@, o, done + pieces_update(s, indent as nat)),
    decreases s,
{
    let ghost i = indent as nat;
    let ghost mut cur = done;
    let UpdateBuilder { target, withs, filter, values } = s;
    let ghost ws = withs@;
    render_withs(withs, q, ctx, indent, Ghost(o), Ghost(cur));
    proof {
        cur = cur + pieces_withs(ws, i);
    }
    put_line(q, ctx, "update ", indent, Ghost(o), Ghost(cur));
    put(q, ctx, target.as_str(), Ghost(o), Ghost(cur + line(i, "update "@)));
    put(q, ctx, "\n", Ghost(o), Ghost(cur + line(i, "update "@) + lit(target@)));
    proof {
        cur = cur + line(i, "update "@) + lit(target@) + lit("\n"@);
    }
    let ghost fl = filter;
    render_filter_clause(filter, q, ctx, indent, Ghost(o), Ghost(cur));
    proof {
        cur = cur + pieces_filter_clause(fl, i);
    }
    put(q, ctx, "\n", Ghost(o), Ghost(cur));
    put_line(q, ctx, "set ", indent, Ghost(o), Ghost(cur + lit("\n"@)));
    proof {
        cur = cur + lit("\n"@) + line(i, "set "@);
    }
    let ghost vs = values@;
    render_object(values, q, ctx, indent, Ghost(o), Ghost(cur));
    proof {
        cur = cur + (lit("{"@) + pieces_assignments(vs, i) + lit("\n"@) + line(i, "}"@));
    }
    assert(cur =~= done + pieces_update(s, i));
}

fn render_forin(
    s: ForInBuilder,
    q: &mut String,
    ctx: &mut Context,
    indent: usize,
    Ghost(o): Ghost<Origin>,
    Ghost(done): Ghost<Seq<Piece>>,
)
    requires
        complete_withs(s.withs@),
        s.expr is Some,
        complete(*s.expr->Some_0),
        tracks(old(q)@, old(ctx)@, o, done),
    ensures
        tracks(final(q)@, final(ctx)@, o, done + pieces_forin(s, indent as nat)),
    decreases s,
{
    let ghost i = indent as nat;
    let ghost mut cur = done;
    let ForInBuilder { arr, elem, withs, expr } = s;
    let ghost ws = withs@;
    render_withs(withs, q, ctx, indent, Ghost(o), Ghost(cur));
    proof {
        cur = cur + pieces_withs(ws, i);
    }
    put_line(q, ctx, "for ", indent, Ghost(o), Ghost(cur));
    proof {
        cur = cur + line(i, "for "@);
    }
    put(q, ctx, elem.as_str(), Ghost(o), Ghost(cur));
    put(q, ctx, " in ", Ghost(o), Ghost(cur + lit(elem@)));
    put(q, ctx, arr.as_str(), Ghost(o), Ghost(cur + lit(elem@) + lit(" in "@)));
    put(q, ctx, " union (\n", Ghost(o), Ghost(cur + lit(elem@) + lit(" in "@) + lit(arr@)));
    proof {
        cur = cur + lit(elem@) + lit(" in "@) + lit(arr@) + lit(" union (\n"@);
    }
    match expr {
        Some(e) => {
            let ghost ee = *e;
            render_expr(*e, q, ctx, deeper(indent), Ghost(o), Ghost(cur));
            proof {
                cur = cur + pieces(ee, nest(i));
            }
        },
        None => {},
    }
    put(q, ctx, "\n", Ghost(o), Ghost(cur));
    put_line(q, ctx, ")", indent, Ghost(o), Ghost(cur + lit("\n"@)));
    proof {
        cur = cur + lit("\n"@) + line(i, ")"@);
    }
    assert(cur =~= done + pieces_forin(s, i));
}

fn render_group(
    g: GroupBuilder,
    q: &mut String,
    ctx: &mut Context,
    indent: usize,
    Ghost(o): Ghost<Origin>,
    Ghost(done): Ghost<Seq<Piece>>,
)
    requires
        tracks(old(q)@, old(ctx)@, o, done),
    ensures
        tracks(final(q)@, final(ctx)@, o, done + pieces_group(g, indent as nat)),
{
    let ghost i = indent as nat;
    let d = deeper(indent);
    put_line(q, ctx, "group ", indent, Ghost(o), Ghost(done));
    put(q, ctx, g.target.as_str(), Ghost(o), Ghost(done + line(i, "group "@)));
    let ghost mut cur = done + line(i, "group "@) + lit(g.target@);
    if g.fields.unicode_len() > 0 {
        put(q, ctx, " { ", Ghost(o), Ghost(cur));
        put(q, ctx, g.fields.as_str(), Ghost(o), Ghost(cur + lit(" { "@)));
        put(q, ctx, " }", Ghost(o), Ghost(cur + lit(" { "@) + lit(g.fields@)));
        proof {
            cur = cur + lit(" { "@) + lit(g.fields@) + lit(" }"@);
        }
    }
    if g.using.len() > 0 {
        put(q, ctx, "\n", Ghost(o), Ghost(cur));
        put_line(q, ctx, "using", indent, Ghost(o), Ghost(cur + lit("\n"@)));
        put(q, ctx, "\n", Ghost(o), Ghost(cur + lit("\n"@) + line(i, "using"@)));
        proof {
            cur = cur + lit("\n"@) + line(i, "using"@) + lit("\n"@);
        }
        put_joined(q, ctx, &g.using, d, Ghost(o), Ghost(cur));
        proof {
            cur = cur + line(nest(i), join(string_views(g.using@), ", "@));
        }
    }
    put(q, ctx, "\n", Ghost(o), Ghost(cur));
    put_line(q, ctx, "by", indent, Ghost(o), Ghost(cur + lit("\n"@)));
    put(q, ctx, "\n", Ghost(o), Ghost(cur + lit("\n"@) + line(i, "by"@)));
    proof {
        cur = cur + lit("\n"@) + line(i, "by"@) + lit("\n"@);
    }
    put_joined(q, ctx, &g.by, d, Ghost(o), Ghost(cur));
    proof {
        cur = cur + line(nest(i), join(string_views(g.by@), ", "@));
    }
    assert(cur =~= done + pieces_group(g, i));
}

impl Expr {
    /// True when every binding in the expression has something bound and
    /// every loop has a body, so that it can be rendered.
    pub fn is_complete(&self) -> (r: bool)
        ensures
            r == complete(*self),
    {
        check_expr(self)
    }
}

fn check_expr(e: &Expr) -> (r: bool)
    ensures
        r == complete(*e),
    decreases e,
{
    match e {
        Expr::Select(s) => check_select(s),
        Expr::Insert(s) => check_insert(s),
        Expr::Update(s) => check_withs(&s.withs) && check_values(&s.values),
        Expr::ForIn(s) => check_withs(&s.withs) && match &s.expr {
            Some(x) => check_expr(x),
            None => false,
        },
        Expr::With(w) => check_with(w),
        Expr::Field(f) => check_field(f),
        Expr::OnConflict(c) => check_on_conflict(c),
        _ => true,
    }
}

fn check_select(s: &SelectBuilder) -> (r: bool)
    ensures
        r == complete_select(*s),
    decreases s,
{
    check_withs(&s.withs) && check_fields(&s.fields) && match &s.expr {
        Some(x) => check_expr(x),
        None => true,
    }
}

fn check_insert(s: &InsertBuilder) -> (r: bool)
    ensures
        r == complete_insert(*s),
    decreases s,
{
    check_withs(&s.withs) && check_values(&s.values) && match &s.on_conflict {
        Some(c) => check_on_conflict(c),
        None => true,
    }
}

fn check_on_conflict(c: &OnConflict) -> (r: bool)
    ensures
        r == complete_on_conflict(*c),
    decreases c,
{
    match &c.else_expr {
        Some(x) => check_expr(x),
        None => true,
    }
}

fn check_with(w: &With) -> (r: bool)
    ensures
        r == complete_with(*w),
    decreases w,
{
    match &w.x {
        Some(ArgOrExpr::Arg(_)) => true,
        Some(ArgOrExpr::Expr(x)) => check_expr(x),
        None => false,
    }
}

fn check_withs(ws: &Vec<With>) -> (r: bool)
    ensures
        r == complete_withs(ws@),
    decreases ws,
{
    let mut k: usize = 0;
    assert(ws@.take(0) =~= Seq::<With>::empty());
    while k < ws.len()
        invariant
            k <= ws@.len(),
            complete_withs(ws@.take(k as int)),
        decreases ws@.len() - k,
    {
        if !check_with(&ws[k]) {
            proof {
                lemma_withs_prefix(ws@, k as int);
            }
            return false;
        }
        assert(ws@.take(k + 1).drop_last() =~= ws@.take(k as int));
        k = k + 1;
    }
    assert(ws@.take(k as int) =~= ws@);
    true
}

fn check_field(f: &Field) -> (r: bool)
    ensures
        r == complete_field(*f),
    decreases f,
{
    match &f.fields {
        FieldType::Expr(x) => check_expr(x),
        FieldType::Field(v) => check_fields(v),
        _ => true,
    }
}

fn check_fields(fs: &Vec<Field>) -> (r: bool)
    ensures
        r == complete_fields(fs@),
    decreases fs,
{
    let mut k: usize = 0;
    assert(fs@.take(0) =~= Seq::<Field>::empty());
    while k < fs.len()
        invariant
            k <= fs@.len(),
            complete_fields(fs@.take(k as int)),
        decreases fs@.len() - k,
    {
        if !check_field(&fs[k]) {
            proof {
                lemma_fields_prefix(fs@, k as int);
            }
            return false;
        }
        assert(fs@.take(k + 1).drop_last() =~= fs@.take(k as int));
        k = k + 1;
    }
    assert(fs@.take(k as int) =~= fs@);
    true
}

fn check_values(vs: &Vec<(String, ArgOrExpr)>) -> (r: bool)
    ensures
        r == complete_values(vs@),
    decreases vs,
{
    let mut k: usize = 0;
    assert(vs@.take(0) =~= Seq::<(String, ArgOrExpr)>::empty());
    while k < vs.len()
        invariant
            k <= vs@.len(),
            complete_values(vs@.take(k as int)),
        decreases vs@.len() - k,
    {
        let ok = match &vs[k].1 {
            ArgOrExpr::Arg(_) => true,
            ArgOrExpr::Expr(x) => check_expr(x),
        };
        if !ok {
            proof {
                lemma_values_prefix(vs@, k as int);
            }
            return false;
        }
        assert(vs@.take(k + 1).drop_last() =~= vs@.take(k as int));
        k = k + 1;
    }
    assert(vs@.take(k as int) =~= vs@);
    true
}

proof fn lemma_withs_prefix(ws: Seq<With>, k: int)
    requires
        0 <= k < ws.len(),
        !complete_with(ws[k]),
    ensures
        !complete_withs(ws),
    decreases ws.len(),
{
    if k < ws.len() - 1 {
        lemma_withs_prefix(ws.drop_last(), k);
    }
}

proof fn lemma_fields_prefix(fs: Seq<Field>, k: int)
    requires
        0 <= k < fs.len(),
        !complete_field(fs[k]),
    ensures
        !complete_fields(fs),
    decreases fs.len(),
{
    if k < fs.len() - 1 {
        lemma_fields_prefix(fs.drop_last(), k);
    }
}

proof fn lemma_values_prefix(vs: Seq<(String, ArgOrExpr)>, k: int)
    requires
        0 <= k < vs.len(),
        !match vs[k].1 {
            ArgOrExpr::Arg(_) => true,
            ArgOrExpr::Expr(x) => complete(*x),
        },
    ensures
        !complete_values(vs),
    decreases vs.len(),
{
    if k < vs.len() - 1 {
        lemma_values_prefix(vs.drop_last(), k);
    }
}

} // verus!
