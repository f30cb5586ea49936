//! Properties that hold of every rendering, stated over the piece model.
use vstd::prelude::*;

use crate::expr::Expr;
use crate::field::{nested, Field};
use crate::filter::{and_or_text, AndOr, Filter, Operand};
use crate::render::{
    count_slot, line, lit, pieces, pieces_filter, pieces_operand, pieces_ops, pieces_paging, slot,
};
use crate::text::{
    lemma_concat, lemma_text_piece, law_slots_numbered, nest, payloads, placeholder, slot_count,
    spaces, text_of,
};

verus! {

/// Rendering any node from scratch numbers its placeholders 0, 1, 2, ... in
/// order of appearance: the slot at position `j` is written `<tag>$N`, where
/// `N` is the number of slots before it, and the `N`-th parameter is the
/// value bound there. There are exactly as many parameters as slots.
pub proof fn law_placeholders_match_parameters(e: Expr, j: int)
    requires
        0 <= j < pieces(e, 0).len(),
        pieces(e, 0)[j] is Slot,
    ensures
        ({
            let ps = pieces(e, 0);
            let n = slot_count(ps.take(j));
            &&& payloads(ps).len() == slot_count(ps)
            &&& text_of(ps, 0) == text_of(ps.take(j), 0) + placeholder(ps[j]->Slot_0, n) + text_of(
                ps.skip(j + 1),
                n + 1,
            )
            &&& payloads(ps)[n as int] == ps[j]->Slot_1
        }),
{
    law_slots_numbered(pieces(e, 0), 0, j);
}

/// Where no literal text and no type tag of a node holds a `$`, the text that
/// rendering it from scratch gives holds exactly one `$` per parameter: the
/// placeholders are the only ones, one per bound value.
pub proof fn law_placeholder_tokens_count_parameters(e: Expr)
    requires
        crate::text::dollar_free(pieces(e, 0)),
    ensures
        crate::text::count_char(text_of(pieces(e, 0), 0), '$') == payloads(pieces(e, 0)).len(),
{
    crate::text::law_one_dollar_per_parameter(pieces(e, 0), 0);
}

/// A `*` splat renders `*,` and a `**` splat `**,`, whatever the indent; an
/// entry with a name and no payload renders `name,` at its indent.
pub proof fn law_field_forms(f: Field, indent: nat, base: nat)
    ensures
        f.name is None && f.fields is SingleSplat ==> text_of(pieces(Expr::Field(f), indent), base)
            == "*,"@,
        f.name is None && f.fields is DoubleSplat ==> text_of(pieces(Expr::Field(f), indent), base)
            == "**,"@,
        f.name is Some && f.fields is Field && nested(f).len() == 0 ==> text_of(
            pieces(Expr::Field(f), indent),
            base,
        ) == spaces(indent) + f.name->Some_0@ + ","@,
{
    let ps = pieces(Expr::Field(f), indent);
    if f.name is None && f.fields is SingleSplat {
        assert(ps =~= lit("*,"@));
        lemma_text_piece("*,"@, base);
    }
    if f.name is None && f.fields is DoubleSplat {
        assert(ps =~= lit("**,"@));
        lemma_text_piece("**,"@, base);
    }
    if f.name is Some && f.fields is Field && nested(f).len() == 0 {
        let head = spaces(indent) + f.name->Some_0@;
        assert(ps =~= lit(head) + lit(","@));
        lemma_concat(lit(head), lit(","@), base);
        lemma_text_piece(head, base);
        lemma_text_piece(","@, base + payloads(lit(head)).len());
    }
}

/// A leaf condition after the text in front of it: the template's text
/// before the marker, the slot, the text after it.
pub open spec fn leaf_body(op: Operand) -> Seq<crate::text::Piece> {
    match op {
        Operand::Leaf(c) => lit(c.before@) + slot(c.arg) + lit(c.after@),
        Operand::Nested(_) => Seq::empty(),
    }
}

/// A leaf condition that follows a joiner: on its own line at `indent`.
pub open spec fn leaf_line(op: Operand, indent: nat) -> Seq<crate::text::Piece> {
    match op {
        Operand::Leaf(c) => line(indent, c.before@) + slot(c.arg) + lit(c.after@),
        Operand::Nested(_) => Seq::empty(),
    }
}

/// `and` or `or` between two operands, ending the line.
pub open spec fn joiner_pieces(a: AndOr) -> Seq<crate::text::Piece> {
    lit(" "@) + lit(and_or_text(a)) + lit("\n"@)
}

/// Every operand of `ops` is a leaf condition.
pub open spec fn all_leaves(ops: Seq<(AndOr, Operand)>) -> bool {
    forall|k: int| 0 <= k < ops.len() ==> (#[trigger] ops[k]).1 is Leaf
}

/// Leaf conditions one after another: the first after `indent` spaces, each
/// later one after its joiner, on a line of its own at `indent`.
pub open spec fn leaves_chain(ops: Seq<(AndOr, Operand)>, indent: nat) -> Seq<
    crate::text::Piece,
>
    decreases ops.len(),
{
    if ops.len() == 0 {
        Seq::empty()
    } else if ops.len() == 1 {
        lit(spaces(indent)) + leaf_body(ops[0].1)
    } else {
        leaves_chain(ops.drop_last(), indent) + joiner_pieces(ops.last().0) + leaf_line(
            ops.last().1,
            indent,
        )
    }
}

proof fn lemma_leaves_chain(ops: Seq<(AndOr, Operand)>, indent: nat)
    requires
        all_leaves(ops),
    ensures
        pieces_ops(ops, indent, false) == leaves_chain(ops, nest(indent)),
    decreases ops.len(),
{
    if ops.len() > 0 {
        let init = ops.drop_last();
        assert(all_leaves(init)) by {
            assert forall|k: int| 0 <= k < init.len() implies (#[trigger] init[k]).1 is Leaf by {
                assert(init[k] == ops[k]);
            }
        }
        lemma_leaves_chain(init, indent);
        assert(ops.last() == ops[ops.len() - 1]);
        let last = ops.last().1;
        if ops.len() == 1 {
            assert(init =~= Seq::<(AndOr, Operand)>::empty());
            assert(ops[0] == ops.last());
            assert(pieces_operand(last, true, ops.last().0, indent, false) =~= lit(
                spaces(nest(indent)),
            ) + leaf_body(last));
            assert(pieces_ops(ops, indent, false) =~= leaves_chain(ops, nest(indent)));
        } else {
            assert(pieces_operand(last, false, ops.last().0, indent, false) =~= joiner_pieces(
                ops.last().0,
            ) + leaf_line(last, nest(indent)));
            assert(pieces_ops(ops, indent, false) =~= leaves_chain(ops, nest(indent)));
        }
    }
}

/// Leaf conditions at top level, any number of them: each stands on its own
/// line one level deeper, a joiner stands between each two neighbours and
/// nowhere else, and no parenthesis is added.
pub proof fn law_leaves_top_level(f: Filter, indent: nat)
    requires
        f.not is None,
        f.func is None,
        all_leaves(f.qs@),
    ensures
        pieces(Expr::Filter(f), indent) == leaves_chain(f.qs@, nest(indent)),
{
    lemma_leaves_chain(f.qs@, indent);
    assert(pieces(Expr::Filter(f), indent) =~= pieces_ops(f.qs@, indent, false));
}

proof fn lemma_wrapped_ops(ops: Seq<(AndOr, Operand)>, indent: nat)
    requires
        ops.len() > 0,
        ops[0].1 is Leaf,
    ensures
        pieces_ops(ops, indent, false).len() > 0,
        pieces_ops(ops, indent, false)[0] == crate::text::Piece::Text(spaces(nest(indent))),
        pieces_ops(ops, indent, true) == line(nest(indent), "("@) + pieces_ops(
            ops,
            indent,
            false,
        ).skip(1),
    decreases ops.len(),
{
    let init = ops.drop_last();
    let last = ops.last();
    if ops.len() == 1 {
        assert(init =~= Seq::<(AndOr, Operand)>::empty());
        assert(pieces_ops(init, indent, true) == Seq::<crate::text::Piece>::empty());
        assert(pieces_ops(init, indent, false) == Seq::<crate::text::Piece>::empty());
        assert(last == ops[0]);
        let c = last.1->Leaf_0;
        assert(pieces_operand(last.1, true, last.0, indent, false) =~= lit(spaces(nest(indent)))
            + lit(c.before@) + slot(c.arg) + lit(c.after@));
        assert(pieces_operand(last.1, true, last.0, indent, true) =~= line(nest(indent), "("@)
            + lit(c.before@) + slot(c.arg) + lit(c.after@));
        assert(pieces_ops(ops, indent, false) =~= lit(spaces(nest(indent))) + lit(c.before@) + slot(
            c.arg,
        ) + lit(c.after@));
        assert(pieces_ops(ops, indent, true) =~= line(nest(indent), "("@) + lit(c.before@) + slot(
            c.arg,
        ) + lit(c.after@));
        assert(pieces_ops(ops, indent, false).skip(1) =~= lit(c.before@) + slot(c.arg) + lit(
            c.after@,
        ));
        assert(pieces_ops(ops, indent, true) =~= line(nest(indent), "("@) + pieces_ops(
            ops,
            indent,
            false,
        ).skip(1));
    } else {
        assert(init[0] == ops[0]);
        lemma_wrapped_ops(init, indent);
        let x = pieces_operand(last.1, false, last.0, indent, false);
        assert(pieces_operand(last.1, false, last.0, indent, true) == x);
        let a = pieces_ops(init, indent, false);
        assert(pieces_ops(ops, indent, false) == a + x);
        assert((a + x).skip(1) =~= a.skip(1) + x);
        assert(pieces_ops(ops, indent, true) =~= line(nest(indent), "("@) + pieces_ops(
            ops,
            indent,
            false,
        ).skip(1));
    }
}

/// A predicate that is an operand of another, with any number of operands
/// of which the first is a leaf: it renders as it would at top level, with
/// one parenthesis opened in front of the first operand, after the indent,
/// and one closed after the last operand, and no other parenthesis added.
pub proof fn law_wrapped_filter(f: Filter, indent: nat)
    requires
        f.not is None,
        f.func is None,
        f.qs@.len() > 0,
        f.qs@[0].1 is Leaf,
    ensures
        pieces_filter(f, indent, false)[0] == crate::text::Piece::Text(spaces(nest(indent))),
        pieces_filter(f, indent, true) == line(nest(indent), "("@) + pieces_filter(
            f,
            indent,
            false,
        ).skip(1) + lit(")"@),
{
    lemma_wrapped_ops(f.qs@, indent);
    assert(pieces_filter(f, indent, false) =~= pieces_ops(f.qs@, indent, false));
    assert(pieces_filter(f, indent, true) =~= pieces_ops(f.qs@, indent, true) + lit(")"@));
}

/// Negation and a function wrapper share one pair of parentheses:
/// `not func(` on the first line, the operands, then `)` on the last. (A
/// predicate that is itself an operand closes its own pair before that.)
pub proof fn law_not_func_single_wrapper(f: Filter, indent: nat, wrapped: bool)
    requires
        f.not is Some,
        f.func is Some,
    ensures
        pieces_filter(f, indent, wrapped) == line(indent, "not"@) + lit(" "@) + lit(
            f.func->Some_0@,
        ) + lit("(\n"@) + pieces_ops(f.qs@, indent, wrapped) + (if wrapped && f.qs@.len() > 0 {
            lit(")"@)
        } else {
            Seq::empty()
        }) + lit("\n"@) + line(indent, ")"@),
{
}

/// Skipping zero rows writes no `offset` clause, as if nothing were skipped;
/// taking zero rows still writes `limit` with a bound count of zero. A
/// `select` ends with these clauses (`lemma_select_parts`).
pub proof fn law_paging_edges(skip: Option<usize>, take: Option<usize>, indent: nat)
    ensures
        pieces_paging(Some(0), take, indent) == pieces_paging(None, take, indent),
        pieces_paging(skip, Some(0), indent) == pieces_paging(skip, None, indent) + lit("\n"@)
            + line(indent, "limit "@) + count_slot(0),
{
    assert(pieces_paging(Some(0), take, indent) =~= pieces_paging(None, take, indent));
    assert(pieces_paging(skip, Some(0), indent) =~= pieces_paging(skip, None, indent) + lit("\n"@)
        + line(indent, "limit "@) + count_slot(0));
}

/// A copy made by `clone` renders the same text and binds the same
/// parameters as the original, at every indent and after any number of
/// parameters already bound; and it can be rendered exactly when the
/// original can.
pub proof fn law_copy_renders_same(copy: Expr, original: Expr)
    requires
        crate::copy::same_expr(copy, original),
    ensures
        forall|i: nat, base: nat| #[trigger] text_of(pieces(copy, i), base) == text_of(
            pieces(original, i),
            base,
        ),
        forall|i: nat| #[trigger] payloads(pieces(copy, i)) == payloads(pieces(original, i)),
        crate::render::complete(copy) == crate::render::complete(original),
{
    assert forall|i: nat, base: nat| #[trigger] text_of(pieces(copy, i), base) == text_of(
        pieces(original, i),
        base,
    ) by {
        assert(pieces(copy, i) == pieces(original, i));
    }
    assert forall|i: nat| #[trigger] payloads(pieces(copy, i)) == payloads(pieces(original, i)) by {
        assert(pieces(copy, i) == pieces(original, i));
    }
}

} // verus!
