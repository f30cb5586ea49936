use edgedb_protocol::value::Value as Payload;
use query_builder::{
    backlink, collection_value, do_nothing, filter, forin, group, insert, on_conflict, order_by,
    raw, select, select_expr, update, with, with_expr, AndOr, Context, Field, Filter, IntoValue,
    OrderDirection, ToQuery, ValueError, With, AND, ASC, DESC, NOT, OR,
};

fn id_title() -> Vec<Field> {
    vec![Field::new(Some("id")), Field::new(Some("title"))]
}

#[test]
fn select_with_filter_renders_bool_slot() {
    let (text, ctx) = select("Book", id_title())
        .filter(filter().add(AND, ".released = $?", true))
        .to_query();
    assert_eq!(text, "select Book {\n  id,\n  title,\n}\nfilter\n  .released = <bool>$0");
    assert_eq!(ctx.into_values(), vec![Payload::Bool(true)]);
}

#[test]
fn insert_with_do_nothing_has_bare_unless_conflict() {
    let (text, ctx) = insert("Book").set("title", "t").on_conflict(do_nothing()).to_query();
    assert_eq!(text, "insert Book {\n  title := <str>$0,\n}\nunless conflict");
    assert_eq!(ctx.into_values(), vec![Payload::Str("t".to_string())]);
}

#[test]
fn insert_on_conflict_with_field_and_else() {
    let (text, ctx) = insert("Book")
        .set("title", "t")
        .set_expr("tags", select("Tag", vec![Field::new(Some("id"))]))
        .on_conflict(on_conflict().field("title").else_expr(raw("Book")))
        .to_query();
    assert_eq!(
        text,
        "insert Book {\n  title := <str>$0,\n  tags := (\n    select Tag {\n      id,\n    }\n  ),\n}\nunless conflict on title\nelse (\n  Book\n)"
    );
    assert_eq!(ctx.len(), 1);
}

#[test]
fn on_conflict_with_field_only_stays_bare() {
    let (text, _) = insert("Book").on_conflict(on_conflict().field("title")).to_query();
    assert_eq!(text, "insert Book {\n}\nunless conflict");
}

#[test]
fn skip_zero_writes_no_offset() {
    let (text, ctx) = select("Book", vec![]).skip(0).to_query();
    assert_eq!(text, "select Book");
    assert_eq!(ctx.len(), 0);
}

#[test]
fn take_zero_still_writes_limit() {
    let (text, ctx) = select("Book", vec![]).take(0).to_query();
    assert_eq!(text, "select Book\nlimit <int32>$0");
    assert_eq!(ctx.into_values(), vec![Payload::Int32(0)]);
}

#[test]
fn skip_and_take_bind_counts_in_order() {
    let (text, ctx) = select("Book", vec![]).skip(3).take(5).to_query();
    assert_eq!(text, "select Book\noffset <int32>$0\nlimit <int32>$1");
    assert_eq!(ctx.into_values(), vec![Payload::Int32(3), Payload::Int32(5)]);
}

#[test]
fn empty_collection_is_an_error() {
    let r = collection_value(Vec::<i32>::new());
    assert!(matches!(r, Err(ValueError::EmptyCollection)));
    assert_eq!(
        ValueError::EmptyCollection.message(),
        "cannot convert empty collection to a query value"
    );
}

#[test]
fn collection_is_a_set_tagged_by_its_elements() {
    let v = collection_value(vec![1i32, 2, 3]).unwrap();
    assert_eq!(v.kind, "int32");
    assert_eq!(
        v.inner,
        Payload::Set(vec![Payload::Int32(1), Payload::Int32(2), Payload::Int32(3)])
    );
}

#[test]
fn splats_and_plain_names() {
    let mut ctx = Context::new();
    assert_eq!(Field::new(None).single_splat().to_query_with_indent(&mut ctx, 4), "*,");
    assert_eq!(Field::new(None).double_splat().to_query_with_indent(&mut ctx, 4), "**,");
    assert_eq!(Field::new(Some("name")).to_query_with_indent(&mut ctx, 4), "    name,");
    assert_eq!(ctx.len(), 0);
}

#[test]
fn three_leaves_top_level_and_nested() {
    let leaves = || {
        filter()
            .add(AND, "a = $?", 1)
            .add(AND, "b = $?", 2)
            .add(AND, "c = $?", 3)
    };
    let (top, _) = leaves().to_query();
    assert_eq!(top, "  a = <int32>$0 and\n  b = <int32>$1 and\n  c = <int32>$2");
    assert_eq!(top.matches(" and").count(), 2);
    assert_eq!(top.matches('(').count(), 0);
    assert_eq!(top.matches(')').count(), 0);

    let two = filter().add(AND, "a = $?", 1).add(OR, "b = $?", 2);
    let (nested, _) = filter().add_filter(AND, two).to_query();
    assert_eq!(nested, "  (a = <int32>$0 or\n  b = <int32>$1)");

    let (nested3, _) = filter().add_filter(AND, leaves()).to_query();
    assert_eq!(nested3, "  (a = <int32>$0 and\n  b = <int32>$1 and\n  c = <int32>$2)");
    assert_eq!(nested3.matches('(').count(), 1);
    assert_eq!(nested3.matches(')').count(), 1);

    let (after_leaf, ctx) = filter().add(AND, "x = $?", 0).add_filter(AND, leaves()).to_query();
    assert_eq!(
        after_leaf,
        "  x = <int32>$0 and\n  (a = <int32>$1 and\n  b = <int32>$2 and\n  c = <int32>$3)"
    );
    assert_eq!(ctx.len(), 4);

    let inner = filter().add(AND, "a = $?", 1).add(OR, "b = $?", 2);
    let (deep, _) = filter().add_filter(AND, filter().add_filter(AND, inner)).to_query();
    assert_eq!(deep, "  (\n  (a = <int32>$0 or\n  b = <int32>$1))");

    let (single, _) = filter().add_filter(AND, filter().add(AND, "a = $?", 1)).to_query();
    assert_eq!(single, "  (a = <int32>$0)");
}

#[test]
fn not_and_function_share_one_wrapper() {
    let (text, _) = filter().negate().func("exists").add(AND, ".x = $?", 1).to_query();
    assert_eq!(text, "not exists(\n  .x = <int32>$0\n)");
    let (text, _) = Filter::new(Some(NOT)).add(AND, ".x = $?", 1).to_query();
    assert_eq!(text, "not (\n  .x = <int32>$0\n)");
    let (text, _) = filter().func("all").add(AND, ".x = $?", 1).to_query();
    assert_eq!(text, "all(\n  .x = <int32>$0\n)");
}

#[test]
fn placeholders_are_numbered_in_order() {
    let (text, ctx) = select("Book", id_title())
        .with(with("a", 7i64))
        .filter(
            filter()
                .add(AND, ".x = $?", "s")
                .add(OR, ".y = $?", false),
        )
        .take(2)
        .to_query();
    assert_eq!(text.matches('$').count(), ctx.len());
    for (n, (at, _)) in text.match_indices('$').enumerate() {
        let digits: String = text[at + 1..].chars().take_while(|c| c.is_ascii_digit()).collect();
        assert_eq!(digits, n.to_string());
    }
    assert_eq!(
        ctx.into_values(),
        vec![
            Payload::Int64(7),
            Payload::Str("s".to_string()),
            Payload::Bool(false),
            Payload::Int32(2)
        ]
    );
}

#[test]
fn with_block_and_distinct_and_order() {
    let (text, _) = select("Book", vec![Field::new(Some("id"))])
        .with(with("n", 1i16))
        .with(with_expr("t", raw("Tag")))
        .distinct(true)
        .order_by(order_by(".title", Some(DESC)))
        .order_by(order_by(".id", None))
        .to_query();
    assert_eq!(
        text,
        "with\n  n := <int16>$0,\n  t := (\n    Tag\n  ),\nselect distinct Book {\n  id,\n}\norder by\n  .title desc then\n  .id"
    );
}

#[test]
fn select_expr_wraps_in_parentheses() {
    let (text, _) = select_expr(raw("1 + 1")).to_query();
    assert_eq!(text, "select  (\n  1 + 1\n)");
}

#[test]
fn empty_filter_writes_no_clause() {
    let (text, _) = select("Book", vec![]).filter(filter()).to_query();
    assert_eq!(text, "select Book");
    let (text, _) = update("Book").set("n", 1).to_query();
    assert_eq!(text, "update Book\n\nset {\n  n := <int32>$0,\n}");
}

#[test]
fn forin_renders_loop() {
    let (text, ctx) = forin("names", "n")
        .with(with("names", "x"))
        .expr(insert("Tag").set_expr("name", raw("n")))
        .to_query();
    assert_eq!(
        text,
        "with\n  names := <str>$0,\nfor n in names union (\n  insert Tag {\n    name := (\n      n\n    ),\n  }\n)"
    );
    assert_eq!(ctx.len(), 1);
}

#[test]
fn group_renders_using_and_by() {
    let (text, ctx) = group("Book", "title")
        .using("k := .kind")
        .using("r := .released")
        .group_by("k")
        .group_by("r")
        .to_query();
    assert_eq!(
        text,
        "group Book { title }\nusing\n  k := .kind, r := .released\nby\n  k, r"
    );
    assert_eq!(ctx.len(), 0);
    let (text, _) = group("Book", "").group_by("k").to_query();
    assert_eq!(text, "group Book\nby\n  k");
}

#[test]
fn tuples_are_tagged_by_their_elements() {
    let v = (1i32, "a").into_value();
    assert_eq!(v.kind, "tuple<int32, str>");
    assert_eq!(
        v.inner,
        Payload::Tuple(vec![Payload::Int32(1), Payload::Str("a".to_string())])
    );
    assert_eq!((true,).into_value().kind, "tuple<bool>");
    assert_eq!((1u8, 2u16, 3u32, 4u64).into_value().kind, "tuple<int16, int32, int64, int64>");
    assert_eq!(40000u16.into_value().inner, Payload::Int32(40000));
    assert_eq!(3_000_000_000u32.into_value().inner, Payload::Int64(3_000_000_000));
}

#[test]
fn scalars_get_their_tags() {
    assert_eq!(true.into_value().inner, Payload::Bool(true));
    assert_eq!(5i8.into_value().inner, Payload::Int16(5));
    assert_eq!(5i16.into_value().kind, "int16");
    assert_eq!(5i32.into_value().inner, Payload::Int32(5));
    assert_eq!(5i64.into_value().inner, Payload::Int64(5));
    assert_eq!(5u64.into_value().kind, "int64");
    assert_eq!("s".into_value().inner, Payload::Str("s".to_string()));
    assert_eq!(String::from("s").into_value().kind, "str");
    let d = edgedb_protocol::model::Datetime::UNIX_EPOCH;
    assert_eq!(d.into_value().kind, "datetime");
}

#[test]
fn keywords_and_backlink() {
    assert_eq!(AndOr::And.as_str(), "and");
    assert_eq!(AndOr::Or.as_str(), "or");
    assert_eq!(OrderDirection::Desc.as_str(), "desc");
    assert_eq!(ASC.as_str(), "asc");
    assert_eq!(backlink("tag", "book_tags", "Book"), "tag.<book_tags[is Book]");
}

#[test]
fn contexts_continue_numbering() {
    let mut ctx = Context::new();
    let a = with("a", 1).to_query_with_indent(&mut ctx, 0);
    let b = With::new("b").value("x").to_query_with_indent(&mut ctx, 2);
    assert_eq!(a, "a := <int32>$0");
    assert_eq!(b, "  b := <str>$1");
    assert_eq!(ctx.len(), 2);
}

#[test]
fn nested_field_with_expression_is_indented() {
    let f = Field::new(Some("book"))
        .nest(Field::new(Some("title")))
        .nest(Field::new(Some("n")).expr(raw("count(.x)")));
    let (text, _) = f.to_query();
    assert_eq!(text, "book: {\n  title,\n  n := (\n    count(.x)\n  )\n},");
}

#[test]
fn update_with_expression_and_optional_values() {
    let (text, ctx) = update("Book")
        .filter(filter().add_opt(AND, ".id = $?", Some(3)).add_opt(AND, ".x = $?", None::<i32>))
        .set_opt("a", Some(1))
        .set_opt("b", None::<i32>)
        .set_expr("c", raw(".c + 1"))
        .to_query();
    assert_eq!(
        text,
        "update Book\nfilter\n  .id = <int32>$0\nset {\n  a := <int32>$1,\n  c := (\n    .c + 1\n  ),\n}"
    );
    assert_eq!(ctx.len(), 2);
}

#[test]
fn completeness_is_checked() {
    assert!(!forin("a", "x").into_expr().is_complete());
    assert!(forin("a", "x").expr(raw("x")).into_expr().is_complete());
    assert!(!select("Book", vec![]).with(With::new("n")).into_expr().is_complete());
    assert!(select("Book", vec![]).with(with("n", 1)).into_expr().is_complete());
    let deep = Field::new(Some("f")).expr(forin("a", "x"));
    assert!(!select("Book", vec![deep]).into_expr().is_complete());
    assert!(!insert("Book").set_expr("a", forin("a", "x")).into_expr().is_complete());
}

#[test]
fn a_copy_renders_like_the_original() {
    let q = select("Book", id_title())
        .with(with_expr("t", insert("Tag").set("name", "x")))
        .filter(filter().add(AND, ".a = $?", 1).add_filter(OR, filter().add(AND, ".b = $?", 2).add(AND, ".c = $?", 3)))
        .order_by(order_by(".a", Some(ASC)))
        .take(1);
    let copy = q.clone();
    let (a, ca) = q.to_query();
    let (b, cb) = copy.to_query();
    assert_eq!(a, b);
    assert_eq!(ca.into_values(), cb.into_values());
}

#[test]
fn marker_is_found_at_its_first_place() {
    assert_eq!(query_builder::find_marker(".a = $? and .b = $?"), Some(5));
    assert_eq!(query_builder::find_marker(".a = $"), None);
    assert_eq!(query_builder::find_marker(""), None);
}
