use query_builder::{filter, raw, select, update, Field, Filter, ToQuery, AND, NOT};

fn shape_text(fields: Vec<Field>) -> String {
    let mut r = String::new();
    for field in fields {
        let mut ctx = query_builder::Context::new();
        r.push_str(&field.to_query_with_indent(&mut ctx, 0));
        r.push('\n');
    }
    r
}

fn sample_fields(first: Field) -> Vec<Field> {
    let another_fields = vec![Field::new(Some("id"))];
    vec![
        first,
        Field::new(Some("e")).nests(another_fields),
        Field::new(Some("aa")).expr(raw("(tag.name, tag.kind)")),
        Field::new(Some("book_tags"))
            .nest(Field::new(Some("kind")))
            .nest(Field::new(Some("name"))),
    ]
}

const SAMPLE_TAIL: &str = "e: {\n  id,\n},\naa := (\n  (tag.name, tag.kind)\n)\nbook_tags: {\n  kind,\n  name,\n},\n";

#[test]
fn field_print() {
    let r = shape_text(sample_fields(Field::new(Some("title"))));
    println!("{r}");
    assert_eq!(r, format!("title,\n{SAMPLE_TAIL}"));
}

#[test]
fn print_single_splat() {
    let r = shape_text(sample_fields(Field::new(None).single_splat()));
    println!("{r}");
    assert_eq!(r, format!("*,\n{SAMPLE_TAIL}"));
}

#[test]
fn print_double_splat() {
    let r = shape_text(sample_fields(Field::new(None).double_splat()));
    println!("{r}");
    assert_eq!(r, format!("**,\n{SAMPLE_TAIL}"));
}

#[test]
fn filter_print() {
    let (r, ctx) = Filter::new(Some(NOT))
        .func("any")
        .add(AND, ".uid = $?", 12345)
        .add(AND, ".title = $?", "arg".to_string())
        .add_filter(
            AND,
            Filter::new(None)
                .add(AND, ".kind = $?", "arg".to_string())
                .add(AND, ".name = $?", "arg".to_string()),
        )
        .to_query();
    println!("{r}");
    assert_eq!(
        r,
        "not any(\n  .uid = <int32>$0 and\n  .title = <str>$1 and\n  (.kind = <str>$2 and\n  .name = <str>$3)\n)"
    );
    assert_eq!(ctx.len(), 4);
}

#[test]
fn select_print() {
    let (r, ctx) = select("target", vec![Field::new(Some("id"))])
        .filter(filter().add(AND, "a = $?", 1))
        .to_query();
    println!("{r}");
    assert_eq!(r, "select target {\n  id,\n}\nfilter\n  a = <int32>$0");
    assert_eq!(ctx.len(), 1);
}

#[test]
fn update_print() {
    let (query, ctx) = update("Book")
        .filter(filter().add(AND, ".uid = $?", 1234))
        .set("released", true)
        .to_query();
    println!("{query}");
    assert_eq!(
        query,
        "update Book\nfilter\n  .uid = <int32>$0\nset {\n  released := <bool>$1,\n}"
    );
    assert_eq!(ctx.len(), 2);
}
