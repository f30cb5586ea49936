//! Host values converted into tagged query values.
use vstd::prelude::*;

use edgedb_protocol::model::Datetime;
use edgedb_protocol::value::Value as Payload;

verus! {

/// A point in time as the wire protocol carries it.
#[verifier::external_type_specification]
#[verifier::external_body]
pub struct ExDatetime(edgedb_protocol::model::Datetime);

/// A runtime value ready to be bound to a placeholder: its encoded payload,
/// and the type tag written in front of the placeholder as a cast.
#[derive(Debug)]
pub struct Value {
    pub inner: Payload,
    pub kind: String,
}

/// Why a host value could not become a query value.
#[derive(Debug, PartialEq, Eq, Structural)]
pub enum ValueError {
    /// A collection with no element has no element type to tag it with.
    EmptyCollection,
}

impl ValueError {
    /// A sentence that describes the error.
    pub fn message(&self) -> (r: String)
        ensures
            r@ == "cannot convert empty collection to a query value"@,
    {
        String::from_str("cannot convert empty collection to a query value")
    }
}

/// `parts` with `sep` between each two neighbours.
pub open spec fn join(parts: Seq<Seq<char>>, sep: Seq<char>) -> Seq<char>
    decreases parts.len(),
{
    if parts.len() == 0 {
        Seq::empty()
    } else if parts.len() == 1 {
        parts[0]
    } else {
        join(parts.drop_last(), sep) + sep + parts.last()
    }
}

/// The tag of a tuple whose elements carry `tags`.
pub open spec fn tuple_tag(tags: Seq<Seq<char>>) -> Seq<char> {
    "tuple<"@ + join(tags, ", "@) + ">"@
}

/// The views of `v`, in order.
pub open spec fn string_views(v: Seq<String>) -> Seq<Seq<char>> {
    v.map_values(|s: String| s@)
}

/// The payloads of `values`, in order.
pub open spec fn payloads_of(values: Seq<Value>) -> Seq<Payload> {
    values.map_values(|v: Value| v.inner)
}

/// The tags of `values`, in order.
pub open spec fn tags_of(values: Seq<Value>) -> Seq<Seq<char>> {
    values.map_values(|v: Value| v.kind@)
}

/// A host value that converts into a query value.
pub trait IntoValue: Sized {
    /// The tag that the converted value carries.
    spec fn value_tag(&self) -> Seq<char>;

    /// The payload that the converted value carries.
    spec fn value_payload(&self) -> Payload;

    fn into_value(self) -> (r: Value)
        ensures
            r.kind@ == self.value_tag(),
            r.inner == self.value_payload(),
    ;
}

/// The payload that edgedb_protocol's `Value::Bool` builds from `b`.
pub uninterp spec fn bool_payload(b: bool) -> Payload;

/// Relies on edgedb_protocol's `Value::Bool`, which `Value::kind` names "bool".
#[verifier::external_body]
fn bool_value(b: bool) -> (r: Value)
    ensures
        r.kind@ == "bool"@,
        r.inner == bool_payload(b),
{
    let inner = Payload::Bool(b);
    Value { kind: inner.kind().to_string(), inner }
}

/// The payload that edgedb_protocol's `Value::Int16` builds from `n`.
pub uninterp spec fn int16_payload(n: i16) -> Payload;

/// Relies on edgedb_protocol's `Value::Int16`, which `Value::kind` names "int16".
#[verifier::external_body]
fn int16_value(n: i16) -> (r: Value)
    ensures
        r.kind@ == "int16"@,
        r.inner == int16_payload(n),
{
    let inner = Payload::Int16(n);
    Value { kind: inner.kind().to_string(), inner }
}

/// The payload that edgedb_protocol's `Value::Int32` builds from `n`.
pub uninterp spec fn int32_payload(n: i32) -> Payload;

/// Relies on edgedb_protocol's `Value::Int32`, which `Value::kind` names "int32".
#[verifier::external_body]
pub(crate) fn int32_value(n: i32) -> (r: Value)
    ensures
        r.kind@ == "int32"@,
        r.inner == int32_payload(n),
{
    let inner = Payload::Int32(n);
    Value { kind: inner.kind().to_string(), inner }
}

/// The payload that edgedb_protocol's `Value::Int64` builds from `n`.
pub uninterp spec fn int64_payload(n: i64) -> Payload;

/// Relies on edgedb_protocol's `Value::Int64`, which `Value::kind` names "int64".
#[verifier::external_body]
fn int64_value(n: i64) -> (r: Value)
    ensures
        r.kind@ == "int64"@,
        r.inner == int64_payload(n),
{
    let inner = Payload::Int64(n);
    Value { kind: inner.kind().to_string(), inner }
}

/// The payload that edgedb_protocol's `Value::Str` builds from a string
/// holding `s`.
pub uninterp spec fn str_payload(s: Seq<char>) -> Payload;

/// Relies on edgedb_protocol's `Value::Str`, which `Value::kind` names "str".
#[verifier::external_body]
fn str_value(s: String) -> (r: Value)
    ensures
        r.kind@ == "str"@,
        r.inner == str_payload(s@),
{
    let inner = Payload::Str(s);
    Value { kind: inner.kind().to_string(), inner }
}

/// The payload that edgedb_protocol's `Value::Datetime` builds from `d`.
pub uninterp spec fn datetime_payload(d: Datetime) -> Payload;

/// Relies on edgedb_protocol's `Value::Datetime`, which `Value::kind` names "datetime".
#[verifier::external_body]
fn datetime_value(d: Datetime) -> (r: Value)
    ensures
        r.kind@ == "datetime"@,
        r.inner == datetime_payload(d),
{
    let inner = Payload::Datetime(d);
    Value { kind: inner.kind().to_string(), inner }
}

/// The payload that edgedb_protocol's `Value::Tuple` builds from `items`.
pub uninterp spec fn tuple_of(items: Seq<Payload>) -> Payload;

/// The payload that edgedb_protocol's `Value::Set` builds from `items`.
pub uninterp spec fn set_of(items: Seq<Payload>) -> Payload;

/// Relies on edgedb_protocol's `Value::Tuple`, which holds the elements' payloads in order.
#[verifier::external_body]
fn tuple_payload(items: Vec<Payload>) -> (r: Payload)
    ensures
        r == tuple_of(items@),
{
    Payload::Tuple(items)
}

/// Relies on edgedb_protocol's `Value::Set`, which holds the elements' payloads in order.
#[verifier::external_body]
fn set_payload(items: Vec<Payload>) -> (r: Payload)
    ensures
        r == set_of(items@),
{
    Payload::Set(items)
}

impl IntoValue for Value {
    open spec fn value_tag(&self) -> Seq<char> {
        self.kind@
    }

    open spec fn value_payload(&self) -> Payload {
        self.inner
    }

    fn into_value(self) -> (r: Value) {
        self
    }
}

impl IntoValue for bool {
    open spec fn value_tag(&self) -> Seq<char> {
        "bool"@
    }

    open spec fn value_payload(&self) -> Payload {
        bool_payload(*self)
    }

    fn into_value(self) -> (r: Value) {
        bool_value(self)
    }
}

impl IntoValue for i8 {
    open spec fn value_tag(&self) -> Seq<char> {
        "int16"@
    }

    open spec fn value_payload(&self) -> Payload {
        int16_payload(*self as i16)
    }

    fn into_value(self) -> (r: Value) {
        int16_value(self as i16)
    }
}

impl IntoValue for i16 {
    open spec fn value_tag(&self) -> Seq<char> {
        "int16"@
    }

    open spec fn value_payload(&self) -> Payload {
        int16_payload(*self)
    }

    fn into_value(self) -> (r: Value) {
        int16_value(self)
    }
}

impl IntoValue for i32 {
    open spec fn value_tag(&self) -> Seq<char> {
        "int32"@
    }

    open spec fn value_payload(&self) -> Payload {
        int32_payload(*self)
    }

    fn into_value(self) -> (r: Value) {
        int32_value(self)
    }
}

impl IntoValue for i64 {
    open spec fn value_tag(&self) -> Seq<char> {
        "int64"@
    }

    open spec fn value_payload(&self) -> Payload {
        int64_payload(*self)
    }

    fn into_value(self) -> (r: Value) {
        int64_value(self)
    }
}

impl IntoValue for u8 {
    open spec fn value_tag(&self) -> Seq<char> {
        "int16"@
    }

    open spec fn value_payload(&self) -> Payload {
        int16_payload(*self as i16)
    }

    fn into_value(self) -> (r: Value) {
        int16_value(self as i16)
    }
}

/// Bound as an `int32`, which holds every `u16`.
impl IntoValue for u16 {
    open spec fn value_tag(&self) -> Seq<char> {
        "int32"@
    }

    open spec fn value_payload(&self) -> Payload {
        int32_payload(*self as i32)
    }

    fn into_value(self) -> (r: Value) {
        int32_value(self as i32)
    }
}

/// Bound as an `int64`, which holds every `u32`.
impl IntoValue for u32 {
    open spec fn value_tag(&self) -> Seq<char> {
        "int64"@
    }

    open spec fn value_payload(&self) -> Payload {
        int64_payload(*self as i64)
    }

    fn into_value(self) -> (r: Value) {
        int64_value(self as i64)
    }
}

/// Bound as an `int64`: a value above `i64::MAX` wraps to a negative one.
impl IntoValue for u64 {
    open spec fn value_tag(&self) -> Seq<char> {
        "int64"@
    }

    open spec fn value_payload(&self) -> Payload {
        int64_payload(*self as i64)
    }

    fn into_value(self) -> (r: Value) {
        int64_value(self as i64)
    }
}

impl IntoValue for String {
    open spec fn value_tag(&self) -> Seq<char> {
        "str"@
    }

    open spec fn value_payload(&self) -> Payload {
        str_payload(self@)
    }

    fn into_value(self) -> (r: Value) {
        str_value(self)
    }
}

impl<'a> IntoValue for &'a str {
    open spec fn value_tag(&self) -> Seq<char> {
        "str"@
    }

    open spec fn value_payload(&self) -> Payload {
        str_payload(self@)
    }

    fn into_value(self) -> (r: Value) {
        str_value(String::from_str(self))
    }
}

impl IntoValue for Datetime {
    open spec fn value_tag(&self) -> Seq<char> {
        "datetime"@
    }

    open spec fn value_payload(&self) -> Payload {
        datetime_payload(*self)
    }

    fn into_value(self) -> (r: Value) {
        datetime_value(self)
    }
}

/// Appends `parts` to `q` with `sep` between each two neighbours.
pub(crate) fn push_joined(q: &mut String, parts: &Vec<String>, sep: &str)
    ensures
        final(q)@ == old(q)@ + join(string_views(parts@), sep@),
{
    let ghost views = string_views(parts@);
    let mut i: usize = 0;
    while i < parts.len()
        invariant
            i <= parts@.len(),
            views == string_views(parts@),
            q@ == old(q)@ + join(views.take(i as int), sep@),
        decreases parts@.len() - i,
    {
        if i > 0 {
            q.append(sep);
        }
        q.append(parts[i].as_str());
        proof {
            assert(views.take(i + 1).drop_last() =~= views.take(i as int));
            if i == 0 {
                assert(join(views.take(1), sep@) == views[0]);
            }
        }
        i = i + 1;
        assert(q@ =~= old(q)@ + join(views.take(i as int), sep@));
    }
    assert(views.take(parts@.len() as int) =~= views);
}

/// A tuple of the given values, tagged `tuple<t1, t2, ...>`.
fn tuple_value(items: Vec<Value>) -> (r: Value)
    ensures
        r.kind@ == tuple_tag(tags_of(items@)),
        r.inner == tuple_of(payloads_of(items@)),
{
    let ghost tags = tags_of(items@);
    let mut kinds: Vec<String> = Vec::new();
    let mut payloads: Vec<Payload> = Vec::new();
    let mut rest = items;
    let ghost n = rest@.len();
    while rest.len() > 0
        invariant
            n == items@.len(),
            kinds@.len() + rest@.len() == n,
            rest@ == items@.subrange(n - rest@.len(), n as int),
            string_views(kinds@) == tags.take(kinds@.len() as int),
            payloads@ == payloads_of(items@).take(kinds@.len() as int),
            payloads@.len() == kinds@.len(),
            tags == tags_of(items@),
        decreases rest@.len(),
    {
        let ghost k = kinds@.len();
        let v = rest.remove(0);
        kinds.push(v.kind);
        payloads.push(v.inner);
        proof {
            assert(v == items@[k as int]);
            assert(rest@ =~= items@.subrange(n - rest@.len(), n as int));
            assert(string_views(kinds@) =~= tags.take(kinds@.len() as int));
            assert(payloads@ =~= payloads_of(items@).take(kinds@.len() as int));
        }
    }
    assert(tags.take(kinds@.len() as int) =~= tags);
    assert(payloads_of(items@).take(kinds@.len() as int) =~= payloads_of(items@));
    let mut kind = String::from_str("tuple<");
    push_joined(&mut kind, &kinds, ", ");
    kind.append(">");
    Value { inner: tuple_payload(payloads), kind }
}

impl<A: IntoValue> IntoValue for (A,) {
    open spec fn value_tag(&self) -> Seq<char> {
        tuple_tag(seq![self.0.value_tag()])
    }

    open spec fn value_payload(&self) -> Payload {
        tuple_of(seq![self.0.value_payload()])
    }

    fn into_value(self) -> (r: Value) {
        let items = vec![self.0.into_value()];
        proof {
            assert(tags_of(items@) =~= seq![self.0.value_tag()]);
            assert(payloads_of(items@) =~= seq![self.0.value_payload()]);
        }
        tuple_value(items)
    }
}

impl<A: IntoValue, B: IntoValue> IntoValue for (A, B) {
    open spec fn value_tag(&self) -> Seq<char> {
        tuple_tag(seq![self.0.value_tag(), self.1.value_tag()])
    }

    open spec fn value_payload(&self) -> Payload {
        tuple_of(seq![self.0.value_payload(), self.1.value_payload()])
    }

    fn into_value(self) -> (r: Value) {
        let items = vec![self.0.into_value(), self.1.into_value()];
        proof {
            assert(tags_of(items@) =~= seq![self.0.value_tag(), self.1.value_tag()]);
            assert(payloads_of(items@) =~= seq![self.0.value_payload(), self.1.value_payload()]);
        }
        tuple_value(items)
    }
}

impl<A: IntoValue, B: IntoValue, C: IntoValue> IntoValue for (A, B, C) {
    open spec fn value_tag(&self) -> Seq<char> {
        tuple_tag(seq![self.0.value_tag(), self.1.value_tag(), self.2.value_tag()])
    }

    open spec fn value_payload(&self) -> Payload {
        tuple_of(seq![self.0.value_payload(), self.1.value_payload(), self.2.value_payload()])
    }

    fn into_value(self) -> (r: Value) {
        let items = vec![self.0.into_value(), self.1.into_value(), self.2.into_value()];
        proof {
            assert(tags_of(items@) =~= seq![
                self.0.value_tag(),
                self.1.value_tag(),
                self.2.value_tag(),
            ]);
            assert(payloads_of(items@) =~= seq![
                self.0.value_payload(),
                self.1.value_payload(),
                self.2.value_payload(),
            ]);
        }
        tuple_value(items)
    }
}

impl<A: IntoValue, B: IntoValue, C: IntoValue, D: IntoValue> IntoValue for (A, B, C, D) {
    open spec fn value_tag(&self) -> Seq<char> {
        tuple_tag(
            seq![self.0.value_tag(), self.1.value_tag(), self.2.value_tag(), self.3.value_tag()],
        )
    }

    open spec fn value_payload(&self) -> Payload {
        tuple_of(
            seq![
                self.0.value_payload(),
                self.1.value_payload(),
                self.2.value_payload(),
                self.3.value_payload(),
            ],
        )
    }

    fn into_value(self) -> (r: Value) {
        let items = vec![
            self.0.into_value(),
            self.1.into_value(),
            self.2.into_value(),
            self.3.into_value(),
        ];
        proof {
            assert(tags_of(items@) =~= seq![
                self.0.value_tag(),
                self.1.value_tag(),
                self.2.value_tag(),
                self.3.value_tag(),
            ]);
            assert(payloads_of(items@) =~= seq![
                self.0.value_payload(),
                self.1.value_payload(),
                self.2.value_payload(),
                self.3.value_payload(),
            ]);
        }
        tuple_value(items)
    }
}

/// The payloads that the elements of `items` convert to, in order.
pub open spec fn element_payloads<T: IntoValue>(items: Seq<T>) -> Seq<Payload> {
    items.map_values(|t: T| t.value_payload())
}

/// Converts a collection into one set value tagged with its elements' type,
/// the tag of the first element. An empty collection has no element type and
/// is refused.
pub fn collection_value<T: IntoValue>(items: Vec<T>) -> (r: Result<Value, ValueError>)
    ensures
        items@.len() == 0 <==> r is Err,
        r is Err ==> r == Err::<Value, ValueError>(ValueError::EmptyCollection),
        r is Ok ==> r->Ok_0.kind@ == items@[0].value_tag(),
        r is Ok ==> r->Ok_0.inner == set_of(element_payloads(items@)),
{
    if items.len() == 0 {
        return Err(ValueError::EmptyCollection);
    }
    let ghost all = element_payloads(items@);
    let total = items.len();
    let mut rest = items;
    let first = rest.remove(0).into_value();
    let kind = first.kind;
    let mut payloads: Vec<Payload> = vec![first.inner];
    let mut k: usize = 1;
    assert(payloads@ =~= all.take(1));
    while rest.len() > 0
        invariant
            total == items@.len(),
            1 <= k <= total,
            k + rest@.len() == total,
            rest@ == items@.subrange(k as int, total as int),
            payloads@ == all.take(k as int),
            all == element_payloads(items@),
        decreases rest@.len(),
    {
        let t = rest.remove(0);
        assert(t == items@[k as int]);
        let v = t.into_value();
        payloads.push(v.inner);
        k = k + 1;
        assert(rest@ =~= items@.subrange(k as int, total as int));
        assert(payloads@ =~= all.take(k as int));
    }
    assert(all.take(total as int) =~= all);
    Ok(Value { inner: set_payload(payloads), kind })
}

} // verus!
