//! Shape entries: plain names, nested shapes, computed entries and splats.
use vstd::prelude::*;

use crate::expr::{Expr, ToQuery};

verus! {

/// What a shape entry holds besides its name.
#[derive(Debug)]
pub enum FieldType {
    /// A computed entry, `name := (expr)`.
    Expr(Box<Expr>),
    /// Nested entries, `name: { ... }`; with none, a plain `name,`.
    Field(Vec<Field>),
    /// All own properties, `*`.
    SingleSplat,
    /// All properties and links, `**`.
    DoubleSplat,
}

/// One entry of a shape.
#[derive(Debug)]
pub struct Field {
    /// `None` for a splat.
    pub name: Option<String>,
    pub fields: FieldType,
}

pub open spec fn name_view(name: Option<&str>) -> Option<Seq<char>> {
    match name {
        Some(n) => Some(n@),
        None => None,
    }
}

pub open spec fn field_name(f: Field) -> Option<Seq<char>> {
    match f.name {
        Some(n) => Some(n@),
        None => None,
    }
}

/// The nested entries of `f`, none where it holds something else.
pub open spec fn nested(f: Field) -> Seq<Field> {
    match f.fields {
        FieldType::Field(v) => v@,
        _ => Seq::empty(),
    }
}

impl Field {
    /// An entry with no payload, rendered `name,`.
    pub fn new(name: Option<&str>) -> (r: Field)
        ensures
            field_name(r) == name_view(name),
            r.fields is Field,
            nested(r).len() == 0,
    {
        let name = match name {
            Some(n) => Some(String::from_str(n)),
            None => None,
        };
        Field { name, fields: FieldType::Field(Vec::new()) }
    }

    /// Makes the entry a `*` splat, dropping what it held.
    pub fn single_splat(self) -> (r: Field)
        ensures
            r.name == self.name,
            r.fields == FieldType::SingleSplat,
    {
        Field { name: self.name, fields: FieldType::SingleSplat }
    }

    /// Makes the entry a `**` splat, dropping what it held.
    pub fn double_splat(self) -> (r: Field)
        ensures
            r.name == self.name,
            r.fields == FieldType::DoubleSplat,
    {
        Field { name: self.name, fields: FieldType::DoubleSplat }
    }

    /// Makes the entry computed from `expr`, dropping what it held.
    pub fn expr<T: ToQuery>(self, expr: T) -> (r: Field)
        ensures
            r.name == self.name,
            r.fields == FieldType::Expr(Box::new(expr.node())),
    {
        Field { name: self.name, fields: FieldType::Expr(Box::new(expr.into_expr())) }
    }

    /// Appends a nested entry; an entry that held an expression or a splat
    /// now holds this one alone.
    pub fn nest(self, field: Field) -> (r: Field)
        ensures
            r.name == self.name,
            r.fields is Field,
            nested(r) == nested(self).push(field),
    {
        match self.fields {
            FieldType::Field(mut v) => {
                v.push(field);
                Field { name: self.name, fields: FieldType::Field(v) }
            },
            _ => Field { name: self.name, fields: FieldType::Field(vec![field]) },
        }
    }

    /// Appends the nested entries of `fields`, in order.
    pub fn nests(self, fields: Vec<Field>) -> (r: Field)
        ensures
            fields@.len() == 0 ==> r == self,
            fields@.len() > 0 ==> r.name == self.name && r.fields is Field && nested(r) == nested(
                self,
            ) + fields@,
    {
        let mut r = self;
        let total = fields.len();
        let mut rest = fields;
        let ghost n = rest@.len();
        let mut k: usize = 0;
        while rest.len() > 0
            invariant
                n == fields@.len(),
                n == total,
                k + rest@.len() == n,
                rest@ == fields@.subrange(k as int, n as int),
                k == 0 ==> r == self,
                k > 0 ==> r.name == self.name && r.fields is Field && nested(r) == nested(self)
                    + fields@.take(k as int),
            decreases rest@.len(),
        {
            let f = rest.remove(0);
            assert(f == fields@[k as int]);
            r = r.nest(f);
            k = k + 1;
            proof {
                assert(rest@ =~= fields@.subrange(k as int, n as int));
                assert(nested(r) =~= nested(self) + fields@.take(k as int));
            }
        }
        assert(fields@.take(n as int) =~= fields@);
        r
    }
}

} // verus!
