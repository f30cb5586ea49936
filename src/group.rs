//! `group` statements and the shape of their results.
use vstd::prelude::*;

verus! {

/// `group target { fields } using ... by ...`.
#[derive(Debug)]
pub struct GroupBuilder {
    pub target: String,
    /// The shape, as text; empty for none.
    pub fields: String,
    pub by: Vec<String>,
    pub using: Vec<String>,
}

/// Groups objects of type `target`, each with the shape `fields`.
pub fn group(target: &str, fields: &str) -> (r: GroupBuilder)
    ensures
        r.target@ == target@,
        r.fields@ == fields@,
        r.by@.len() == 0,
        r.using@.len() == 0,
{
    GroupBuilder::new(target, fields)
}

impl GroupBuilder {
    pub fn new(target: &str, fields: &str) -> (r: GroupBuilder)
        ensures
            r.target@ == target@,
            r.fields@ == fields@,
            r.by@.len() == 0,
            r.using@.len() == 0,
    {
        GroupBuilder {
            target: String::from_str(target),
            fields: String::from_str(fields),
            by: Vec::new(),
            using: Vec::new(),
        }
    }

    /// Appends an entry to the `using` list.
    pub fn using(self, using: &str) -> (r: GroupBuilder)
        ensures
            r.target == self.target,
            r.fields == self.fields,
            r.by == self.by,
            r.using@.len() == self.using@.len() + 1,
            r.using@.drop_last() == self.using@,
            r.using@.last()@ == using@,
    {
        let mut u = self.using;
        u.push(String::from_str(using));
        assert(u@.drop_last() =~= self.using@);
        GroupBuilder { target: self.target, fields: self.fields, by: self.by, using: u }
    }

    /// Appends an entry to the `by` list.
    pub fn group_by(self, by: &str) -> (r: GroupBuilder)
        ensures
            r.target == self.target,
            r.fields == self.fields,
            r.using == self.using,
            r.by@.len() == self.by@.len() + 1,
            r.by@.drop_last() == self.by@,
            r.by@.last()@ == by@,
    {
        let mut b = self.by;
        b.push(String::from_str(by));
        assert(b@.drop_last() =~= self.by@);
        GroupBuilder { target: self.target, fields: self.fields, by: b, using: self.using }
    }
}

/// One group of a `group` query's result: its key, the names it was grouped
/// by, and its elements.
pub struct GroupResult<K, T> {
    pub key: K,
    pub grouping: Vec<String>,
    pub elements: Vec<T>,
}

} // verus!
