//! Boolean predicates: leaf conditions and nested predicates joined by
//! `and` / `or`, optionally negated or wrapped in a function call.
use vstd::prelude::*;

use crate::value::{IntoValue, Value};

verus! {

/// The prefix operator of a predicate.
#[derive(Clone, Copy, Debug, PartialEq, Eq, Structural)]
pub enum Not {
    Not,
}

pub const NOT: Not = Not::Not;

/// How an operand joins the one before it.
#[derive(Clone, Copy, Debug, PartialEq, Eq, Structural)]
pub enum AndOr {
    And,
    Or,
}

pub const AND: AndOr = AndOr::And;

pub const OR: AndOr = AndOr::Or;

pub open spec fn and_or_text(a: AndOr) -> Seq<char> {
    match a {
        AndOr::And => "and"@,
        AndOr::Or => "or"@,
    }
}

impl AndOr {
    /// The keyword, `and` or `or`.
    pub fn as_str(&self) -> (r: &'static str)
        ensures
            r@ == and_or_text(*self),
    {
        match self {
            AndOr::And => "and",
            AndOr::Or => "or",
        }
    }
}

/// The marker that a condition's template holds where its value goes.
pub const ARG_IDENTITY: &'static str = "$?";

pub open spec fn marker_at(s: Seq<char>, i: int) -> bool {
    0 <= i && i + 1 < s.len() && s[i] == '$' && s[i + 1] == '?'
}

/// The first position at or after `i` where `s` holds the marker, or -1.
pub open spec fn marker_from(s: Seq<char>, i: int) -> int
    decreases s.len() - i,
{
    if i < 0 || i + 1 >= s.len() {
        -1
    } else if marker_at(s, i) {
        i
    } else {
        marker_from(s, i + 1)
    }
}

pub open spec fn first_marker(s: Seq<char>) -> int {
    marker_from(s, 0)
}

pub open spec fn has_marker(s: Seq<char>) -> bool {
    first_marker(s) >= 0
}

/// A leaf condition: the template split around its first marker, and the
/// value bound there.
#[derive(Debug)]
pub struct Condition {
    pub before: String,
    pub arg: Value,
    pub after: String,
}

/// One operand of a predicate.
#[derive(Debug)]
pub enum Operand {
    Leaf(Condition),
    Nested(Filter),
}

/// A boolean predicate: operands joined by `and` / `or`, optionally negated
/// and optionally wrapped in a function call.
#[derive(Debug)]
pub struct Filter {
    pub not: Option<Not>,
    pub func: Option<String>,
    pub qs: Vec<(AndOr, Operand)>,
}

/// `op` is the leaf built from template `q` and the value that `arg` converts to.
pub open spec fn leaf_of<V: IntoValue>(op: Operand, q: Seq<char>, arg: V) -> bool {
    match op {
        Operand::Leaf(c) => {
            &&& c.before@ == q.take(first_marker(q))
            &&& c.after@ == q.skip(first_marker(q) + 2)
            &&& c.arg.kind@ == arg.value_tag()
            &&& c.arg.inner == arg.value_payload()
        },
        Operand::Nested(_) => false,
    }
}

/// An empty predicate with no prefix operator.
pub fn filter() -> (r: Filter)
    ensures
        r.not is None,
        r.func is None,
        r.qs@.len() == 0,
{
    Filter::new(None)
}

proof fn lemma_marker_from(s: Seq<char>, i: int)
    ensures
        marker_from(s, i) >= 0 ==> marker_at(s, marker_from(s, i)) && marker_from(s, i) >= i,
    decreases s.len() - i,
{
    if i >= 0 && i + 1 < s.len() && !marker_at(s, i) {
        lemma_marker_from(s, i + 1);
    }
}

/// The position of the first marker in `q`, if any: a caller can test with
/// it that a template may be given to `Filter::add`.
pub fn find_marker(q: &str) -> (r: Option<usize>)
    ensures
        r is Some <==> has_marker(q@),
        r is Some ==> r->Some_0 == first_marker(q@) && marker_at(q@, r->Some_0 as int),
{
    proof {
        lemma_marker_from(q@, 0);
    }
    let n = q.unicode_len();
    if n < 2 {
        return None;
    }
    let mut i: usize = 0;
    while i < n - 1
        invariant
            n == q@.len(),
            n >= 2,
            i <= n - 1,
            marker_from(q@, i as int) == first_marker(q@),
            has_marker(q@) ==> marker_at(q@, first_marker(q@)),
        decreases n - i,
    {
        if q.get_char(i) == '$' && q.get_char(i + 1) == '?' {
            return Some(i);
        }
        i = i + 1;
    }
    None
}

impl Filter {
    pub fn new(prefix_operator: Option<Not>) -> (r: Filter)
        ensures
            r.not == prefix_operator,
            r.func is None,
            r.qs@.len() == 0,
    {
        Filter { not: prefix_operator, func: None, qs: Vec::new() }
    }

    /// Negates the whole predicate.
    pub fn negate(self) -> (r: Filter)
        ensures
            r.not == Some(Not::Not),
            r.func == self.func,
            r.qs == self.qs,
    {
        Filter { not: Some(NOT), func: self.func, qs: self.qs }
    }

    /// Wraps the whole predicate in a call of `func_name`.
    pub fn func(self, func_name: &str) -> (r: Filter)
        ensures
            r.not == self.not,
            r.func is Some && r.func->Some_0@ == func_name@,
            r.qs == self.qs,
    {
        Filter { not: self.not, func: Some(String::from_str(func_name)), qs: self.qs }
    }

    /// Appends the condition `q`, whose first `$?` marks where `arg` is bound.
    pub fn add<V: IntoValue>(self, and_or: AndOr, q: &str, arg: V) -> (r: Filter)
        requires
            has_marker(q@),
        ensures
            r.not == self.not,
            r.func == self.func,
            r.qs@.len() == self.qs@.len() + 1,
            r.qs@.drop_last() == self.qs@,
            r.qs@.last().0 == and_or,
            leaf_of(r.qs@.last().1, q@, arg),
    {
        let k = match find_marker(q) {
            Some(k) => k,
            None => {
                proof {
                    assert(false);
                }
                0
            },
        };
        let n = q.unicode_len();
        let before = String::from_str(q.substring_char(0, k));
        let after = String::from_str(q.substring_char(k + 2, n));
        let cond = Condition { before, arg: arg.into_value(), after };
        let mut qs = self.qs;
        qs.push((and_or, Operand::Leaf(cond)));
        proof {
            assert(qs@.drop_last() =~= self.qs@);
            assert(q@.take(k as int) =~= q@.subrange(0, k as int));
            assert(q@.skip(k + 2) =~= q@.subrange(k + 2, n as int));
        }
        Filter { not: self.not, func: self.func, qs }
    }

    /// Appends the condition `q` when `arg` holds a value; otherwise leaves
    /// the predicate as it is.
    pub fn add_opt<V: IntoValue>(self, and_or: AndOr, q: &str, arg: Option<V>) -> (r: Filter)
        requires
            has_marker(q@),
        ensures
            arg is None ==> r == self,
            arg is Some ==> {
                &&& r.not == self.not
                &&& r.func == self.func
                &&& r.qs@.len() == self.qs@.len() + 1
                &&& r.qs@.drop_last() == self.qs@
                &&& r.qs@.last().0 == and_or
                &&& leaf_of(r.qs@.last().1, q@, arg->Some_0)
            },
    {
        match arg {
            Some(a) => self.add(and_or, q, a),
            None => self,
        }
    }

    /// Appends a nested predicate.
    pub fn add_filter(self, and_or: AndOr, filter: Filter) -> (r: Filter)
        ensures
            r.not == self.not,
            r.func == self.func,
            r.qs@ == self.qs@.push((and_or, Operand::Nested(filter))),
    {
        let mut qs = self.qs;
        qs.push((and_or, Operand::Nested(filter)));
        Filter { not: self.not, func: self.func, qs }
    }

    /// True when the predicate has no operand; such a predicate renders no
    /// clause at all.
    pub fn is_empty(&self) -> (r: bool)
        ensures
            r == (self.qs@.len() == 0),
    {
        self.qs.len() == 0
    }
}

} // verus!
