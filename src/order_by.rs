//! Ordering keys of a `select`.
use vstd::prelude::*;

verus! {

/// The direction of one ordering key.
#[derive(Clone, Copy, Debug, PartialEq, Eq, Structural)]
pub enum OrderDirection {
    Desc,
    Asc,
}

pub const DESC: OrderDirection = OrderDirection::Desc;

pub const ASC: OrderDirection = OrderDirection::Asc;

pub open spec fn direction_text(d: OrderDirection) -> Seq<char> {
    match d {
        OrderDirection::Desc => "desc"@,
        OrderDirection::Asc => "asc"@,
    }
}

impl OrderDirection {
    /// The keyword, `desc` or `asc`.
    pub fn as_str(&self) -> (r: &'static str)
        ensures
            r@ == direction_text(*self),
    {
        match self {
            OrderDirection::Desc => "desc",
            OrderDirection::Asc => "asc",
        }
    }
}

/// One key of an `order by` chain: an expression and an optional direction.
#[derive(Debug)]
pub struct OrderBy {
    pub by: String,
    pub direction: Option<OrderDirection>,
}

/// Orders by `by`, in `direction` when one is given.
pub fn order_by(by: &str, direction: Option<OrderDirection>) -> (r: OrderBy)
    ensures
        r.by@ == by@,
        r.direction == direction,
{
    OrderBy::new(by, direction)
}

impl OrderBy {
    pub fn new(by: &str, direction: Option<OrderDirection>) -> (r: OrderBy)
        ensures
            r.by@ == by@,
            r.direction == direction,
    {
        OrderBy { by: String::from_str(by), direction }
    }
}

} // verus!
