//! Builds query text for a shape-based query language, with every runtime
//! value travelling beside the text as a positional, typed parameter.
pub mod copy;
pub mod expr;
pub mod field;
pub mod filter;
pub mod forin;
pub mod group;
pub mod insert;
pub mod laws;
pub mod order_by;
pub mod render;
pub mod select;
pub mod text;
pub mod update;
pub mod value;
pub mod with;

pub use expr::{backlink, raw, ArgOrExpr, Expr, Raw, ToQuery, TypeName};
pub use field::{Field, FieldType};
pub use filter::{filter, find_marker, AndOr, Condition, Filter, Not, Operand, AND, ARG_IDENTITY, NOT, OR};
pub use forin::{forin, ForInBuilder};
pub use group::{group, GroupBuilder, GroupResult};
pub use insert::{do_nothing, insert, on_conflict, InsertBuilder, OnConflict};
pub use order_by::{order_by, OrderBy, OrderDirection, ASC, DESC};
pub use select::{select, select_expr, SelectBuilder};
pub use text::Context;
pub use update::{update, UpdateBuilder};
pub use value::{collection_value, IntoValue, Value, ValueError};
pub use with::{with, with_expr, With};
