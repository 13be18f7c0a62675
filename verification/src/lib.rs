//! Group-by list aggregation for columnar data.
//!
//! Given a source column and a partition of its rows into groups, the engine
//! materializes one list-typed value per group (offsets, flattened child
//! values, optional validity), together with an amortized per-group iteration
//! protocol that walks each group's sub-column without re-deriving offsets.

pub mod agg;
pub mod column;
pub mod group_iter;
pub mod groups;
pub mod laws;
pub mod list_column;
pub mod values;

pub use agg::AggList;
pub use column::Column;
pub use group_iter::{iterate_groups, AggState, GroupsIter};
pub use groups::GroupsType;
pub use list_column::ListColumn;
