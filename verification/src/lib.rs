//! Client-side cache of a remote project's work items.
//!
//! The library keeps a hierarchical cache of remote entities (issues, pull
//! requests, draft issues), records pending local edits in a change ledger,
//! derives corrective edits from the tree (sanitization), classifies freshly
//! fetched snapshots against cached ones, and plans the remote mutations that
//! commit pending edits.  Everything here is pure data manipulation; the
//! network transport and the UI shell live outside the library and drive it
//! with plain values.

pub mod apply;
pub mod changes;
pub mod convert;
pub mod delay_load;
pub mod fetch;
pub mod fields;
pub mod ids;
pub mod links;
pub mod nodes;
pub mod raw;
pub mod sanitize;
pub mod save_plan;
pub mod test_helpers;
pub mod update;
pub mod work_item;
pub mod work_items;

pub use delay_load::DelayLoad;
pub use ids::FieldId;
pub use ids::FieldOptionId;
pub use ids::ProjectItemId;
pub use ids::WorkItemId;
