//! An in-memory task list with verified operations.
//!
//! The store keeps a collection of tasks, each identified by a unique
//! string id, and offers atomic read, create, toggle and delete
//! operations. A resolver layer exposes those operations in the
//! success-or-failure shape that a request handler expects, and a
//! shared store wraps the whole collection in a verified
//! reader-writer lock so that concurrent callers see it one at a time.

mod ids;
pub mod laws;
pub mod resolver;
pub mod shared;
pub mod store;
pub mod task;

pub use resolver::OpError;
pub use shared::SharedStore;
pub use store::TaskStore;
pub use task::Task;
