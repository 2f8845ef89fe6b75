//! Task completion and verification for quests.
//!
//! A quest is a group of tasks. An address completes a task when the task's
//! verification strategy accepts it, and one completion record per
//! (task, address) pair is kept as proof. The modules follow that flow:
//! the task definitions, the completion records and the store that owns
//! both, the verifier registry that decides completion, and the listing
//! that merges tasks with completion state for one address.

pub mod error;
pub mod task;
pub mod completion;
pub mod get_tasks;
pub mod store;
pub mod registry;
pub mod update_doc;
