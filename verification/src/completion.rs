//! Completion records: proof that one address satisfied one task.

use vstd::prelude::*;

verus! {

/// Proof that `address` completed the task `task_id`.
///
/// Addresses are opaque strings: two addresses are the same claimant
/// exactly when they are equal character for character.
#[derive(Debug)]
pub struct CompletionRecord {
    pub task_id: u32,
    pub address: String,
}

/// The mathematical value of a [`CompletionRecord`].
pub struct CompletionView {
    pub task_id: u32,
    pub address: Seq<char>,
}

impl View for CompletionRecord {
    type V = CompletionView;

    open spec fn view(&self) -> CompletionView {
        CompletionView { task_id: self.task_id, address: self.address@ }
    }
}

/// The values of a sequence of records, in the same order.
pub open spec fn completion_views(records: Seq<CompletionRecord>) -> Seq<CompletionView> {
    records.map_values(|r: CompletionRecord| r@)
}

/// Whether `records` holds a completion of `task_id` by `address`.
pub open spec fn has_completion(records: Seq<CompletionView>, task_id: u32, address: Seq<char>) -> bool {
    exists|i: int|
        0 <= i < records.len() && (#[trigger] records[i]).task_id == task_id
            && records[i].address == address
}

} // verus!
