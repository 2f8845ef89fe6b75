//! The task repository held in memory: the task definitions and the
//! completion records, with the operations that read and change them.

use vstd::prelude::*;
use crate::task::{Task, TaskView, TaskPatch, PatchView, task_views, patched};
use crate::completion::{CompletionRecord, CompletionView, completion_views, has_completion};
use crate::error::QuestError;
use crate::get_tasks::{GetTasksQuery, TaskListing, listing_of, joined, quest_has_tasks, aggregate};

verus! {

/// The task definitions and completion records of all quests.
///
/// Mutation goes through `&mut self`, so ids are assigned and records are
/// written by one writer at a time.
#[derive(Debug)]
pub struct TaskStore {
    tasks: Vec<Task>,
    records: Vec<CompletionRecord>,
}

/// The mathematical value of a [`TaskStore`]: the tasks in the order of
/// their creation and the records in the order in which they were written.
pub struct StoreModel {
    pub tasks: Seq<TaskView>,
    pub records: Seq<CompletionView>,
}

/// Task ids are positive and strictly increasing in the order of creation.
pub open spec fn ids_increase(tasks: Seq<TaskView>) -> bool {
    &&& forall|i: int| 0 <= i < tasks.len() ==> (#[trigger] tasks[i]).id >= 1
    &&& forall|i: int, j: int| 0 <= i < j < tasks.len() ==> tasks[i].id < tasks[j].id
}

/// No (task, address) pair is recorded twice.
pub open spec fn records_distinct(records: Seq<CompletionView>) -> bool {
    forall|i: int, j: int|
        0 <= i < j < records.len() ==> !(records[i].task_id == records[j].task_id
            && records[i].address == records[j].address)
}

/// The invariant of a store.
pub open spec fn valid_store(store: StoreModel) -> bool {
    ids_increase(store.tasks) && records_distinct(store.records)
}

/// Whether a task with the id `id` exists.
pub open spec fn holds_id(tasks: Seq<TaskView>, id: u32) -> bool {
    exists|i: int| 0 <= i < tasks.len() && (#[trigger] tasks[i]).id == id
}

/// The position of the task with the id `id`, where one exists.
pub open spec fn position_of(tasks: Seq<TaskView>, id: u32) -> int {
    choose|i: int| 0 <= i < tasks.len() && (#[trigger] tasks[i]).id == id
}

/// The task with the id `id`, if one exists.
pub open spec fn found(tasks: Seq<TaskView>, id: u32) -> Option<TaskView> {
    if holds_id(tasks, id) {
        Some(tasks[position_of(tasks, id)])
    } else {
        None
    }
}

/// The id that the next task gets: one more than the greatest id in use, or
/// 1 where no task exists.
pub open spec fn next_id(tasks: Seq<TaskView>) -> int {
    if tasks.len() == 0 {
        1
    } else {
        tasks.last().id + 1
    }
}

/// The store after the creation of `draft`, which gets the next id.
pub open spec fn created(store: StoreModel, draft: TaskView) -> StoreModel {
    StoreModel {
        tasks: store.tasks.push(TaskView { id: next_id(store.tasks) as u32, ..draft }),
        records: store.records,
    }
}

/// The records with the completion of `task_id` by `address` among them:
/// unchanged where it was there already, else with it appended.
pub open spec fn with_completion(records: Seq<CompletionView>, task_id: u32, address: Seq<char>) -> Seq<
    CompletionView,
> {
    if has_completion(records, task_id, address) {
        records
    } else {
        records.push(CompletionView { task_id, address })
    }
}

/// The number of records of the completion of `task_id` by `address`.
pub open spec fn completion_count(records: Seq<CompletionView>, task_id: u32, address: Seq<char>) -> nat
    decreases records.len(),
{
    if records.len() == 0 {
        0
    } else {
        let rest = completion_count(records.drop_last(), task_id, address);
        if records.last().task_id == task_id && records.last().address == address {
            rest + 1
        } else {
            rest
        }
    }
}

/// The store after the update of the task `patch.id`: that task is patched,
/// everything else stays. A store without that task stays as it is.
pub open spec fn updated(store: StoreModel, patch: PatchView) -> StoreModel {
    if holds_id(store.tasks, patch.id) {
        let at = position_of(store.tasks, patch.id);
        StoreModel { tasks: store.tasks.update(at, patched(store.tasks[at], patch)), records: store.records }
    } else {
        store
    }
}

/// What recording a completion found.
#[derive(Debug, PartialEq, Eq, Clone, Copy, Structural)]
pub enum RecordOutcome {
    /// The record was written.
    Recorded,
    /// The record was there already; nothing was written.
    AlreadyRecorded,
}

impl View for TaskStore {
    type V = StoreModel;

    closed spec fn view(&self) -> StoreModel {
        StoreModel { tasks: task_views(self.tasks@), records: completion_views(self.records@) }
    }
}

impl TaskStore {
    /// The invariant: ids positive and increasing, no record twice.
    pub open spec fn wf(&self) -> bool {
        valid_store(self@)
    }

    /// The store without tasks and records.
    pub fn new() -> (out: TaskStore)
        ensures
            out.wf(),
            out@.tasks.len() == 0,
            out@.records.len() == 0,
    {
        TaskStore { tasks: Vec::new(), records: Vec::new() }
    }

    /// The store that holds the given tasks and records, or `None` where
    /// they break the invariant: an id that is 0 or not greater than the one
    /// before it, or a (task, address) pair recorded twice.
    pub fn from_parts(tasks: Vec<Task>, records: Vec<CompletionRecord>) -> (out: Option<TaskStore>)
        ensures
            out is Some <==> valid_store(
                StoreModel { tasks: task_views(tasks@), records: completion_views(records@) },
            ),
            out matches Some(store) ==> store.wf() && store@.tasks == task_views(tasks@)
                && store@.records == completion_views(records@),
    {
        let ghost defs = task_views(tasks@);
        let ghost recs = completion_views(records@);
        let mut i: usize = 0;
        while i < tasks.len()
            invariant
                0 <= i <= tasks@.len(),
                defs == task_views(tasks@),
                forall|a: int| 0 <= a < i ==> (#[trigger] defs[a]).id >= 1,
                forall|a: int, b: int| 0 <= a < b < i ==> defs[a].id < defs[b].id,
            decreases tasks@.len() - i,
        {
            if tasks[i].id == 0 {
                assert(defs[i as int].id == 0);
                return None;
            }
            if i > 0 && tasks[i - 1].id >= tasks[i].id {
                assert(!(defs[i - 1].id < defs[i as int].id));
                return None;
            }
            assert forall|a: int, b: int| 0 <= a < b < i + 1 implies defs[a].id < defs[b].id by {
                if b == i && a < i - 1 {
                    assert(defs[a].id < defs[i - 1].id);
                }
            }
            i = i + 1;
        }
        let mut j: usize = 0;
        while j < records.len()
            invariant
                0 <= j <= records@.len(),
                recs == completion_views(records@),
                forall|a: int, b: int|
                    0 <= a < b < j ==> !(recs[a].task_id == recs[b].task_id && recs[a].address
                        == recs[b].address),
            decreases records@.len() - j,
        {
            let mut k: usize = 0;
            while k < j
                invariant
                    0 <= k <= j < records@.len(),
                    recs == completion_views(records@),
                    forall|a: int|
                        0 <= a < k ==> !((#[trigger] recs[a]).task_id == recs[j as int].task_id
                            && recs[a].address == recs[j as int].address),
                decreases j - k,
            {
                if records[k].task_id == records[j].task_id && records[k].address
                    == records[j].address {
                    assert(recs[k as int].task_id == recs[j as int].task_id && recs[k as int].address
                        == recs[j as int].address);
                    return None;
                }
                k = k + 1;
            }
            j = j + 1;
        }
        Some(TaskStore { tasks, records })
    }

    /// The position of the task with the id `id`, if one exists.
    fn locate(&self, id: u32) -> (at: Option<usize>)
        ensures
            at is Some <==> holds_id(self@.tasks, id),
            at matches Some(i) ==> i < self.tasks@.len() && self@.tasks[i as int].id == id,
    {
        let mut i: usize = 0;
        while i < self.tasks.len()
            invariant
                0 <= i <= self.tasks@.len(),
                forall|j: int| 0 <= j < i ==> (#[trigger] self@.tasks[j]).id != id,
            decreases self.tasks@.len() - i,
        {
            if self.tasks[i].id == id {
                assert(self@.tasks[i as int].id == id);
                return Some(i);
            }
            i = i + 1;
        }
        None
    }

    /// A copy of the task with the id `id`, or `None` where there is none.
    pub fn find_task(&self, id: u32) -> (out: Option<Task>)
        requires
            self.wf(),
        ensures
            task_value(out) == found(self@.tasks, id),
    {
        match self.locate(id) {
            Some(i) => {
                proof {
                    lemma_position_unique(self@.tasks, id, i as int);
                }
                Some(self.tasks[i].duplicate())
            },
            None => None,
        }
    }

    /// Copies of the tasks of the quest `quest_id`, ascending by id.
    pub fn find_tasks_by_quest(&self, quest_id: u32) -> (out: Vec<Task>)
        requires
            self.wf(),
        ensures
            task_views(out@) == of_quest(self@.tasks, quest_id),
            ids_increase(task_views(out@)),
    {
        let mut out: Vec<Task> = Vec::new();
        let mut i: usize = 0;
        assert(task_views(out@) =~= Seq::empty());
        while i < self.tasks.len()
            invariant
                0 <= i <= self.tasks@.len(),
                task_views(out@) == of_quest(self@.tasks.take(i as int), quest_id),
            decreases self.tasks@.len() - i,
        {
            proof {
                let grown = self@.tasks.take(i + 1);
                assert(grown.drop_last() =~= self@.tasks.take(i as int));
                assert(grown.last() == self.tasks@[i as int]@);
            }
            if self.tasks[i].quest_id == quest_id {
                let copy = self.tasks[i].duplicate();
                assert(task_views(out@.push(copy)) =~= task_views(out@).push(copy@));
                out.push(copy);
            }
            i = i + 1;
        }
        proof {
            assert(self@.tasks.take(i as int) =~= self@.tasks);
            lemma_of_quest_increases(self@.tasks, quest_id);
        }
        out
    }

    /// The id that the next task gets, or `None` where every id is taken.
    pub fn next_task_id(&self) -> (out: Option<u32>)
        requires
            self.wf(),
        ensures
            next_id(self@.tasks) <= u32::MAX ==> out == Some(next_id(self@.tasks) as u32),
            next_id(self@.tasks) > u32::MAX ==> out is None,
            out matches Some(id) ==> id >= 1 && forall|i: int|
                0 <= i < self@.tasks.len() ==> (#[trigger] self@.tasks[i]).id < id,
    {
        let n = self.tasks.len();
        if n == 0 {
            Some(1)
        } else {
            assert(self@.tasks.last() == self.tasks@[n - 1]@);
            self.tasks[n - 1].id.checked_add(1)
        }
    }

    /// Stores `draft` as a new task under the next id and returns that id.
    /// The id that `draft` came with is not read. Fails, and changes nothing,
    /// where every id is taken.
    pub fn create_task(&mut self, draft: Task) -> (out: Result<u32, QuestError>)
        requires
            old(self).wf(),
        ensures
            final(self).wf(),
            next_id(old(self)@.tasks) <= u32::MAX ==> (out matches Ok(id) && id == next_id(
                old(self)@.tasks,
            )) && final(self)@ == created(old(self)@, draft@),
            next_id(old(self)@.tasks) > u32::MAX ==> (out matches Err(e) && e@
                is IdSpaceExhausted) && final(self)@ == old(self)@,
            out matches Ok(id) ==> !holds_id(old(self)@.tasks, id) && forall|i: int|
                0 <= i < old(self)@.tasks.len() ==> (#[trigger] old(self)@.tasks[i]).id < id,
    {
        match self.next_task_id() {
            Some(id) => {
                let mut task = draft;
                task.id = id;
                assert(task@ == (TaskView { id, ..draft@ }));
                assert(task_views(self.tasks@.push(task)) =~= task_views(self.tasks@).push(task@));
                self.tasks.push(task);
                Ok(id)
            },
            None => Err(QuestError::IdSpaceExhausted),
        }
    }

    /// Whether the completion of `task_id` by `address` is recorded.
    pub fn has_completion(&self, task_id: u32, address: &str) -> (out: bool)
        ensures
            out == has_completion(self@.records, task_id, address@),
    {
        let wanted = address.to_owned();
        let mut i: usize = 0;
        while i < self.records.len()
            invariant
                0 <= i <= self.records@.len(),
                wanted@ == address@,
                forall|j: int|
                    0 <= j < i ==> !((#[trigger] self@.records[j]).task_id == task_id
                        && self@.records[j].address == address@),
            decreases self.records@.len() - i,
        {
            if self.records[i].task_id == task_id && self.records[i].address == wanted {
                assert(self@.records[i as int].task_id == task_id);
                return true;
            }
            i = i + 1;
        }
        false
    }

    /// Records the completion of `task_id` by `address`, unless it is
    /// recorded already: then nothing is written.
    pub fn record_completion(&mut self, task_id: u32, address: &str) -> (out: RecordOutcome)
        requires
            old(self).wf(),
        ensures
            final(self).wf(),
            final(self)@.tasks == old(self)@.tasks,
            final(self)@.records == with_completion(old(self)@.records, task_id, address@),
            out == RecordOutcome::AlreadyRecorded <==> has_completion(
                old(self)@.records,
                task_id,
                address@,
            ),
            has_completion(final(self)@.records, task_id, address@),
    {
        if self.has_completion(task_id, address) {
            RecordOutcome::AlreadyRecorded
        } else {
            let record = CompletionRecord { task_id, address: address.to_owned() };
            let ghost before = self@.records;
            assert(completion_views(self.records@.push(record)) =~= before.push(record@));
            self.records.push(record);
            proof {
                let after = self@.records;
                assert(after[before.len() as int].task_id == task_id);
                assert forall|i: int, j: int| 0 <= i < j < after.len() implies !(after[i].task_id
                    == after[j].task_id && after[i].address == after[j].address) by {
                    if j == before.len() {
                        assert(after[i] == before[i]);
                    } else {
                        assert(after[i] == before[i] && after[j] == before[j]);
                    }
                }
            }
            RecordOutcome::Recorded
        }
    }

    /// Applies a partial update to the task `patch.id`: the fields that the
    /// patch gives are replaced, all else stays. Fails with `NotFound`, and
    /// changes nothing, where no such task exists.
    pub fn update_task(&mut self, patch: &TaskPatch) -> (out: Result<(), QuestError>)
        requires
            old(self).wf(),
        ensures
            final(self).wf(),
            final(self)@ == updated(old(self)@, patch@),
            out is Ok <==> holds_id(old(self)@.tasks, patch.id),
            out matches Err(e) ==> e@ is NotFound,
    {
        match self.locate(patch.id) {
            Some(i) => {
                proof {
                    lemma_position_unique(self@.tasks, patch.id, i as int);
                }
                let ghost before = self@.tasks;
                let mut task = self.tasks[i].duplicate();
                task.apply(patch);
                assert(task_views(self.tasks@.update(i as int, task)) =~= before.update(
                    i as int,
                    task@,
                ));
                self.tasks.set(i, task);
                proof {
                    let after = self@.tasks;
                    assert forall|a: int| 0 <= a < after.len() implies (#[trigger] after[a]).id
                        == before[a].id by {}
                    assert forall|a: int, b: int| 0 <= a < b < after.len() implies after[a].id
                        < after[b].id by {
                        assert(after[a].id == before[a].id && after[b].id == before[b].id);
                    }
                }
                Ok(())
            },
            None => Err(QuestError::NotFound),
        }
    }

    /// Lists the tasks of the queried quest with the completion state of the
    /// queried address, ascending by id.
    pub fn list(&self, query: &GetTasksQuery) -> (out: TaskListing)
        ensures
            out@ == listing_of(joined(self@.tasks, self@.records, query.quest_id, query.addr@)),
            out is NoTasks <==> !quest_has_tasks(self@.tasks, query.quest_id),
            !(out is Failed),
    {
        aggregate(&self.tasks, &self.records, query)
    }

    /// The number of tasks.
    pub fn task_count(&self) -> (n: usize)
        ensures
            n == self@.tasks.len(),
    {
        self.tasks.len()
    }

    /// The number of completion records.
    pub fn record_count(&self) -> (n: usize)
        ensures
            n == self@.records.len(),
    {
        self.records.len()
    }
}

/// The value of an optional task.
pub open spec fn task_value(task: Option<Task>) -> Option<TaskView> {
    match task {
        Some(t) => Some(t@),
        None => None,
    }
}

/// The tasks of the quest `quest_id`, in the order of `tasks`.
pub open spec fn of_quest(tasks: Seq<TaskView>, quest_id: u32) -> Seq<TaskView>
    decreases tasks.len(),
{
    if tasks.len() == 0 {
        Seq::empty()
    } else if tasks.last().quest_id == quest_id {
        of_quest(tasks.drop_last(), quest_id).push(tasks.last())
    } else {
        of_quest(tasks.drop_last(), quest_id)
    }
}

/// With increasing ids, a task is found at one position only.
pub proof fn lemma_position_unique(tasks: Seq<TaskView>, id: u32, at: int)
    requires
        ids_increase(tasks),
        0 <= at < tasks.len(),
        tasks[at].id == id,
    ensures
        holds_id(tasks, id),
        position_of(tasks, id) == at,
{
    let p = position_of(tasks, id);
    if p < at {
        assert(tasks[p].id < tasks[at].id);
    } else if at < p {
        assert(tasks[at].id < tasks[p].id);
    }
}

/// The tasks of one quest, taken from tasks with increasing ids, have
/// increasing ids, and each of them is a task of the whole.
pub proof fn lemma_of_quest_increases(tasks: Seq<TaskView>, quest_id: u32)
    requires
        ids_increase(tasks),
    ensures
        ids_increase(of_quest(tasks, quest_id)),
        forall|k: int|
            0 <= k < of_quest(tasks, quest_id).len() ==> (#[trigger] of_quest(tasks, quest_id)[k]).quest_id
                == quest_id && exists|i: int|
                0 <= i < tasks.len() && #[trigger] tasks[i] == of_quest(tasks, quest_id)[k],
    decreases tasks.len(),
{
    if tasks.len() > 0 {
        let front = tasks.drop_last();
        assert forall|i: int, j: int| 0 <= i < j < front.len() implies front[i].id < front[j].id by {
            assert(front[i] == tasks[i] && front[j] == tasks[j]);
        }
        assert forall|i: int| 0 <= i < front.len() implies (#[trigger] front[i]).id >= 1 by {
            assert(front[i] == tasks[i]);
        }
        lemma_of_quest_increases(front, quest_id);
        let rest = of_quest(front, quest_id);
        let all = of_quest(tasks, quest_id);
        assert forall|k: int| 0 <= k < all.len() implies (#[trigger] all[k]).quest_id == quest_id
            && exists|i: int| 0 <= i < tasks.len() && #[trigger] tasks[i] == all[k] by {
            if k < rest.len() {
                assert(all[k] == rest[k]);
                let i = choose|i: int| 0 <= i < front.len() && #[trigger] front[i] == rest[k];
                assert(tasks[i] == front[i]);
            } else {
                assert(tasks[tasks.len() - 1] == all[k]);
            }
        }
        assert forall|a: int, b: int| 0 <= a < b < all.len() implies all[a].id < all[b].id by {
            if b < rest.len() {
                assert(all[a] == rest[a] && all[b] == rest[b]);
            } else {
                assert(all[a] == rest[a]);
                let i = choose|i: int| 0 <= i < front.len() && #[trigger] front[i] == rest[a];
                assert(tasks[i] == front[i]);
                assert(tasks[i].id < tasks[tasks.len() - 1].id);
            }
        }
        assert forall|k: int| 0 <= k < all.len() implies (#[trigger] all[k]).id >= 1 by {
            let i = choose|i: int| 0 <= i < tasks.len() && #[trigger] tasks[i] == all[k];
        }
    }
}

/// Tasks with increasing ids have no id twice.
pub proof fn lemma_ids_unique(tasks: Seq<TaskView>)
    requires
        ids_increase(tasks),
    ensures
        forall|i: int, j: int|
            0 <= i < tasks.len() && 0 <= j < tasks.len() && i != j ==> tasks[i].id != tasks[j].id,
{
    assert forall|i: int, j: int|
        0 <= i < tasks.len() && 0 <= j < tasks.len() && i != j implies tasks[i].id
        != tasks[j].id by {
        if i < j {
            assert(tasks[i].id < tasks[j].id);
        } else {
            assert(tasks[j].id < tasks[i].id);
        }
    }
}

/// A created task gets an id greater than that of every task before it, and
/// the task created after it gets the id after that: ids are handed out in
/// strictly increasing order, none of them twice.
pub proof fn lemma_created_ids_increase(store: StoreModel, draft: TaskView)
    requires
        valid_store(store),
        next_id(store.tasks) <= u32::MAX,
    ensures
        valid_store(created(store, draft)),
        created(store, draft).tasks.last().id == next_id(store.tasks),
        forall|i: int| 0 <= i < store.tasks.len() ==> (#[trigger] store.tasks[i]).id < next_id(store.tasks),
        !holds_id(store.tasks, next_id(store.tasks) as u32),
        next_id(created(store, draft).tasks) == next_id(store.tasks) + 1,
{
    let after = created(store, draft).tasks;
    let n = store.tasks.len() as int;
    assert forall|i: int| 0 <= i < n implies (#[trigger] store.tasks[i]).id < next_id(store.tasks) by {
        if i < n - 1 {
            assert(store.tasks[i].id < store.tasks[n - 1].id);
        }
    }
    assert forall|i: int, j: int| 0 <= i < j < after.len() implies after[i].id < after[j].id by {
        assert(after[i] == store.tasks[i]);
        if j < n {
            assert(after[j] == store.tasks[j]);
        }
    }
    assert forall|i: int| 0 <= i < after.len() implies (#[trigger] after[i]).id >= 1 by {
        if i < n {
            assert(after[i] == store.tasks[i]);
        }
    }
}

/// With no pair recorded twice, a completion has one record if it is
/// recorded and none if it is not.
pub proof fn lemma_completion_count(records: Seq<CompletionView>, task_id: u32, address: Seq<char>)
    requires
        records_distinct(records),
    ensures
        completion_count(records, task_id, address) == (if has_completion(records, task_id, address) {
            1nat
        } else {
            0nat
        }),
    decreases records.len(),
{
    if records.len() > 0 {
        let front = records.drop_last();
        let n = front.len() as int;
        assert forall|i: int, j: int| 0 <= i < j < front.len() implies !(front[i].task_id
            == front[j].task_id && front[i].address == front[j].address) by {
            assert(front[i] == records[i] && front[j] == records[j]);
        }
        lemma_completion_count(front, task_id, address);
        if has_completion(front, task_id, address) {
            let w = choose|w: int|
                0 <= w < front.len() && (#[trigger] front[w]).task_id == task_id && front[w].address
                    == address;
            assert(records[w] == front[w]);
            assert(records[w].task_id == task_id);
        }
        if records.last().task_id == task_id && records.last().address == address {
            assert(records[n].task_id == task_id);
        } else if has_completion(records, task_id, address) {
            let w = choose|w: int|
                0 <= w < records.len() && (#[trigger] records[w]).task_id == task_id
                    && records[w].address == address;
            assert(front[w] == records[w]);
        }
    }
}

/// Recording a completion twice leaves what recording it once leaves:
/// exactly one record of it, and no other record touched.
pub proof fn lemma_record_twice(records: Seq<CompletionView>, task_id: u32, address: Seq<char>)
    requires
        records_distinct(records),
    ensures
        with_completion(with_completion(records, task_id, address), task_id, address)
            == with_completion(records, task_id, address),
        records_distinct(with_completion(records, task_id, address)),
        completion_count(with_completion(records, task_id, address), task_id, address) == 1,
{
    let once = with_completion(records, task_id, address);
    if !has_completion(records, task_id, address) {
        let n = records.len() as int;
        assert(once[n].task_id == task_id && once[n].address == address);
        assert forall|i: int, j: int| 0 <= i < j < once.len() implies !(once[i].task_id
            == once[j].task_id && once[i].address == once[j].address) by {
            if j == n {
                assert(once[i] == records[i]);
            } else {
                assert(once[i] == records[i] && once[j] == records[j]);
            }
        }
    }
    assert(has_completion(once, task_id, address));
    lemma_completion_count(once, task_id, address);
}

/// After an update, the updated task is found patched and every other task
/// is found as it was; no record changes.
pub proof fn lemma_update_then_find(store: StoreModel, patch: PatchView, other: u32)
    requires
        valid_store(store),
        holds_id(store.tasks, patch.id),
        other != patch.id,
    ensures
        valid_store(updated(store, patch)),
        found(updated(store, patch).tasks, patch.id) == Some(
            patched(found(store.tasks, patch.id).unwrap(), patch),
        ),
        found(updated(store, patch).tasks, other) == found(store.tasks, other),
        updated(store, patch).records == store.records,
{
    let before = store.tasks;
    let after = updated(store, patch).tasks;
    let at = position_of(before, patch.id);
    assert forall|a: int, b: int| 0 <= a < b < after.len() implies after[a].id < after[b].id by {
        assert(after[a].id == before[a].id && after[b].id == before[b].id);
    }
    assert forall|a: int| 0 <= a < after.len() implies (#[trigger] after[a]).id >= 1 by {
        assert(after[a].id == before[a].id);
    }
    lemma_position_unique(after, patch.id, at);
    if holds_id(before, other) {
        let q = position_of(before, other);
        assert(after[q] == before[q]);
        lemma_position_unique(after, other, q);
    }
    if holds_id(after, other) {
        let q = position_of(after, other);
        assert(before[q].id == other);
    }
}

/// An update that gives a name and nothing else, followed by a lookup,
/// yields the task with that name and every other field as before.
pub proof fn lemma_rename_round_trip(store: StoreModel, id: u32, name: Seq<char>)
    requires
        valid_store(store),
        holds_id(store.tasks, id),
    ensures
        found(updated(store, rename(id, name)).tasks, id) == Some(
            TaskView { name, ..found(store.tasks, id).unwrap() },
        ),
{
    let other: u32 = if id == 0 { 1 } else { 0 };
    lemma_update_then_find(store, rename(id, name), other);
}

/// The patch of task `id` that gives the name `name` and nothing else.
pub open spec fn rename(id: u32, name: Seq<char>) -> PatchView {
    PatchView {
        id,
        name: Some(name),
        desc: None,
        cta: None,
        verify_endpoint: None,
        verify_endpoint_type: None,
        verify_redirect: None,
        href: None,
    }
}

} // verus!
